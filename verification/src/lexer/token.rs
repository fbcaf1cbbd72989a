//! Tokens: a kind, the text it was read from, and where that text stood.

use vstd::prelude::*;
use vstd::std_specs::cmp::PartialEqSpecImpl;
use crate::error::LineInfo;
use crate::lexer::ttype::{TType, TTypeView};

verus! {

/// The smallest unit of the language.
#[derive(Debug)]
pub struct Token {
    pub ttype: TType,
    pub lexeme: String,
    pub lineinfo: LineInfo,
}

/// A [`Token`] as a mathematical value.
pub struct TokenView {
    pub ttype: TTypeView,
    pub lexeme: Seq<char>,
    pub lineinfo: LineInfo,
}

impl View for Token {
    type V = TokenView;

    open spec fn view(&self) -> TokenView {
        TokenView { ttype: self.ttype@, lexeme: self.lexeme@, lineinfo: self.lineinfo }
    }
}

impl DeepView for Token {
    type V = TokenView;

    open spec fn deep_view(&self) -> TokenView {
        self@
    }
}

impl Clone for Token {
    fn clone(&self) -> (copy: Token)
        ensures
            copy == *self,
    {
        Token {
            ttype: self.ttype.clone(),
            lexeme: self.lexeme.clone(),
            lineinfo: self.lineinfo,
        }
    }
}

impl PartialEq for Token {
    fn eq(&self, other: &Token) -> (equal: bool) {
        self.ttype == other.ttype && self.lexeme == other.lexeme && self.lineinfo == other.lineinfo
    }
}

impl PartialEqSpecImpl for Token {
    open spec fn obeys_eq_spec() -> bool {
        true
    }

    open spec fn eq_spec(&self, other: &Token) -> bool {
        self@ == other@
    }
}

impl Token {
    pub fn new(ttype: TType, lexeme: String, lineinfo: LineInfo) -> (token: Token)
        ensures
            token == (Token { ttype, lexeme, lineinfo }),
    {
        Token { ttype, lexeme, lineinfo }
    }

    /// The token as it appears in a listing: its kind with the text that
    /// the kind carries, a space, the lexeme.
    pub fn to_string(&self) -> (listing: String)
        ensures
            listing@ == self.ttype@.shown() + seq![' '] + self.lexeme@,
    {
        let mut listing = self.ttype.shown();
        listing.append(" ");
        listing.append(self.lexeme.as_str());
        proof {
            reveal_strlit(" ");
            assert(listing@ =~= self.ttype@.shown() + seq![' '] + self.lexeme@);
        }
        listing
    }
}

} // verus!
