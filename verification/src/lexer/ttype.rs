//! The kinds of token.

use vstd::prelude::*;
use vstd::std_specs::cmp::PartialEqSpecImpl;

verus! {

/// What a token is. Three kinds carry text: an identifier its name, a string
/// literal its contents, and a number the decimal numeral that was written.
#[allow(non_camel_case_types)]
#[derive(Debug)]
pub enum TType {
    Identifier(String),
    /// The numeral as written: digits, then optionally a point and more digits.
    Number(String),
    String(String),
    /// `=`
    EQ,
    /// `+`
    PLUS,
    /// `-`
    MINUS,
    /// `*`
    STAR,
    /// `/`
    SLASH,
    /// `!`
    BANG,
    /// `==`
    EQEQ,
    /// `!=`
    BANGEQ,
    /// `<`
    LT,
    /// `<=`
    LTEQ,
    /// `>`
    GT,
    /// `>=`
    GTEQ,
    /// `(`
    LPAREN,
    /// `)`
    RPAREN,
    /// `{`
    LBRACE,
    /// `}`
    RBRACE,
    /// `,`
    COMMA,
    /// `.`
    DOT,
    /// `;`
    SEMICOLON,
    /// `:`
    COLON,
    /// `->`
    ARROW,
    /// The end of the token stream.
    EOF,
    /// `true`
    TRUE,
    /// `false`
    FALSE,
    /// `if`
    IF,
    /// `else`
    ELSE,
    /// `while`
    WHILE,
    /// `for`
    FOR,
    /// `in`
    IN,
    /// `fn`
    FN,
    /// `let`
    LET,
    /// `return`
    RETURN,
    /// `import`
    IMPORT,
}

/// A [`TType`] as a mathematical value.
#[allow(non_camel_case_types)]
pub enum TTypeView {
    Identifier(Seq<char>),
    Number(Seq<char>),
    String(Seq<char>),
    EQ,
    PLUS,
    MINUS,
    STAR,
    SLASH,
    BANG,
    EQEQ,
    BANGEQ,
    LT,
    LTEQ,
    GT,
    GTEQ,
    LPAREN,
    RPAREN,
    LBRACE,
    RBRACE,
    COMMA,
    DOT,
    SEMICOLON,
    COLON,
    ARROW,
    EOF,
    TRUE,
    FALSE,
    IF,
    ELSE,
    WHILE,
    FOR,
    IN,
    FN,
    LET,
    RETURN,
    IMPORT,
}

impl View for TType {
    type V = TTypeView;

    open spec fn view(&self) -> TTypeView {
        match self {
            TType::Identifier(name) => TTypeView::Identifier(name@),
            TType::Number(numeral) => TTypeView::Number(numeral@),
            TType::String(contents) => TTypeView::String(contents@),
            TType::EQ => TTypeView::EQ,
            TType::PLUS => TTypeView::PLUS,
            TType::MINUS => TTypeView::MINUS,
            TType::STAR => TTypeView::STAR,
            TType::SLASH => TTypeView::SLASH,
            TType::BANG => TTypeView::BANG,
            TType::EQEQ => TTypeView::EQEQ,
            TType::BANGEQ => TTypeView::BANGEQ,
            TType::LT => TTypeView::LT,
            TType::LTEQ => TTypeView::LTEQ,
            TType::GT => TTypeView::GT,
            TType::GTEQ => TTypeView::GTEQ,
            TType::LPAREN => TTypeView::LPAREN,
            TType::RPAREN => TTypeView::RPAREN,
            TType::LBRACE => TTypeView::LBRACE,
            TType::RBRACE => TTypeView::RBRACE,
            TType::COMMA => TTypeView::COMMA,
            TType::DOT => TTypeView::DOT,
            TType::SEMICOLON => TTypeView::SEMICOLON,
            TType::COLON => TTypeView::COLON,
            TType::ARROW => TTypeView::ARROW,
            TType::EOF => TTypeView::EOF,
            TType::TRUE => TTypeView::TRUE,
            TType::FALSE => TTypeView::FALSE,
            TType::IF => TTypeView::IF,
            TType::ELSE => TTypeView::ELSE,
            TType::WHILE => TTypeView::WHILE,
            TType::FOR => TTypeView::FOR,
            TType::IN => TTypeView::IN,
            TType::FN => TTypeView::FN,
            TType::LET => TTypeView::LET,
            TType::RETURN => TTypeView::RETURN,
            TType::IMPORT => TTypeView::IMPORT,
        }
    }
}

impl DeepView for TType {
    type V = TTypeView;

    open spec fn deep_view(&self) -> TTypeView {
        self@
    }
}

impl Clone for TType {
    fn clone(&self) -> (copy: TType)
        ensures
            copy == *self,
    {
        match self {
            TType::Identifier(name) => TType::Identifier(name.clone()),
            TType::Number(numeral) => TType::Number(numeral.clone()),
            TType::String(contents) => TType::String(contents.clone()),
            TType::EQ => TType::EQ,
            TType::PLUS => TType::PLUS,
            TType::MINUS => TType::MINUS,
            TType::STAR => TType::STAR,
            TType::SLASH => TType::SLASH,
            TType::BANG => TType::BANG,
            TType::EQEQ => TType::EQEQ,
            TType::BANGEQ => TType::BANGEQ,
            TType::LT => TType::LT,
            TType::LTEQ => TType::LTEQ,
            TType::GT => TType::GT,
            TType::GTEQ => TType::GTEQ,
            TType::LPAREN => TType::LPAREN,
            TType::RPAREN => TType::RPAREN,
            TType::LBRACE => TType::LBRACE,
            TType::RBRACE => TType::RBRACE,
            TType::COMMA => TType::COMMA,
            TType::DOT => TType::DOT,
            TType::SEMICOLON => TType::SEMICOLON,
            TType::COLON => TType::COLON,
            TType::ARROW => TType::ARROW,
            TType::EOF => TType::EOF,
            TType::TRUE => TType::TRUE,
            TType::FALSE => TType::FALSE,
            TType::IF => TType::IF,
            TType::ELSE => TType::ELSE,
            TType::WHILE => TType::WHILE,
            TType::FOR => TType::FOR,
            TType::IN => TType::IN,
            TType::FN => TType::FN,
            TType::LET => TType::LET,
            TType::RETURN => TType::RETURN,
            TType::IMPORT => TType::IMPORT,
        }
    }
}

impl PartialEq for TType {
    fn eq(&self, other: &TType) -> (equal: bool) {
        match (self, other) {
            (TType::Identifier(a), TType::Identifier(b)) => *a == *b,
            (TType::Number(a), TType::Number(b)) => *a == *b,
            (TType::String(a), TType::String(b)) => *a == *b,
            (TType::EQ, TType::EQ) => true,
            (TType::PLUS, TType::PLUS) => true,
            (TType::MINUS, TType::MINUS) => true,
            (TType::STAR, TType::STAR) => true,
            (TType::SLASH, TType::SLASH) => true,
            (TType::BANG, TType::BANG) => true,
            (TType::EQEQ, TType::EQEQ) => true,
            (TType::BANGEQ, TType::BANGEQ) => true,
            (TType::LT, TType::LT) => true,
            (TType::LTEQ, TType::LTEQ) => true,
            (TType::GT, TType::GT) => true,
            (TType::GTEQ, TType::GTEQ) => true,
            (TType::LPAREN, TType::LPAREN) => true,
            (TType::RPAREN, TType::RPAREN) => true,
            (TType::LBRACE, TType::LBRACE) => true,
            (TType::RBRACE, TType::RBRACE) => true,
            (TType::COMMA, TType::COMMA) => true,
            (TType::DOT, TType::DOT) => true,
            (TType::SEMICOLON, TType::SEMICOLON) => true,
            (TType::COLON, TType::COLON) => true,
            (TType::ARROW, TType::ARROW) => true,
            (TType::EOF, TType::EOF) => true,
            (TType::TRUE, TType::TRUE) => true,
            (TType::FALSE, TType::FALSE) => true,
            (TType::IF, TType::IF) => true,
            (TType::ELSE, TType::ELSE) => true,
            (TType::WHILE, TType::WHILE) => true,
            (TType::FOR, TType::FOR) => true,
            (TType::IN, TType::IN) => true,
            (TType::FN, TType::FN) => true,
            (TType::LET, TType::LET) => true,
            (TType::RETURN, TType::RETURN) => true,
            (TType::IMPORT, TType::IMPORT) => true,
            _ => false,
        }
    }
}

impl PartialEqSpecImpl for TType {
    open spec fn obeys_eq_spec() -> bool {
        true
    }

    open spec fn eq_spec(&self, other: &TType) -> bool {
        self@ == other@
    }
}

impl TTypeView {
    /// The name of the kind, as it appears in a listing of tokens.
    pub open spec fn tag(self) -> Seq<char> {
        match self {
            TTypeView::Identifier(_) => "Identifier"@,
            TTypeView::Number(_) => "Number"@,
            TTypeView::String(_) => "String"@,
            TTypeView::EQ => "EQ"@,
            TTypeView::PLUS => "PLUS"@,
            TTypeView::MINUS => "MINUS"@,
            TTypeView::STAR => "STAR"@,
            TTypeView::SLASH => "SLASH"@,
            TTypeView::BANG => "BANG"@,
            TTypeView::EQEQ => "EQEQ"@,
            TTypeView::BANGEQ => "BANGEQ"@,
            TTypeView::LT => "LT"@,
            TTypeView::LTEQ => "LTEQ"@,
            TTypeView::GT => "GT"@,
            TTypeView::GTEQ => "GTEQ"@,
            TTypeView::LPAREN => "LPAREN"@,
            TTypeView::RPAREN => "RPAREN"@,
            TTypeView::LBRACE => "LBRACE"@,
            TTypeView::RBRACE => "RBRACE"@,
            TTypeView::COMMA => "COMMA"@,
            TTypeView::DOT => "DOT"@,
            TTypeView::SEMICOLON => "SEMICOLON"@,
            TTypeView::COLON => "COLON"@,
            TTypeView::ARROW => "ARROW"@,
            TTypeView::EOF => "EOF"@,
            TTypeView::TRUE => "TRUE"@,
            TTypeView::FALSE => "FALSE"@,
            TTypeView::IF => "IF"@,
            TTypeView::ELSE => "ELSE"@,
            TTypeView::WHILE => "WHILE"@,
            TTypeView::FOR => "FOR"@,
            TTypeView::IN => "IN"@,
            TTypeView::FN => "FN"@,
            TTypeView::LET => "LET"@,
            TTypeView::RETURN => "RETURN"@,
            TTypeView::IMPORT => "IMPORT"@,
        }
    }
}

impl TType {
    /// The name of the kind, as it appears in a listing of tokens.
    pub fn tag(&self) -> (name: String)
        ensures
            name@ == self@.tag(),
    {
        match self {
            TType::Identifier(_) => String::from_str("Identifier"),
            TType::Number(_) => String::from_str("Number"),
            TType::String(_) => String::from_str("String"),
            TType::EQ => String::from_str("EQ"),
            TType::PLUS => String::from_str("PLUS"),
            TType::MINUS => String::from_str("MINUS"),
            TType::STAR => String::from_str("STAR"),
            TType::SLASH => String::from_str("SLASH"),
            TType::BANG => String::from_str("BANG"),
            TType::EQEQ => String::from_str("EQEQ"),
            TType::BANGEQ => String::from_str("BANGEQ"),
            TType::LT => String::from_str("LT"),
            TType::LTEQ => String::from_str("LTEQ"),
            TType::GT => String::from_str("GT"),
            TType::GTEQ => String::from_str("GTEQ"),
            TType::LPAREN => String::from_str("LPAREN"),
            TType::RPAREN => String::from_str("RPAREN"),
            TType::LBRACE => String::from_str("LBRACE"),
            TType::RBRACE => String::from_str("RBRACE"),
            TType::COMMA => String::from_str("COMMA"),
            TType::DOT => String::from_str("DOT"),
            TType::SEMICOLON => String::from_str("SEMICOLON"),
            TType::COLON => String::from_str("COLON"),
            TType::ARROW => String::from_str("ARROW"),
            TType::EOF => String::from_str("EOF"),
            TType::TRUE => String::from_str("TRUE"),
            TType::FALSE => String::from_str("FALSE"),
            TType::IF => String::from_str("IF"),
            TType::ELSE => String::from_str("ELSE"),
            TType::WHILE => String::from_str("WHILE"),
            TType::FOR => String::from_str("FOR"),
            TType::IN => String::from_str("IN"),
            TType::FN => String::from_str("FN"),
            TType::LET => String::from_str("LET"),
            TType::RETURN => String::from_str("RETURN"),
            TType::IMPORT => String::from_str("IMPORT"),
        }
    }
}

/// The text that Rust's `Debug` writes for the string `text`: the string
/// between double quotes, with what `Debug` escapes written as an escape.
pub uninterp spec fn debug_form(text: Seq<char>) -> Seq<char>;

/// `<str as Debug>::fmt`, through `format!`: the text that `Debug` writes
/// for `text`. The text is a function of the string alone, and it is named,
/// not stated: which characters are escaped goes by the tables of Unicode.
#[verifier::external_body]
fn debug_string(text: &str) -> (form: String)
    ensures
        form@ == debug_form(text@),
{
    format!("{:?}", text)
}

impl TTypeView {
    /// The kind as it appears in a listing of tokens: its name, and behind
    /// the name of a kind that carries text that text in parentheses, a name
    /// or the contents of a string as `Debug` writes a string, a number as
    /// the numeral that was written.
    pub open spec fn shown(self) -> Seq<char> {
        match self {
            TTypeView::Identifier(name) => "Identifier("@ + debug_form(name) + ")"@,
            TTypeView::Number(numeral) => "Number("@ + numeral + ")"@,
            TTypeView::String(contents) => "String("@ + debug_form(contents) + ")"@,
            _ => self.tag(),
        }
    }
}

impl TType {
    /// The kind as it appears in a listing of tokens.
    pub fn shown(&self) -> (text: String)
        ensures
            text@ == self@.shown(),
    {
        match self {
            TType::Identifier(name) => {
                let mut text = String::from_str("Identifier(");
                text.append(debug_string(name.as_str()).as_str());
                text.append(")");
                text
            },
            TType::Number(numeral) => {
                let mut text = String::from_str("Number(");
                text.append(numeral.as_str());
                text.append(")");
                text
            },
            TType::String(contents) => {
                let mut text = String::from_str("String(");
                text.append(debug_string(contents.as_str()).as_str());
                text.append(")");
                text
            },
            _ => self.tag(),
        }
    }
}

} // verus!
