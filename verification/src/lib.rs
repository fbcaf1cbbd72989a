//! Front end of a small scripting language: source text is scanned into
//! tokens, and tokens are parsed into a syntax tree. Both stages report a
//! failure as one positioned [`error::Error`].
//!
//! Every stage is specified by a pure function over mathematical values
//! ([`lexer::rules::scan`], [`parser::grammar::program`]), and the
//! executable code is proved to compute exactly that function.

pub mod error;
pub mod inspector;
pub mod lexer;
pub mod parser;
pub mod text;

use vstd::prelude::*;
use crate::error::{Error, ErrorView};
use crate::lexer::rules::scan;
use crate::lexer::Lexer;
use crate::parser::grammar::program;
use crate::parser::nodes::stmt::{Stmt, StmtView};
use crate::parser::Parser;

verus! {

/// That two values are the same one. In a loop invariant a bare `==` is
/// read as equality by contents, which costs the prover far more than this.
pub open spec fn same<T>(a: T, b: T) -> bool {
    a == b
}

/// The statements of the source text `src`: those of its tokens, or the
/// first diagnostic of the scanner or of the parser.
pub open spec fn syntax(src: Seq<char>) -> Result<Seq<StmtView>, ErrorView> {
    match scan(src) {
        Ok(tokens) => program(tokens),
        Err(error) => Err(error),
    }
}

/// Scans and parses `input`.
pub fn syntax_tree(input: String) -> (result: Result<Vec<Stmt>, Error>)
    requires
        input@.len() < usize::MAX,
    ensures
        match syntax(input@) {
            Ok(statements) => result is Ok && result->Ok_0.deep_view() == statements,
            Err(error) => result is Err && result->Err_0@ == error,
        },
{
    let mut lexer = Lexer::new(input);
    match lexer.scan_tokens() {
        Err(error) => Err(error),
        Ok(tokens) => {
            let mut parser = Parser::new(tokens);
            parser.parse()
        },
    }
}

} // verus!
