//! The parser: tokens to a syntax tree.
//!
//! [`Parser::parse`] reads the tokens by recursive descent, one method for
//! each production of the grammar, and is proved to return exactly what
//! [`grammar::program`] describes. It stops at the first diagnostic.

pub mod grammar;
pub mod nodes;
pub mod spelling;

use vstd::prelude::*;
use crate::same;
use crate::error::{Error, ErrorView, LineInfo};
use crate::lexer::token::{Token, TokenView};
use crate::lexer::ttype::{TType, TTypeView};
use crate::parser::grammar::{
    at_end, check, done, kind_at, left, shift, terminated, Failure, Outcome, Parsed, MAX_ARITY,
};
use crate::parser::nodes::expr::{
    BinaryExpr, CallExpr, Expr, ExprView, GetExpr, GroupingExpr, LiteralExpr, Type, UnaryExpr,
};
use crate::parser::nodes::stmt::{Fn, Stmt, Var};
use crate::parser::nodes::Param;
use crate::parser::spelling::{lemma_program_spells_tokens, written_with};

verus! {

/// A parser over one token sequence.
pub struct Parser {
    tokens: Vec<Token>,
    /// Index of the token under the cursor.
    current: usize,
}

/// That `result` is what parsing `ts` gives: the statements that
/// [`grammar::program`] describes, or its diagnostic.
pub open spec fn parsed(ts: Seq<TokenView>, result: Result<Vec<Stmt>, Error>) -> bool {
    match grammar::program(ts) {
        Ok(statements) => result is Ok && result->Ok_0.deep_view() == statements,
        Err(error) => result is Err && result->Err_0@ == error,
    }
}

/// The diagnostic `message` at `token`.
fn error_at(token: &Token, message: &str) -> (error: Error)
    ensures
        error@ == ErrorView::plain(token.lineinfo, message@),
{
    let notes = Vec::new();
    assert(notes.deep_view() =~= Seq::empty());
    Error::new_with_notes(
        LineInfo::new(token.lineinfo.line, token.lineinfo.start, token.lineinfo.end),
        String::from_str(message),
        notes,
    )
}

impl Parser {
    /// The tokens that the parser reads.
    pub closed spec fn tokens(&self) -> Seq<TokenView> {
        self.tokens.deep_view()
    }

    pub fn new(tokens: Vec<Token>) -> (parser: Parser)
        ensures
            parser.tokens() == tokens.deep_view(),
    {
        Parser { tokens, current: 0 }
    }

    /// The cursor stands on a token, and the tokens end with the end marker.
    spec fn wf(&self) -> bool {
        terminated(self.tokens.deep_view()) && self.current < self.tokens.len()
    }

    /// The index of the token under the cursor.
    spec fn at(&self) -> int {
        self.current as int
    }

    /// `self` is `before` with the cursor `by` tokens further on.
    spec fn moved(&self, before: &Parser, by: nat) -> bool {
        &&& self.wf()
        &&& self.tokens == before.tokens
        &&& self.current == before.current + by
    }

    /// `self` is `before` after a production was read from its cursor on
    /// with `outcome`, and `result` is what reading it returns. Behind what
    /// was read the cursor stands on the next token, and after a failure on
    /// the token at which the production stopped.
    spec fn gave<T: DeepView>(
        &self,
        before: &Parser,
        outcome: Outcome<T::V>,
        result: Result<T, Error>,
    ) -> bool {
        &&& self.wf()
        &&& self.tokens == before.tokens
        &&& self.current >= before.current
        &&& match outcome {
            Ok(read) => {
                &&& result is Ok
                &&& result->Ok_0.deep_view() == read.value
                &&& self.current == before.current + read.len
            },
            Err(failed) => {
                &&& result is Err
                &&& result->Err_0@ == failed.error
                &&& self.current == failed.at
            },
        }
    }

    /// Parses the tokens from the first one on and returns their statements
    /// in order, or the first diagnostic. Each call parses all the tokens
    /// anew.
    #[verifier::rlimit(100)]
    pub fn parse(&mut self) -> (result: Result<Vec<Stmt>, Error>)
        requires
            terminated(old(self).tokens()),
        ensures
            final(self).tokens() == old(self).tokens(),
            parsed(old(self).tokens(), result),
            result matches Ok(statements) ==> written_with(
                old(self).tokens(),
                statements.deep_view(),
            ),
    {
        reveal(grammar::stmt);
        proof {
            if grammar::program(self.tokens()) is Ok {
                lemma_program_spells_tokens(self.tokens());
            }
        }
        self.current = 0;
        let mut stmts: Vec<Stmt> = Vec::new();
        assert(stmts.deep_view() =~= Seq::empty());
        while !self.is_at_end()
            invariant
                self.wf(),
                self.tokens == old(self).tokens,
                same(
                    grammar::program(self.tokens.deep_view()),
                    grammar::statements(
                        self.tokens.deep_view(),
                        self.at(),
                        stmts.deep_view(),
                    ),
                ),
            decreases self.tokens.len() - self.current,
        {
            reveal(grammar::stmt);
            let ghost before = stmts.deep_view();
            match self.stmt() {
                Err(error) => {
                    return Err(error);
                },
                Ok(stmt) => {
                    stmts.push(stmt);
                    assert(stmts.deep_view() =~= before.push(stmt@));
                },
            }
        }
        Ok(stmts)
    }

    fn stmt(&mut self) -> (result: Result<Stmt, Error>)
        requires
            old(self).wf(),
        ensures
            final(self).gave(old(self), grammar::stmt(old(self).tokens(), old(self).at()), result),
            result is Ok ==> old(self).current < final(self).current,
        decreases left(old(self).tokens(), old(self).at()), 0nat,
    {
        reveal(grammar::stmt);
        reveal(grammar::fn_decl);
        if self.match_token(TType::LET) {
            return self.var_decl();
        } else if self.match_token(TType::FN) {
            return self.fn_decl();
        } else if self.match_token(TType::RETURN) {
            return self.return_stmt();
        } else if self.match_token(TType::IMPORT) {
            return self.import_stmt();
        }
        self.expr_stmt()
    }

    #[verifier::rlimit(100)]
    fn import_stmt(&mut self) -> (result: Result<Stmt, Error>)
        requires
            old(self).wf(),
            old(self).current >= 1,
        ensures
            final(self).gave(
                old(self),
                grammar::import_stmt(old(self).tokens(), old(self).at()),
                result,
            ),
    {
        reveal(grammar::import_stmt);
        let ghost ts = self.tokens();
        let ghost start = self.at();
        let token = self.peek();
        match token.ttype {
            TType::String(path) => {
                self.advance();
                match self.consume(TType::SEMICOLON, "Expect ';' after import path.") {
                    Err(error) => Err(error),
                    Ok(_) => Ok(Stmt::FileImport(path)),
                }
            },
            TType::Identifier(name) => {
                let ghost first = name@;
                let mut paths: Vec<String> = Vec::new();
                paths.push(name);
                self.advance();
                assert(paths.deep_view() =~= seq![first]);
                while self.check(TType::DOT)
                    invariant
                        kind_at(ts, start) == TTypeView::Identifier(first),
                        self.wf(),
                        self.tokens == old(self).tokens,
                        ts == self.tokens(),
                        start < self.current,
                        start == old(self).current,
                        same(
                            grammar::import_path(ts, start + 1, seq![first]),
                            shift(
                                (self.current - start - 1) as nat,
                                grammar::import_path(ts, self.at(), paths.deep_view()),
                            ),
                        ),
                    decreases self.tokens.len() - self.current,
                {
                    reveal(grammar::import_stmt);
                    self.advance();
                    let segment = self.peek();
                    match segment.ttype {
                        TType::Identifier(next) => {
                            let ghost before = paths.deep_view();
                            paths.push(next);
                            assert(paths.deep_view() =~= before.push(next@));
                            self.advance();
                        },
                        _ => {
                            return self.fail("Expect import path.");
                        },
                    }
                }
                match self.consume(TType::SEMICOLON, "Expect ';' after import path.") {
                    Err(error) => Err(error),
                    Ok(_) => Ok(Stmt::LangImport(paths)),
                }
            },
            _ => self.fail("Expect import path."),
        }
    }

    /// Reads one parameter, `IDENT ':' TYPE`.
    fn parameter(&mut self) -> (result: Result<Param, Error>)
        requires
            old(self).wf(),
            old(self).current >= 1,
        ensures
            final(self).gave(old(self), grammar::parameter(old(self).tokens(), old(self).at()), result),
    {
        reveal(grammar::parameter);
        let token = self.peek();
        match token.ttype {
            TType::Identifier(name) => {
                self.advance();
                match self.consume(TType::COLON, "Expect type after param") {
                    Err(error) => Err(error),
                    Ok(_) => {
                        let type_ = self.advance();
                        Ok(Param::new(name, type_))
                    },
                }
            },
            _ => self.fail("Expect parameter name."),
        }
    }

    /// Reads the parameters of a function, separated by commas, up to the
    /// closing parenthesis.
    #[verifier::rlimit(100)]
    fn parameters(&mut self) -> (result: Result<Vec<Param>, Error>)
        requires
            old(self).wf(),
            old(self).current >= 1,
        ensures
            final(self).gave(
                old(self),
                grammar::parameters(old(self).tokens(), old(self).at(), Seq::empty()),
                result,
            ),
    {
        let ghost ts = self.tokens();
        let ghost start = self.at();
        let mut params: Vec<Param> = Vec::new();
        assert(params.deep_view() =~= Seq::empty());
        loop
            invariant_except_break
                same(
                    grammar::parameters(ts, start, Seq::empty()),
                    shift(
                        (self.current - start) as nat,
                        grammar::parameters(ts, self.at(), params.deep_view()),
                    ),
                ),
            invariant
                self.wf(),
                self.tokens == old(self).tokens,
                ts == self.tokens(),
                start <= self.current,
                start == old(self).current,
                self.current >= 1,
            ensures
                self.wf(),
                self.tokens == old(self).tokens,
                start <= self.current,
                same(
                    grammar::parameters(ts, start, Seq::empty()),
                    done(
                        params.deep_view(),
                        (self.current - start) as nat,
                    ),
                ),
            decreases self.tokens.len() - self.current,
        {
            if params.len() >= MAX_ARITY {
                return self.fail("Cannot have more than 255 parameters");
            }
            let ghost before = params.deep_view();
            match self.parameter() {
                Err(error) => {
                    return Err(error);
                },
                Ok(param) => {
                    params.push(param);
                    assert(params.deep_view() =~= before.push(param@));
                },
            }
            if !self.match_token(TType::COMMA) {
                break;
            }
        }
        Ok(params)
    }

    /// Reads what stands between the name of a function and its body: the
    /// parameters in parentheses and, behind an arrow, the type returned.
    #[verifier::rlimit(100)]
    fn signature(&mut self) -> (result: Result<(Vec<Param>, Option<Token>), Error>)
        requires
            old(self).wf(),
            old(self).current >= 1,
        ensures
            final(self).gave(old(self), grammar::signature(old(self).tokens(), old(self).at()), result),
    {
        reveal(grammar::signature);
        match self.consume(TType::LPAREN, "Expect '(' after function name.") {
            Err(error) => {
                return Err(error);
            },
            Ok(_) => {},
        }
        let params = if !self.check(TType::RPAREN) {
            match self.parameters() {
                Err(error) => {
                    return Err(error);
                },
                Ok(params) => params,
            }
        } else {
            let none: Vec<Param> = Vec::new();
            assert(none.deep_view() =~= Seq::empty());
            none
        };
        match self.consume(TType::RPAREN, "Expect ')' after parameters.") {
            Err(error) => {
                return Err(error);
            },
            Ok(_) => {},
        }
        let return_value = if self.match_token(TType::ARROW) {
            Some(self.advance())
        } else {
            None
        };
        Ok((params, return_value))
    }

    #[verifier::rlimit(100)]
    fn fn_decl(&mut self) -> (result: Result<Stmt, Error>)
        requires
            old(self).wf(),
            old(self).current >= 1,
        ensures
            final(self).gave(old(self), grammar::fn_decl(old(self).tokens(), old(self).at()), result),
        decreases left(old(self).tokens(), old(self).at()), 3nat,
    {
        reveal(grammar::fn_decl);
        reveal(grammar::block);
        let token = self.peek();
        match token.ttype {
            TType::Identifier(name) => {
                self.advance();
                let (params, return_value) = match self.signature() {
                    Err(error) => {
                        return Err(error);
                    },
                    Ok(head) => head,
                };
                match self.consume(TType::LBRACE, "Expect '{' before function body.") {
                    Err(error) => {
                        return Err(error);
                    },
                    Ok(_) => {},
                }
                match self.block() {
                    Err(error) => Err(error),
                    Ok(body) => {
                        let node = Fn::new(name, params, body, return_value);
                        proof {
                            Stmt::lemma_fn_decl(node);
                        }
                        Ok(Stmt::FnDecl(node))
                    },
                }
            },
            _ => self.fail("Expect function name."),
        }
    }

    fn return_stmt(&mut self) -> (result: Result<Stmt, Error>)
        requires
            old(self).wf(),
            old(self).current >= 1,
        ensures
            final(self).gave(
                old(self),
                grammar::return_stmt(old(self).tokens(), old(self).at()),
                result,
            ),
    {
        reveal(grammar::expression);
        reveal(grammar::return_stmt);
        let value = if !self.check(TType::SEMICOLON) {
            match self.expression() {
                Err(error) => {
                    return Err(error);
                },
                Ok(value) => Some(value),
            }
        } else {
            None
        };
        match self.consume(TType::SEMICOLON, "Expect ';' after return value.") {
            Err(error) => Err(error),
            Ok(_) => Ok(Stmt::Return(value)),
        }
    }

    #[verifier::rlimit(100)]
    fn block(&mut self) -> (result: Result<Vec<Stmt>, Error>)
        requires
            old(self).wf(),
            old(self).current >= 1,
        ensures
            final(self).gave(old(self), grammar::block(old(self).tokens(), old(self).at()), result),
        decreases left(old(self).tokens(), old(self).at()), 2nat,
    {
        reveal(grammar::block);
        reveal(grammar::block_rest);
        reveal(grammar::stmt);
        let ghost ts = self.tokens();
        let ghost start = self.at();
        let mut stmts: Vec<Stmt> = Vec::new();
        assert(stmts.deep_view() =~= Seq::empty());
        while !self.check(TType::RBRACE) && !self.is_at_end()
            invariant
                self.wf(),
                self.tokens == old(self).tokens,
                ts == self.tokens(),
                start == old(self).current,
                start <= self.current,
                same(
                    grammar::block(ts, start),
                    shift(
                        (self.current - start) as nat,
                        grammar::block_rest(ts, self.at(), stmts.deep_view()),
                    ),
                ),
            decreases self.tokens.len() - self.current,
        {
            reveal(grammar::block);
            reveal(grammar::block_rest);
            reveal(grammar::stmt);
            let ghost before = stmts.deep_view();
            match self.stmt() {
                Err(error) => {
                    return Err(error);
                },
                Ok(stmt) => {
                    stmts.push(stmt);
                    assert(stmts.deep_view() =~= before.push(stmt@));
                },
            }
        }
        match self.consume(TType::RBRACE, "Expect '}' after block.") {
            Err(error) => Err(error),
            Ok(_) => Ok(stmts),
        }
    }

    fn var_decl(&mut self) -> (result: Result<Stmt, Error>)
        requires
            old(self).wf(),
            old(self).current >= 1,
        ensures
            final(self).gave(old(self), grammar::var_decl(old(self).tokens(), old(self).at()), result),
    {
        reveal(grammar::expression);
        reveal(grammar::var_decl);
        let token = self.peek();
        match token.ttype {
            TType::Identifier(name) => {
                self.advance();
                let value = if self.match_token(TType::EQ) {
                    match self.expression() {
                        Err(error) => {
                            return Err(error);
                        },
                        Ok(value) => Some(value),
                    }
                } else {
                    None
                };
                match self.consume(TType::SEMICOLON, "Expect ';' after variable declaration.") {
                    Err(error) => Err(error),
                    Ok(_) => Ok(Stmt::VarDecl(Var::new(name, value))),
                }
            },
            _ => self.fail("Expect variable name."),
        }
    }

    fn expr_stmt(&mut self) -> (result: Result<Stmt, Error>)
        requires
            old(self).wf(),
        ensures
            final(self).gave(old(self), grammar::expr_stmt(old(self).tokens(), old(self).at()), result),
            result is Ok ==> old(self).current < final(self).current,
    {
        reveal(grammar::expression);
        reveal(grammar::expr_stmt);
        let expr = match self.expression() {
            Err(error) => {
                return Err(error);
            },
            Ok(expr) => expr,
        };
        if !self.match_token(TType::SEMICOLON) {
            let token = self.previous();
            return Err(error_at(&token, "Expect ';' after expression."));
        }
        Ok(Stmt::ExprStmt(expr))
    }

    fn expression(&mut self) -> (result: Result<Expr, Error>)
        requires
            old(self).wf(),
        ensures
            final(self).gave(
                old(self),
                grammar::expression(old(self).tokens(), old(self).at()),
                result,
            ),
            result is Ok ==> old(self).current < final(self).current,
        decreases left(old(self).tokens(), old(self).at()), 12nat,
    {
        reveal(grammar::expression);
        reveal(grammar::equality);
        self.equality()
    }

    fn equality(&mut self) -> (result: Result<Expr, Error>)
        requires
            old(self).wf(),
        ensures
            final(self).gave(old(self), grammar::equality(old(self).tokens(), old(self).at()), result),
            result is Ok ==> old(self).current < final(self).current,
        decreases left(old(self).tokens(), old(self).at()), 11nat,
    {
        let ghost ts = self.tokens();
        let ghost start = self.at();
        assert(grammar::equality(ts, start) == match grammar::comparison(ts, start) {
            Ok(first) => shift(
                first.len,
                grammar::equality_rest(ts, first.value, start + first.len),
            ),
            Err(failed) => Err(failed),
        }) by {
            reveal(grammar::equality);
            reveal(grammar::comparison);
            reveal(grammar::equality_rest);
        }
        let mut expr = match self.comparison() {
            Err(error) => {
                return Err(error);
            },
            Ok(expr) => expr,
        };
        while self.check(TType::EQEQ) || self.check(TType::BANGEQ)
            invariant
                self.wf(),
                self.tokens == old(self).tokens,
                ts == self.tokens(),
                start == old(self).current,
                start < self.current,
                same(
                    grammar::equality(ts, start),
                    shift(
                        (self.current - start) as nat,
                        grammar::equality_rest(ts, expr@, self.at()),
                    ),
                ),
            decreases self.tokens.len() - self.current,
        {
            expr = match self.equality_link(expr) {
                Err(error) => {
                    return Err(error);
                },
                Ok(link) => link,
            };
        }
        assert(grammar::equality_rest(ts, expr@, self.at()) == done(expr@, 0)) by {
            reveal(grammar::equality_rest);
        }
        Ok(expr)
    }

    /// `self` is `before` after one link of the chain of equalities behind
    /// `operand` was read, with `result`: what follows `operand` is that
    /// link and what follows the link, or the failure of the link.
    spec fn chained(&self, before: &Parser, operand: ExprView, result: Result<Expr, Error>) -> bool {
        let rest = grammar::equality_rest(before.tokens(), operand, before.at());
        &&& self.wf()
        &&& self.tokens == before.tokens
        &&& self.current >= before.current
        &&& match result {
            Ok(link) => {
                &&& before.current < self.current
                &&& rest == shift(
                    (self.current - before.current) as nat,
                    grammar::equality_rest(before.tokens(), link@, self.at()),
                )
            },
            Err(error) => rest == Err::<Parsed<ExprView>, Failure>(
                Failure { error: error@, at: self.at() },
            ),
        }
    }

    /// Reads one link of a chain of equalities behind `expr`: the operator
    /// under the cursor and the operand behind it.
    #[verifier::rlimit(100)]
    fn equality_link(&mut self, expr: Expr) -> (result: Result<Expr, Error>)
        requires
            old(self).wf(),
            check(old(self).tokens(), old(self).at(), TType::EQEQ@) || check(
                old(self).tokens(),
                old(self).at(),
                TType::BANGEQ@,
            ),
        ensures
            final(self).chained(old(self), expr@, result),
        decreases left(old(self).tokens(), old(self).at()), 10nat,
    {
        reveal(grammar::equality_rest);
        reveal(grammar::comparison);
        let operator = self.advance();
        let right = match self.comparison() {
            Err(error) => {
                return Err(error);
            },
            Ok(right) => right,
        };
        Ok(Expr::Binary(BinaryExpr::new(Box::new(expr), operator, Box::new(right))))
    }

    fn comparison(&mut self) -> (result: Result<Expr, Error>)
        requires
            old(self).wf(),
        ensures
            final(self).gave(
                old(self),
                grammar::comparison(old(self).tokens(), old(self).at()),
                result,
            ),
            result is Ok ==> old(self).current < final(self).current,
        decreases left(old(self).tokens(), old(self).at()), 9nat,
    {
        reveal(grammar::comparison);
        reveal(grammar::term);
        self.term()
    }

    fn term(&mut self) -> (result: Result<Expr, Error>)
        requires
            old(self).wf(),
        ensures
            final(self).gave(old(self), grammar::term(old(self).tokens(), old(self).at()), result),
            result is Ok ==> old(self).current < final(self).current,
        decreases left(old(self).tokens(), old(self).at()), 8nat,
    {
        reveal(grammar::term);
        reveal(grammar::factor);
        let expr = match self.factor() {
            Err(error) => {
                return Err(error);
            },
            Ok(expr) => expr,
        };
        if self.match_either(TType::MINUS, TType::PLUS) {
            let operator = self.previous();
            let right = match self.term() {
                Err(error) => {
                    return Err(error);
                },
                Ok(right) => right,
            };
            return Ok(Expr::Binary(BinaryExpr::new(Box::new(expr), operator, Box::new(right))));
        }
        Ok(expr)
    }

    fn factor(&mut self) -> (result: Result<Expr, Error>)
        requires
            old(self).wf(),
        ensures
            final(self).gave(old(self), grammar::factor(old(self).tokens(), old(self).at()), result),
            result is Ok ==> old(self).current < final(self).current,
        decreases left(old(self).tokens(), old(self).at()), 7nat,
    {
        reveal(grammar::factor);
        reveal(grammar::unary);
        let expr = match self.unary() {
            Err(error) => {
                return Err(error);
            },
            Ok(expr) => expr,
        };
        if self.match_either(TType::SLASH, TType::STAR) {
            let operator = self.previous();
            let right = match self.factor() {
                Err(error) => {
                    return Err(error);
                },
                Ok(right) => right,
            };
            return Ok(Expr::Binary(BinaryExpr::new(Box::new(expr), operator, Box::new(right))));
        }
        Ok(expr)
    }

    fn unary(&mut self) -> (result: Result<Expr, Error>)
        requires
            old(self).wf(),
        ensures
            final(self).gave(old(self), grammar::unary(old(self).tokens(), old(self).at()), result),
            result is Ok ==> old(self).current < final(self).current,
        decreases left(old(self).tokens(), old(self).at()), 6nat,
    {
        reveal(grammar::unary);
        reveal(grammar::call);
        if self.match_either(TType::BANG, TType::MINUS) {
            let operator = self.previous();
            let right = match self.unary() {
                Err(error) => {
                    return Err(error);
                },
                Ok(right) => right,
            };
            return Ok(Expr::Unary(UnaryExpr::new(operator, Box::new(right))));
        }
        self.call()
    }

    fn call(&mut self) -> (result: Result<Expr, Error>)
        requires
            old(self).wf(),
        ensures
            final(self).gave(old(self), grammar::call(old(self).tokens(), old(self).at()), result),
            result is Ok ==> old(self).current < final(self).current,
        decreases left(old(self).tokens(), old(self).at()), 5nat,
    {
        let ghost ts = self.tokens();
        let ghost start = self.at();
        assert(grammar::call(ts, start) == match grammar::primary(ts, start) {
            Ok(first) => shift(first.len, grammar::call_rest(ts, first.value, start + first.len)),
            Err(failed) => Err(failed),
        }) by {
            reveal(grammar::call);
            reveal(grammar::primary);
            reveal(grammar::call_rest);
        }
        let mut expr = match self.primary() {
            Err(error) => {
                return Err(error);
            },
            Ok(expr) => expr,
        };
        while self.check(TType::LPAREN) || self.check(TType::DOT)
            invariant
                self.wf(),
                self.tokens == old(self).tokens,
                ts == self.tokens(),
                start == old(self).current,
                start < self.current,
                same(
                    grammar::call(ts, start),
                    shift((self.current - start) as nat, grammar::call_rest(ts, expr@, self.at())),
                ),
            decreases self.tokens.len() - self.current,
        {
            expr = match self.call_link(expr) {
                Err(error) => {
                    return Err(error);
                },
                Ok(link) => link,
            };
        }
        assert(grammar::call_rest(ts, expr@, self.at()) == done(expr@, 0)) by {
            reveal(grammar::call_rest);
        }
        Ok(expr)
    }

    /// `self` is `before` after one link of the chain behind `callee` was
    /// read, with `result`: what follows `callee` is that link and what
    /// follows the link, or the failure of the link.
    spec fn linked(&self, before: &Parser, callee: ExprView, result: Result<Expr, Error>) -> bool {
        let rest = grammar::call_rest(before.tokens(), callee, before.at());
        &&& self.wf()
        &&& self.tokens == before.tokens
        &&& self.current >= before.current
        &&& match result {
            Ok(link) => {
                &&& before.current < self.current
                &&& rest == shift(
                    (self.current - before.current) as nat,
                    grammar::call_rest(before.tokens(), link@, self.at()),
                )
            },
            Err(error) => rest == Err::<Parsed<ExprView>, Failure>(
                Failure { error: error@, at: self.at() },
            ),
        }
    }

    /// Reads one link of a chain behind `expr`: a call of it, or an access
    /// to a member of it.
    #[verifier::rlimit(100)]
    fn call_link(&mut self, expr: Expr) -> (result: Result<Expr, Error>)
        requires
            old(self).wf(),
            check(old(self).tokens(), old(self).at(), TType::LPAREN@) || check(
                old(self).tokens(),
                old(self).at(),
                TType::DOT@,
            ),
        ensures
            final(self).linked(old(self), expr@, result),
        decreases left(old(self).tokens(), old(self).at()), 4nat,
    {
        reveal(grammar::call_rest);
        reveal(grammar::finish_call);
        if self.match_token(TType::LPAREN) {
            self.finish_call(expr)
        } else {
            self.advance();
            let name = match self.consume_any_identifier("Expect property name after '.'.") {
                Err(error) => {
                    return Err(error);
                },
                Ok(name) => name,
            };
            Ok(Expr::Get(GetExpr::new(Box::new(expr), name)))
        }
    }

    fn finish_call(&mut self, expr: Expr) -> (result: Result<Expr, Error>)
        requires
            old(self).wf(),
            old(self).current >= 1,
        ensures
            final(self).gave(
                old(self),
                grammar::finish_call(old(self).tokens(), expr@, old(self).at()),
                result,
            ),
            result is Ok ==> old(self).current < final(self).current,
        decreases left(old(self).tokens(), old(self).at()), 14nat,
    {
        reveal(grammar::finish_call);
        reveal(grammar::arguments);
        let args = if !self.check(TType::RPAREN) {
            match self.arguments() {
                Err(error) => {
                    return Err(error);
                },
                Ok(args) => args,
            }
        } else {
            let none: Vec<Expr> = Vec::new();
            assert(none.deep_view() =~= Seq::empty());
            none
        };
        let paren = match self.consume(TType::RPAREN, "Expect ')' after arguments.") {
            Err(error) => {
                return Err(error);
            },
            Ok(paren) => paren,
        };
        let node = CallExpr::new(Box::new(expr), paren, args);
        proof {
            Expr::lemma_call(node);
        }
        Ok(Expr::Call(node))
    }

    /// Reads the arguments of a call, separated by commas, up to the closing
    /// parenthesis.
    #[verifier::rlimit(100)]
    fn arguments(&mut self) -> (result: Result<Vec<Expr>, Error>)
        requires
            old(self).wf(),
            old(self).current >= 1,
        ensures
            final(self).gave(
                old(self),
                grammar::arguments(old(self).tokens(), old(self).at(), Seq::empty()),
                result,
            ),
        decreases left(old(self).tokens(), old(self).at()), 13nat,
    {
        reveal(grammar::arguments);
        reveal(grammar::expression);
        let ghost ts = self.tokens();
        let ghost start = self.at();
        let mut args: Vec<Expr> = Vec::new();
        assert(args.deep_view() =~= Seq::empty());
        loop
            invariant_except_break
                same(
                    grammar::arguments(ts, start, Seq::empty()),
                    shift(
                        (self.current - start) as nat,
                        grammar::arguments(ts, self.at(), args.deep_view()),
                    ),
                ),
            invariant
                self.wf(),
                self.tokens == old(self).tokens,
                ts == self.tokens(),
                start == old(self).current,
                start <= self.current,
            ensures
                self.wf(),
                self.tokens == old(self).tokens,
                start <= self.current,
                same(
                    grammar::arguments(ts, start, Seq::empty()),
                    done(
                        args.deep_view(),
                        (self.current - start) as nat,
                    ),
                ),
            decreases self.tokens.len() - self.current,
        {
            reveal(grammar::arguments);
            reveal(grammar::expression);
            if args.len() >= MAX_ARITY {
                return self.fail("Cannot have more than 255 arguments");
            }
            let ghost before = args.deep_view();
            match self.expression() {
                Err(error) => {
                    return Err(error);
                },
                Ok(arg) => {
                    args.push(arg);
                    assert(args.deep_view() =~= before.push(arg@));
                },
            }
            if !self.match_token(TType::COMMA) {
                break;
            }
        }
        Ok(args)
    }

    #[verifier::rlimit(100)]
    fn primary(&mut self) -> (result: Result<Expr, Error>)
        requires
            old(self).wf(),
        ensures
            final(self).gave(old(self), grammar::primary(old(self).tokens(), old(self).at()), result),
            result is Ok ==> old(self).current < final(self).current,
        decreases left(old(self).tokens(), old(self).at()), 3nat,
    {
        reveal(grammar::primary);
        reveal(grammar::expression);
        if self.match_token(TType::FALSE) {
            return Ok(Expr::Literal(LiteralExpr::new(Type::Bool(false))));
        } else if self.match_token(TType::TRUE) {
            return Ok(Expr::Literal(LiteralExpr::new(Type::Bool(true))));
        } else if self.match_token(TType::LPAREN) {
            let expr = match self.expression() {
                Err(error) => {
                    return Err(error);
                },
                Ok(expr) => expr,
            };
            if !self.match_token(TType::RPAREN) {
                let token = self.previous();
                return Err(error_at(&token, "Expect ')' after expression"));
            } else {
                return Ok(Expr::Grouping(GroupingExpr::new(Box::new(expr))));
            }
        }
        let token = self.peek();
        match token.ttype {
            TType::Number(numeral) => {
                self.advance();
                Ok(Expr::Literal(LiteralExpr::new(Type::Float(numeral))))
            },
            TType::String(contents) => {
                self.advance();
                Ok(Expr::Literal(LiteralExpr::new(Type::String(contents))))
            },
            TType::Identifier(name) => {
                self.advance();
                Ok(Expr::Literal(LiteralExpr::new(Type::Iden(name))))
            },
            _ => self.fail("Expect expression"),
        }
    }

    /// The diagnostic `message` at the token under the cursor.
    fn fail<T: DeepView>(&self, message: &str) -> (result: Result<T, Error>)
        requires
            self.wf(),
        ensures
            self.gave(self, grammar::failure::<T::V>(self.tokens(), self.at(), message@), result),
    {
        Err(error_at(&self.tokens[self.current], message))
    }

    /// Steps over the token under the cursor if it is of kind `ttype`, and
    /// fails with `message` if it is not.
    fn consume(&mut self, ttype: TType, message: &str) -> (result: Result<Token, Error>)
        requires
            old(self).wf(),
        ensures
            final(self).gave(
                old(self),
                grammar::consume(old(self).tokens(), old(self).at(), ttype@, message@),
                result,
            ),
    {
        if self.check(ttype) {
            Ok(self.advance())
        } else {
            self.fail(message)
        }
    }

    /// Steps over the token under the cursor if it is an identifier, and
    /// fails with `message` if it is not.
    fn consume_any_identifier(&mut self, message: &str) -> (result: Result<Token, Error>)
        requires
            old(self).wf(),
        ensures
            final(self).gave(
                old(self),
                grammar::consume_any_identifier(old(self).tokens(), old(self).at(), message@),
                result,
            ),
    {
        let token = self.peek();
        match token.ttype {
            TType::Identifier(_) => Ok(self.advance()),
            _ => self.fail(message),
        }
    }

    /// Steps over the token under the cursor if it is of kind `ttype`.
    fn match_token(&mut self, ttype: TType) -> (matched: bool)
        requires
            old(self).wf(),
        ensures
            matched == check(old(self).tokens(), old(self).at(), ttype@),
            final(self).moved(
                old(self),
                if matched {
                    1nat
                } else {
                    0nat
                },
            ),
    {
        if self.check(ttype) {
            self.advance();
            return true;
        }
        false
    }

    /// Steps over the token under the cursor if it is of one of two kinds.
    fn match_either(&mut self, first: TType, second: TType) -> (matched: bool)
        requires
            old(self).wf(),
        ensures
            matched == (check(old(self).tokens(), old(self).at(), first@) || check(
                old(self).tokens(),
                old(self).at(),
                second@,
            )),
            final(self).moved(
                old(self),
                if matched {
                    1nat
                } else {
                    0nat
                },
            ),
    {
        self.match_token(first) || self.match_token(second)
    }

    fn check(&self, ttype: TType) -> (found: bool)
        requires
            self.wf(),
        ensures
            found == check(self.tokens(), self.at(), ttype@),
    {
        if self.is_at_end() {
            return false;
        }
        self.peek().ttype == ttype
    }

    /// Moves the cursor to the next token unless it stands on the end
    /// marker, and returns the token behind the cursor.
    fn advance(&mut self) -> (token: Token)
        requires
            old(self).wf(),
            old(self).current >= 1 || !at_end(old(self).tokens(), old(self).at()),
        ensures
            token@ == grammar::advance(old(self).tokens(), old(self).at()).value,
            final(self).moved(old(self), grammar::advance(old(self).tokens(), old(self).at()).len),
    {
        if !self.is_at_end() {
            self.current += 1;
        }
        self.previous()
    }

    fn is_at_end(&self) -> (ended: bool)
        requires
            self.wf(),
        ensures
            ended == at_end(self.tokens(), self.at()),
    {
        self.peek().ttype == TType::EOF
    }

    /// The token under the cursor.
    fn peek(&self) -> (token: Token)
        requires
            self.wf(),
        ensures
            token == self.tokens[self.at()],
            token@ == self.tokens()[self.at()],
            token.ttype@ == kind_at(self.tokens(), self.at()),
    {
        self.tokens[self.current].clone()
    }

    /// The token before the cursor.
    fn previous(&self) -> (token: Token)
        requires
            self.current >= 1,
            self.current <= self.tokens.len(),
        ensures
            token == self.tokens[self.at() - 1],
            token@ == self.tokens()[self.at() - 1],
    {
        self.tokens[self.current - 1].clone()
    }
}

} // verus!
