//! The grammar: what parsing means, as pure functions of a token sequence
//! and a position in it. Each production gives the tree it reads from that
//! position and the number of tokens the tree takes, or the diagnostic with
//! which parsing ends. The parser in [`crate::parser`] is proved to compute
//! [`program`], and to stop, where a production fails, at the token that
//! the failure names. The productions are opaque: a proof reveals those it
//! speaks of.
//!
//! ```text
//! statement   := varDecl | fnDecl | returnStmt | importStmt | exprStmt
//! varDecl     := 'let' IDENT ('=' expression)? ';'
//! fnDecl      := 'fn' IDENT '(' (param (',' param)*)? ')' ('->' TYPE)? block
//! param       := IDENT ':' TYPE
//! block       := '{' statement* '}'
//! returnStmt  := 'return' expression? ';'
//! importStmt  := 'import' STRING ';' | 'import' IDENT ('.' IDENT)* ';'
//! exprStmt    := expression ';'
//! expression  := equality
//! equality    := comparison (('==' | '!=') comparison)*
//! comparison  := term
//! term        := factor (('-' | '+') term)?
//! factor      := unary (('/' | '*') factor)?
//! unary       := ('!' | '-') unary | call
//! call        := primary ('(' arguments? ')' | '.' IDENT)*
//! primary     := 'true' | 'false' | NUMBER | STRING | IDENT | '(' expression ')'
//! ```

use vstd::prelude::*;
use crate::error::ErrorView;
use crate::lexer::token::TokenView;
use crate::lexer::ttype::TTypeView;
use crate::parser::nodes::expr::{ExprView, TypeView};
use crate::parser::nodes::stmt::StmtView;
use crate::parser::nodes::ParamView;

verus! {

/// What a production read: its value, and how many tokens it took.
pub struct Parsed<T> {
    pub value: T,
    pub len: nat,
}

/// How a production failed: the diagnostic, and the index of the token at
/// which the parser stopped.
pub struct Failure {
    pub error: ErrorView,
    pub at: int,
}

/// What a production gives: what it read, or how it failed.
pub type Outcome<T> = Result<Parsed<T>, Failure>;

/// The most parameters a function may declare, and the most arguments a
/// call may pass.
pub const MAX_ARITY: usize = 255;

/// That `ts` can be parsed: it has tokens, and its last one is the end
/// marker.
pub open spec fn terminated(ts: Seq<TokenView>) -> bool {
    ts.len() > 0 && ts.last().ttype is EOF
}

/// The kind of the token at `pos`; past the tokens, the end marker.
pub open spec fn kind_at(ts: Seq<TokenView>, pos: int) -> TTypeView {
    if 0 <= pos < ts.len() {
        ts[pos].ttype
    } else {
        TTypeView::EOF
    }
}

pub open spec fn at_end(ts: Seq<TokenView>, pos: int) -> bool {
    kind_at(ts, pos) is EOF
}

/// Whether the token at `pos` is of kind `kind`. Nothing is found at the end
/// marker.
pub open spec fn check(ts: Seq<TokenView>, pos: int, kind: TTypeView) -> bool {
    !at_end(ts, pos) && kind_at(ts, pos) == kind
}

/// How many tokens stand at `pos` and behind it.
pub open spec fn left(ts: Seq<TokenView>, pos: int) -> nat {
    if pos < ts.len() {
        (ts.len() - pos) as nat
    } else {
        0
    }
}

/// The failure at the token with index `pos`: the diagnostic `message` at
/// that token, where the parser stops.
pub open spec fn failure<T>(ts: Seq<TokenView>, pos: int, message: Seq<char>) -> Outcome<T> {
    Err(Failure { error: ErrorView::plain(ts[pos].lineinfo, message), at: pos })
}

/// The failure behind the token before `pos`: the diagnostic `message` at
/// that token, while the parser stops at `pos`.
pub open spec fn failure_behind<T>(ts: Seq<TokenView>, pos: int, message: Seq<char>) -> Outcome<T> {
    Err(Failure { error: ErrorView::plain(ts[pos - 1].lineinfo, message), at: pos })
}

/// A production that read `value` from `len` tokens.
pub open spec fn done<T>(value: T, len: nat) -> Outcome<T> {
    Ok(Parsed { value, len })
}

/// `outcome`, read after `by` tokens of the same production.
pub open spec fn shift<T>(by: nat, outcome: Outcome<T>) -> Outcome<T> {
    match outcome {
        Ok(parsed) => Ok(Parsed { value: parsed.value, len: by + parsed.len }),
        Err(failed) => Err(failed),
    }
}

/// Stepping over the token at `pos`: the token passed and one step, or, at
/// the end marker, the token before it and no step.
pub open spec fn advance(ts: Seq<TokenView>, pos: int) -> Parsed<TokenView> {
    if at_end(ts, pos) {
        Parsed { value: ts[pos - 1], len: 0 }
    } else {
        Parsed { value: ts[pos], len: 1 }
    }
}

/// The token at `pos` if it is of kind `kind`, and else the diagnostic
/// `message` at it.
pub open spec fn consume(ts: Seq<TokenView>, pos: int, kind: TTypeView, message: Seq<char>)
    -> Outcome<TokenView> {
    if check(ts, pos, kind) {
        done(ts[pos], 1)
    } else {
        failure(ts, pos, message)
    }
}

/// The identifier at `pos`, and else the diagnostic `message` at the token
/// there.
pub open spec fn consume_any_identifier(ts: Seq<TokenView>, pos: int, message: Seq<char>)
    -> Outcome<TokenView> {
    if kind_at(ts, pos) is Identifier {
        done(ts[pos], 1)
    } else {
        failure(ts, pos, message)
    }
}

pub open spec fn literal(value: TypeView) -> ExprView {
    ExprView::Literal { value }
}

pub open spec fn binary(left: ExprView, operator: TokenView, right: ExprView) -> ExprView {
    ExprView::Binary { left: Box::new(left), operator, right: Box::new(right) }
}

/// `expression := equality`
#[verifier::opaque]
pub open spec fn expression(ts: Seq<TokenView>, pos: int) -> Outcome<ExprView>
    decreases left(ts, pos), 12nat,
{
    equality(ts, pos)
}

/// `equality := comparison (('==' | '!=') comparison)*`, the operators
/// grouping to the left.
#[verifier::opaque]
pub open spec fn equality(ts: Seq<TokenView>, pos: int) -> Outcome<ExprView>
    decreases left(ts, pos), 11nat,
{
    match comparison(ts, pos) {
        Err(failed) => Err(failed),
        Ok(first) => shift(first.len, equality_rest(ts, first.value, pos + first.len)),
    }
}

/// What follows the operand `operand` of an equality: the further operators
/// and operands from `pos` on, folded onto it.
#[verifier::opaque]
pub open spec fn equality_rest(ts: Seq<TokenView>, operand: ExprView, pos: int) -> Outcome<ExprView>
    decreases left(ts, pos), 10nat,
{
    if check(ts, pos, TTypeView::EQEQ) || check(ts, pos, TTypeView::BANGEQ) {
        match comparison(ts, pos + 1) {
            Err(failed) => Err(failed),
            Ok(right) => shift(
                1 + right.len,
                equality_rest(ts, binary(operand, ts[pos], right.value), pos + 1 + right.len),
            ),
        }
    } else {
        done(operand, 0)
    }
}

/// `comparison := term`. No relational operator is part of the grammar; the
/// level keeps the place of one.
#[verifier::opaque]
pub open spec fn comparison(ts: Seq<TokenView>, pos: int) -> Outcome<ExprView>
    decreases left(ts, pos), 9nat,
{
    term(ts, pos)
}

/// `term := factor (('-' | '+') term)?`. The right operand is a whole term,
/// so that a chain of these operators groups to the right.
#[verifier::opaque]
pub open spec fn term(ts: Seq<TokenView>, pos: int) -> Outcome<ExprView>
    decreases left(ts, pos), 8nat,
{
    match factor(ts, pos) {
        Err(failed) => Err(failed),
        Ok(first) => {
            let at = pos + first.len;
            if check(ts, at, TTypeView::MINUS) || check(ts, at, TTypeView::PLUS) {
                match term(ts, at + 1) {
                    Err(failed) => Err(failed),
                    Ok(right) => done(
                        binary(first.value, ts[at], right.value),
                        first.len + 1 + right.len,
                    ),
                }
            } else {
                Ok(first)
            }
        },
    }
}

/// `factor := unary (('/' | '*') factor)?`. The right operand is a whole
/// factor, so that a chain of these operators groups to the right.
#[verifier::opaque]
pub open spec fn factor(ts: Seq<TokenView>, pos: int) -> Outcome<ExprView>
    decreases left(ts, pos), 7nat,
{
    match unary(ts, pos) {
        Err(failed) => Err(failed),
        Ok(first) => {
            let at = pos + first.len;
            if check(ts, at, TTypeView::SLASH) || check(ts, at, TTypeView::STAR) {
                match factor(ts, at + 1) {
                    Err(failed) => Err(failed),
                    Ok(right) => done(
                        binary(first.value, ts[at], right.value),
                        first.len + 1 + right.len,
                    ),
                }
            } else {
                Ok(first)
            }
        },
    }
}

/// `unary := ('!' | '-') unary | call`
#[verifier::opaque]
pub open spec fn unary(ts: Seq<TokenView>, pos: int) -> Outcome<ExprView>
    decreases left(ts, pos), 6nat,
{
    if check(ts, pos, TTypeView::BANG) || check(ts, pos, TTypeView::MINUS) {
        match unary(ts, pos + 1) {
            Err(failed) => Err(failed),
            Ok(right) => done(
                ExprView::Unary { operator: ts[pos], right: Box::new(right.value) },
                1 + right.len,
            ),
        }
    } else {
        call(ts, pos)
    }
}

/// `call := primary ('(' arguments? ')' | '.' IDENT)*`
#[verifier::opaque]
pub open spec fn call(ts: Seq<TokenView>, pos: int) -> Outcome<ExprView>
    decreases left(ts, pos), 5nat,
{
    match primary(ts, pos) {
        Err(failed) => Err(failed),
        Ok(first) => shift(first.len, call_rest(ts, first.value, pos + first.len)),
    }
}

/// What follows the expression `callee`: the calls of it and the accesses to
/// its members from `pos` on, each applied to what stands before it.
#[verifier::opaque]
pub open spec fn call_rest(ts: Seq<TokenView>, callee: ExprView, pos: int) -> Outcome<ExprView>
    decreases left(ts, pos), 4nat,
{
    if check(ts, pos, TTypeView::LPAREN) {
        match finish_call(ts, callee, pos + 1) {
            Err(failed) => Err(failed),
            Ok(made) => shift(1 + made.len, call_rest(ts, made.value, pos + 1 + made.len)),
        }
    } else if check(ts, pos, TTypeView::DOT) {
        match consume_any_identifier(ts, pos + 1, "Expect property name after '.'."@) {
            Err(failed) => Err(failed),
            Ok(name) => shift(
                2,
                call_rest(
                    ts,
                    ExprView::Get { object: Box::new(callee), name: name.value },
                    pos + 2,
                ),
            ),
        }
    } else {
        done(callee, 0)
    }
}

/// The call of `callee` whose opening parenthesis stands before `pos`: the
/// arguments and the closing parenthesis.
#[verifier::opaque]
pub open spec fn finish_call(ts: Seq<TokenView>, callee: ExprView, pos: int) -> Outcome<ExprView>
    decreases left(ts, pos), 14nat,
{
    let listed = if check(ts, pos, TTypeView::RPAREN) {
        done(Seq::empty(), 0)
    } else {
        arguments(ts, pos, Seq::empty())
    };
    match listed {
        Err(failed) => Err(failed),
        Ok(args) => match consume(
            ts,
            pos + args.len,
            TTypeView::RPAREN,
            "Expect ')' after arguments."@,
        ) {
            Err(failed) => Err(failed),
            Ok(paren) => done(
                ExprView::Call { callee: Box::new(callee), paren: paren.value, args: args.value },
                args.len + 1,
            ),
        },
    }
}

/// The arguments from `pos` on, separated by commas, after the arguments
/// `before`. A call has at most 255.
#[verifier::opaque]
pub open spec fn arguments(ts: Seq<TokenView>, pos: int, before: Seq<ExprView>) -> Outcome<
    Seq<ExprView>,
>
    decreases left(ts, pos), 13nat,
{
    if before.len() >= MAX_ARITY {
        failure(ts, pos, "Cannot have more than 255 arguments"@)
    } else {
        match expression(ts, pos) {
            Err(failed) => Err(failed),
            Ok(arg) => {
                let at = pos + arg.len;
                if check(ts, at, TTypeView::COMMA) {
                    shift(arg.len + 1, arguments(ts, at + 1, before.push(arg.value)))
                } else {
                    done(before.push(arg.value), arg.len)
                }
            },
        }
    }
}

/// `primary := 'true' | 'false' | NUMBER | STRING | IDENT | '(' expression ')'`.
/// A name is a literal that holds the name. Behind an expression in
/// parentheses that is not closed, the diagnostic stands at the last token
/// of the expression.
#[verifier::opaque]
pub open spec fn primary(ts: Seq<TokenView>, pos: int) -> Outcome<ExprView>
    decreases left(ts, pos), 3nat,
{
    if check(ts, pos, TTypeView::FALSE) {
        done(literal(TypeView::Bool(false)), 1)
    } else if check(ts, pos, TTypeView::TRUE) {
        done(literal(TypeView::Bool(true)), 1)
    } else if check(ts, pos, TTypeView::LPAREN) {
        match expression(ts, pos + 1) {
            Err(failed) => Err(failed),
            Ok(inner) => if check(ts, pos + 1 + inner.len, TTypeView::RPAREN) {
                done(ExprView::Grouping { expression: Box::new(inner.value) }, inner.len + 2)
            } else {
                failure_behind(ts, pos + 1 + inner.len, "Expect ')' after expression"@)
            },
        }
    } else {
        match kind_at(ts, pos) {
            TTypeView::Number(numeral) => done(literal(TypeView::Float(numeral)), 1),
            TTypeView::String(contents) => done(literal(TypeView::String(contents)), 1),
            TTypeView::Identifier(name) => done(literal(TypeView::Iden(name)), 1),
            _ => failure(ts, pos, "Expect expression"@),
        }
    }
}

/// `exprStmt := expression ';'`. Where the semicolon is missing, the
/// diagnostic stands at the last token of the expression.
#[verifier::opaque]
pub open spec fn expr_stmt(ts: Seq<TokenView>, pos: int) -> Outcome<StmtView> {
    match expression(ts, pos) {
        Err(failed) => Err(failed),
        Ok(read) => if check(ts, pos + read.len, TTypeView::SEMICOLON) {
            done(StmtView::ExprStmt { expression: read.value }, read.len + 1)
        } else {
            failure_behind(ts, pos + read.len, "Expect ';' after expression."@)
        },
    }
}

/// An expression where `present`, and nothing where not.
pub open spec fn optional(ts: Seq<TokenView>, pos: int, present: bool) -> Outcome<Option<ExprView>> {
    if present {
        match expression(ts, pos) {
            Err(failed) => Err(failed),
            Ok(read) => done(Some(read.value), read.len),
        }
    } else {
        done(None, 0)
    }
}

/// `varDecl := 'let' IDENT ('=' expression)? ';'`, from behind the keyword.
#[verifier::opaque]
pub open spec fn var_decl(ts: Seq<TokenView>, pos: int) -> Outcome<StmtView> {
    match kind_at(ts, pos) {
        TTypeView::Identifier(name) => {
            let assigned = check(ts, pos + 1, TTypeView::EQ);
            let from = if assigned {
                pos + 2
            } else {
                pos + 1
            };
            match optional(ts, from, assigned) {
                Err(failed) => Err(failed),
                Ok(initializer) => match consume(
                    ts,
                    from + initializer.len,
                    TTypeView::SEMICOLON,
                    "Expect ';' after variable declaration."@,
                ) {
                    Err(failed) => Err(failed),
                    Ok(_) => done(
                        StmtView::VarDecl { name, initializer: initializer.value },
                        (from - pos + initializer.len + 1) as nat,
                    ),
                },
            }
        },
        _ => failure(ts, pos, "Expect variable name."@),
    }
}

/// `returnStmt := 'return' expression? ';'`, from behind the keyword.
#[verifier::opaque]
pub open spec fn return_stmt(ts: Seq<TokenView>, pos: int) -> Outcome<StmtView> {
    match optional(ts, pos, !check(ts, pos, TTypeView::SEMICOLON)) {
        Err(failed) => Err(failed),
        Ok(value) => match consume(
            ts,
            pos + value.len,
            TTypeView::SEMICOLON,
            "Expect ';' after return value."@,
        ) {
            Err(failed) => Err(failed),
            Ok(_) => done(StmtView::Return { value: value.value }, value.len + 1),
        },
    }
}

/// The segments `('.' IDENT)*` of a module path from `pos` on, after the
/// segments `before`.
pub open spec fn import_path(ts: Seq<TokenView>, pos: int, before: Seq<Seq<char>>) -> Outcome<
    Seq<Seq<char>>,
>
    decreases left(ts, pos),
{
    if check(ts, pos, TTypeView::DOT) {
        match kind_at(ts, pos + 1) {
            TTypeView::Identifier(name) => shift(2, import_path(ts, pos + 2, before.push(name))),
            _ => failure(ts, pos + 1, "Expect import path."@),
        }
    } else {
        done(before, 0)
    }
}

/// `importStmt := 'import' STRING ';' | 'import' IDENT ('.' IDENT)* ';'`,
/// from behind the keyword.
#[verifier::opaque]
pub open spec fn import_stmt(ts: Seq<TokenView>, pos: int) -> Outcome<StmtView> {
    match kind_at(ts, pos) {
        TTypeView::String(path) => match consume(
            ts,
            pos + 1,
            TTypeView::SEMICOLON,
            "Expect ';' after import path."@,
        ) {
            Err(failed) => Err(failed),
            Ok(_) => done(StmtView::FileImport { path }, 2),
        },
        TTypeView::Identifier(name) => match import_path(ts, pos + 1, seq![name]) {
            Err(failed) => Err(failed),
            Ok(path) => match consume(
                ts,
                pos + 1 + path.len,
                TTypeView::SEMICOLON,
                "Expect ';' after import path."@,
            ) {
                Err(failed) => Err(failed),
                Ok(_) => done(StmtView::LangImport { segments: path.value }, path.len + 2),
            },
        },
        _ => failure(ts, pos, "Expect import path."@),
    }
}

/// `param := IDENT ':' TYPE`. Any token stands for a type.
#[verifier::opaque]
pub open spec fn parameter(ts: Seq<TokenView>, pos: int) -> Outcome<ParamView> {
    match kind_at(ts, pos) {
        TTypeView::Identifier(name) => match consume(
            ts,
            pos + 1,
            TTypeView::COLON,
            "Expect type after param"@,
        ) {
            Err(failed) => Err(failed),
            Ok(_) => {
                let type_ = advance(ts, pos + 2);
                done(ParamView { name, type_: type_.value }, 2 + type_.len)
            },
        },
        _ => failure(ts, pos, "Expect parameter name."@),
    }
}

/// The parameters from `pos` on, separated by commas, after the parameters
/// `before`. A function has at most 255.
pub open spec fn parameters(ts: Seq<TokenView>, pos: int, before: Seq<ParamView>) -> Outcome<
    Seq<ParamView>,
>
    decreases left(ts, pos),
{
    if before.len() >= MAX_ARITY {
        failure(ts, pos, "Cannot have more than 255 parameters"@)
    } else {
        match parameter(ts, pos) {
            Err(failed) => Err(failed),
            Ok(param) => {
                let at = pos + param.len;
                if check(ts, at, TTypeView::COMMA) {
                    shift(param.len + 1, parameters(ts, at + 1, before.push(param.value)))
                } else {
                    done(before.push(param.value), param.len)
                }
            },
        }
    }
}

/// `'(' (param (',' param)*)? ')' ('->' TYPE)?`: what stands between a
/// function's name and its body.
#[verifier::opaque]
pub open spec fn signature(ts: Seq<TokenView>, pos: int) -> Outcome<
    (Seq<ParamView>, Option<TokenView>),
> {
    match consume(ts, pos, TTypeView::LPAREN, "Expect '(' after function name."@) {
        Err(failed) => Err(failed),
        Ok(_) => {
            let listed = if check(ts, pos + 1, TTypeView::RPAREN) {
                done(Seq::empty(), 0)
            } else {
                parameters(ts, pos + 1, Seq::empty())
            };
            match listed {
                Err(failed) => Err(failed),
                Ok(params) => {
                    let close = pos + 1 + params.len;
                    match consume(ts, close, TTypeView::RPAREN, "Expect ')' after parameters."@) {
                        Err(failed) => Err(failed),
                        Ok(_) => if check(ts, close + 1, TTypeView::ARROW) {
                            let type_ = advance(ts, close + 2);
                            done(
                                (params.value, Some(type_.value)),
                                params.len + 3 + type_.len,
                            )
                        } else {
                            done((params.value, None), params.len + 2)
                        },
                    }
                },
            }
        },
    }
}

/// `statement := varDecl | fnDecl | returnStmt | importStmt | exprStmt`: the
/// keyword at `pos` decides, and without one the statement is an expression.
#[verifier::opaque]
pub open spec fn stmt(ts: Seq<TokenView>, pos: int) -> Outcome<StmtView>
    decreases left(ts, pos), 0nat,
{
    if check(ts, pos, TTypeView::LET) {
        shift(1, var_decl(ts, pos + 1))
    } else if check(ts, pos, TTypeView::FN) {
        shift(1, fn_decl(ts, pos + 1))
    } else if check(ts, pos, TTypeView::RETURN) {
        shift(1, return_stmt(ts, pos + 1))
    } else if check(ts, pos, TTypeView::IMPORT) {
        shift(1, import_stmt(ts, pos + 1))
    } else {
        expr_stmt(ts, pos)
    }
}

/// `fnDecl := 'fn' IDENT '(' (param (',' param)*)? ')' ('->' TYPE)? block`,
/// from behind the keyword.
#[verifier::opaque]
pub open spec fn fn_decl(ts: Seq<TokenView>, pos: int) -> Outcome<StmtView>
    decreases left(ts, pos), 3nat,
{
    match kind_at(ts, pos) {
        TTypeView::Identifier(name) => match signature(ts, pos + 1) {
            Err(failed) => Err(failed),
            Ok(head) => {
                let open = pos + 1 + head.len;
                match consume(ts, open, TTypeView::LBRACE, "Expect '{' before function body."@) {
                    Err(failed) => Err(failed),
                    Ok(_) => match block(ts, open + 1) {
                        Err(failed) => Err(failed),
                        Ok(body) => done(
                            StmtView::FnDecl {
                                name,
                                params: head.value.0,
                                body: body.value,
                                return_type: head.value.1,
                            },
                            head.len + 2 + body.len,
                        ),
                    },
                }
            },
        },
        _ => failure(ts, pos, "Expect function name."@),
    }
}

/// `block := '{' statement* '}'`, from behind the opening brace.
#[verifier::opaque]
pub open spec fn block(ts: Seq<TokenView>, pos: int) -> Outcome<Seq<StmtView>>
    decreases left(ts, pos), 2nat,
{
    block_rest(ts, pos, Seq::empty())
}

/// The statements of a block from `pos` on and its closing brace, after the
/// statements `before`. A statement that took no token would end the block
/// there; [`lemma_stmt_takes_tokens`] shows that there is none.
#[verifier::opaque]
pub open spec fn block_rest(ts: Seq<TokenView>, pos: int, before: Seq<StmtView>) -> Outcome<
    Seq<StmtView>,
>
    decreases left(ts, pos), 1nat,
{
    if check(ts, pos, TTypeView::RBRACE) || at_end(ts, pos) {
        match consume(ts, pos, TTypeView::RBRACE, "Expect '}' after block."@) {
            Err(failed) => Err(failed),
            Ok(_) => done(before, 1),
        }
    } else {
        match stmt(ts, pos) {
            Err(failed) => Err(failed),
            Ok(first) => if first.len > 0 {
                shift(first.len, block_rest(ts, pos + first.len, before.push(first.value)))
            } else {
                failure(ts, pos, "Expect '}' after block."@)
            },
        }
    }
}

/// The statements from `pos` on to the end marker, after the statements
/// `before`.
pub open spec fn statements(ts: Seq<TokenView>, pos: int, before: Seq<StmtView>) -> Result<
    Seq<StmtView>,
    ErrorView,
>
    decreases left(ts, pos),
{
    if at_end(ts, pos) {
        Ok(before)
    } else {
        proof {
            lemma_stmt_takes_tokens(ts, pos);
        }
        match stmt(ts, pos) {
            Err(failed) => Err(failed.error),
            Ok(first) => statements(ts, pos + first.len, before.push(first.value)),
        }
    }
}

/// The statements of the token sequence `ts`, or the first diagnostic.
pub open spec fn program(ts: Seq<TokenView>) -> Result<Seq<StmtView>, ErrorView> {
    statements(ts, 0, Seq::empty())
}

/// A primary expression takes at least one token.
proof fn lemma_primary_takes_tokens(ts: Seq<TokenView>, pos: int)
    ensures
        primary(ts, pos) matches Ok(read) ==> read.len >= 1,
{
    reveal(primary);
}

/// A chain of calls and accesses takes at least one token.
proof fn lemma_call_takes_tokens(ts: Seq<TokenView>, pos: int)
    ensures
        call(ts, pos) matches Ok(read) ==> read.len >= 1,
{
    reveal(call);
    reveal(primary);
    lemma_primary_takes_tokens(ts, pos);
}

/// A unary expression takes at least one token.
proof fn lemma_unary_takes_tokens(ts: Seq<TokenView>, pos: int)
    ensures
        unary(ts, pos) matches Ok(read) ==> read.len >= 1,
{
    reveal(unary);
    reveal(call);
    lemma_call_takes_tokens(ts, pos);
}

/// A factor takes at least one token.
proof fn lemma_factor_takes_tokens(ts: Seq<TokenView>, pos: int)
    ensures
        factor(ts, pos) matches Ok(read) ==> read.len >= 1,
{
    reveal(factor);
    reveal(unary);
    lemma_unary_takes_tokens(ts, pos);
}

/// A term takes at least one token.
proof fn lemma_term_takes_tokens(ts: Seq<TokenView>, pos: int)
    ensures
        term(ts, pos) matches Ok(read) ==> read.len >= 1,
{
    reveal(term);
    reveal(factor);
    lemma_factor_takes_tokens(ts, pos);
}

/// An equality takes at least one token.
proof fn lemma_equality_takes_tokens(ts: Seq<TokenView>, pos: int)
    ensures
        comparison(ts, pos) matches Ok(read) ==> read.len >= 1,
        equality(ts, pos) matches Ok(read) ==> read.len >= 1,
{
    reveal(equality);
    reveal(comparison);
    reveal(term);
    lemma_term_takes_tokens(ts, pos);
}

/// Every expression takes at least one token: the operands of a chain of
/// operators, the arguments of a call and the members of an access each
/// move the parser on.
pub proof fn lemma_expression_takes_tokens(ts: Seq<TokenView>, pos: int)
    ensures
        primary(ts, pos) matches Ok(read) ==> read.len >= 1,
        call(ts, pos) matches Ok(read) ==> read.len >= 1,
        unary(ts, pos) matches Ok(read) ==> read.len >= 1,
        factor(ts, pos) matches Ok(read) ==> read.len >= 1,
        term(ts, pos) matches Ok(read) ==> read.len >= 1,
        comparison(ts, pos) matches Ok(read) ==> read.len >= 1,
        equality(ts, pos) matches Ok(read) ==> read.len >= 1,
        expression(ts, pos) matches Ok(read) ==> read.len >= 1,
{
    reveal(expression);
    reveal(equality);
    lemma_primary_takes_tokens(ts, pos);
    lemma_call_takes_tokens(ts, pos);
    lemma_unary_takes_tokens(ts, pos);
    lemma_factor_takes_tokens(ts, pos);
    lemma_term_takes_tokens(ts, pos);
    lemma_equality_takes_tokens(ts, pos);
}

/// Every statement takes at least one token: a sequence of statements
/// comes to its end, in a block and in a program.
pub proof fn lemma_stmt_takes_tokens(ts: Seq<TokenView>, pos: int)
    ensures
        stmt(ts, pos) matches Ok(read) ==> read.len >= 1,
{
    reveal(stmt);
    reveal(expr_stmt);
}

} // verus!
