//! The tokens that a tree is written with, and the law that ties the
//! grammar to them: a tree that the parser returns is written with exactly
//! the tokens that the parser read for it, one kind after the other.

use vstd::prelude::*;
use crate::lexer::token::TokenView;
use crate::lexer::ttype::TTypeView;
use crate::parser::grammar::{
    arguments, at_end, binary, block, block_rest, call, call_rest, check, comparison, done,
    equality, equality_rest, expr_stmt, expression, factor, finish_call, fn_decl, import_path,
    import_stmt, kind_at, left, lemma_stmt_takes_tokens, optional, parameter, parameters,
    primary, program, return_stmt, signature, statements, stmt, term, unary, var_decl,
};
use crate::parser::nodes::expr::{ExprView, TypeView};
use crate::parser::nodes::stmt::StmtView;
use crate::parser::nodes::ParamView;

verus! {

/// The kinds of the tokens `from..to`.
pub open spec fn slice(ts: Seq<TokenView>, from: int, to: int) -> Seq<TTypeView> {
    Seq::new((to - from) as nat, |i: int| ts[from + i].ttype)
}

/// The token that a literal is written with. The parser makes no literal
/// of an integer, of the void value or of an unknown value: they have none.
pub open spec fn literal_spelling(value: TypeView) -> Seq<TTypeView> {
    match value {
        TypeView::Bool(true) => seq![TTypeView::TRUE],
        TypeView::Bool(false) => seq![TTypeView::FALSE],
        TypeView::Float(numeral) => seq![TTypeView::Number(numeral)],
        TypeView::String(contents) => seq![TTypeView::String(contents)],
        TypeView::Iden(name) => seq![TTypeView::Identifier(name)],
        _ => Seq::empty(),
    }
}

/// The kinds of the tokens that `expr` is written with.
pub open spec fn expr_spelling(expr: ExprView) -> Seq<TTypeView>
    decreases expr, 0nat,
{
    match expr {
        ExprView::Literal { value } => literal_spelling(value),
        ExprView::Grouping { expression } => seq![TTypeView::LPAREN] + expr_spelling(*expression)
            + seq![TTypeView::RPAREN],
        ExprView::Binary { left, operator, right } => expr_spelling(*left) + seq![operator.ttype]
            + expr_spelling(*right),
        ExprView::Unary { operator, right } => seq![operator.ttype] + expr_spelling(*right),
        ExprView::Call { callee, paren, args } => expr_spelling(*callee) + seq![TTypeView::LPAREN]
            + args_spelling(args, 0) + seq![paren.ttype],
        ExprView::Get { object, name } => expr_spelling(*object) + seq![TTypeView::DOT, name.ttype],
    }
}

/// The kinds of the tokens that the arguments `args[from..]` are written
/// with, a comma between one and the next.
pub open spec fn args_spelling(args: Seq<ExprView>, from: int) -> Seq<TTypeView>
    decreases args, args.len() - from,
{
    if from < 0 || from >= args.len() {
        Seq::empty()
    } else if from == args.len() - 1 {
        expr_spelling(args[from])
    } else {
        expr_spelling(args[from]) + seq![TTypeView::COMMA] + args_spelling(args, from + 1)
    }
}

/// That the `len` tokens from `pos` on are those that `spelling` names.
pub open spec fn spells(ts: Seq<TokenView>, pos: int, len: nat, spelling: Seq<TTypeView>) -> bool {
    pos + len <= ts.len() && slice(ts, pos, pos + len) == spelling
}

/// A range of tokens is its two parts, one after the other.
proof fn lemma_slice_split(ts: Seq<TokenView>, from: int, mid: int, to: int)
    requires
        from <= mid <= to,
    ensures
        slice(ts, from, to) == slice(ts, from, mid) + slice(ts, mid, to),
        slice(ts, from, from) == Seq::<TTypeView>::empty(),
        slice(ts, from, from + 1) == seq![ts[from].ttype],
{
    assert(slice(ts, from, to) =~= slice(ts, from, mid) + slice(ts, mid, to));
    assert(slice(ts, from, from) =~= Seq::<TTypeView>::empty());
    assert(slice(ts, from, from + 1) =~= seq![ts[from].ttype]);
}

/// An expression that the grammar reads is written with the tokens it took.
pub proof fn lemma_expression(ts: Seq<TokenView>, pos: int)
    requires
        0 <= pos,
        expression(ts, pos) is Ok,
    ensures
        spells(
            ts,
            pos,
            expression(ts, pos)->Ok_0.len,
            expr_spelling(expression(ts, pos)->Ok_0.value),
        ),
    decreases left(ts, pos), 12nat,
{
    reveal(expression);
    reveal(equality);
    lemma_equality(ts, pos);
}

/// An equality is written with the tokens it took.
proof fn lemma_equality(ts: Seq<TokenView>, pos: int)
    requires
        0 <= pos,
        equality(ts, pos) is Ok,
    ensures
        spells(ts, pos, equality(ts, pos)->Ok_0.len, expr_spelling(equality(ts, pos)->Ok_0.value)),
    decreases left(ts, pos), 11nat,
{
    reveal(equality);
    reveal(equality_rest);
    reveal(comparison);
    lemma_comparison(ts, pos);
    let first = comparison(ts, pos)->Ok_0;
    lemma_equality_rest(ts, first.value, pos + first.len);
    let rest = equality_rest(ts, first.value, pos + first.len)->Ok_0;
    lemma_slice_split(ts, pos, pos + first.len, pos + first.len + rest.len);
}

/// What follows the operand of an equality adds the tokens it took to
/// those of the operand.
proof fn lemma_equality_rest(ts: Seq<TokenView>, operand: ExprView, pos: int)
    requires
        0 <= pos <= ts.len(),
        equality_rest(ts, operand, pos) is Ok,
    ensures
        pos + equality_rest(ts, operand, pos)->Ok_0.len <= ts.len(),
        expr_spelling(equality_rest(ts, operand, pos)->Ok_0.value) == expr_spelling(operand) + slice(
            ts,
            pos,
            pos + equality_rest(ts, operand, pos)->Ok_0.len,
        ),
    decreases left(ts, pos), 10nat,
{
    reveal(equality_rest);
    reveal(comparison);
    if check(ts, pos, TTypeView::EQEQ) || check(ts, pos, TTypeView::BANGEQ) {
        lemma_comparison(ts, pos + 1);
        let right = comparison(ts, pos + 1)->Ok_0;
        let joined = binary(operand, ts[pos], right.value);
        let next = pos + 1 + right.len;
        lemma_equality_rest(ts, joined, next);
        let rest = equality_rest(ts, joined, next)->Ok_0;
        lemma_binary(ts, operand, pos, right.value, next);
        lemma_spelling_grows(ts, expr_spelling(operand), pos, next, next + rest.len);
    } else {
        lemma_spelling_grows(ts, expr_spelling(operand), pos, pos, pos);
    }
}

/// An operator between two operands is written with the tokens of the left
/// operand, the operator and the tokens of the right operand.
proof fn lemma_binary(ts: Seq<TokenView>, left: ExprView, at: int, right: ExprView, to: int)
    requires
        at < to,
        slice(ts, at + 1, to) == expr_spelling(right),
    ensures
        expr_spelling(binary(left, ts[at], right)) == expr_spelling(left)
            + slice(ts, at, to),
{
    assert(slice(ts, at, to) =~= seq![ts[at].ttype] + slice(ts, at + 1, to));
    assert(expr_spelling(binary(left, ts[at], right)) =~= expr_spelling(
        left,
    ) + (seq![ts[at].ttype] + slice(ts, at + 1, to)));
}

/// A comparison is written with the tokens it took.
proof fn lemma_comparison(ts: Seq<TokenView>, pos: int)
    requires
        0 <= pos,
        comparison(ts, pos) is Ok,
    ensures
        spells(
            ts,
            pos,
            comparison(ts, pos)->Ok_0.len,
            expr_spelling(comparison(ts, pos)->Ok_0.value),
        ),
    decreases left(ts, pos), 9nat,
{
    reveal(comparison);
    reveal(term);
    lemma_term(ts, pos);
}

/// A term is written with the tokens it took.
proof fn lemma_term(ts: Seq<TokenView>, pos: int)
    requires
        0 <= pos,
        term(ts, pos) is Ok,
    ensures
        spells(ts, pos, term(ts, pos)->Ok_0.len, expr_spelling(term(ts, pos)->Ok_0.value)),
    decreases left(ts, pos), 8nat,
{
    reveal(term);
    reveal(factor);
    lemma_factor(ts, pos);
    let first = factor(ts, pos)->Ok_0;
    let at = pos + first.len;
    if check(ts, at, TTypeView::MINUS) || check(ts, at, TTypeView::PLUS) {
        lemma_term(ts, at + 1);
        let right = term(ts, at + 1)->Ok_0;
        lemma_binary(ts, first.value, at, right.value, at + 1 + right.len);
        lemma_slice_split(ts, pos, at, at + 1 + right.len);
    }
}

/// A factor is written with the tokens it took.
proof fn lemma_factor(ts: Seq<TokenView>, pos: int)
    requires
        0 <= pos,
        factor(ts, pos) is Ok,
    ensures
        spells(ts, pos, factor(ts, pos)->Ok_0.len, expr_spelling(factor(ts, pos)->Ok_0.value)),
    decreases left(ts, pos), 7nat,
{
    reveal(factor);
    reveal(unary);
    lemma_unary(ts, pos);
    let first = unary(ts, pos)->Ok_0;
    let at = pos + first.len;
    if check(ts, at, TTypeView::SLASH) || check(ts, at, TTypeView::STAR) {
        lemma_factor(ts, at + 1);
        let right = factor(ts, at + 1)->Ok_0;
        lemma_binary(ts, first.value, at, right.value, at + 1 + right.len);
        lemma_slice_split(ts, pos, at, at + 1 + right.len);
    }
}

/// A unary expression is written with the tokens it took.
proof fn lemma_unary(ts: Seq<TokenView>, pos: int)
    requires
        0 <= pos,
        unary(ts, pos) is Ok,
    ensures
        spells(ts, pos, unary(ts, pos)->Ok_0.len, expr_spelling(unary(ts, pos)->Ok_0.value)),
    decreases left(ts, pos), 6nat,
{
    reveal(unary);
    reveal(call);
    if check(ts, pos, TTypeView::BANG) || check(ts, pos, TTypeView::MINUS) {
        lemma_unary(ts, pos + 1);
        let right = unary(ts, pos + 1)->Ok_0;
        lemma_slice_split(ts, pos, pos + 1, pos + 1 + right.len);
    } else {
        lemma_call(ts, pos);
    }
}

/// A chain of calls and accesses is written with the tokens it took.
proof fn lemma_call(ts: Seq<TokenView>, pos: int)
    requires
        0 <= pos,
        call(ts, pos) is Ok,
    ensures
        spells(ts, pos, call(ts, pos)->Ok_0.len, expr_spelling(call(ts, pos)->Ok_0.value)),
    decreases left(ts, pos), 5nat,
{
    reveal(call);
    reveal(call_rest);
    reveal(primary);
    lemma_primary(ts, pos);
    let first = primary(ts, pos)->Ok_0;
    lemma_call_rest(ts, first.value, pos + first.len);
    let rest = call_rest(ts, first.value, pos + first.len)->Ok_0;
    lemma_slice_split(ts, pos, pos + first.len, pos + first.len + rest.len);
}

/// What follows an expression in such a chain adds the tokens it took to
/// those of the expression.
proof fn lemma_call_rest(ts: Seq<TokenView>, callee: ExprView, pos: int)
    requires
        0 <= pos <= ts.len(),
        call_rest(ts, callee, pos) is Ok,
    ensures
        pos + call_rest(ts, callee, pos)->Ok_0.len <= ts.len(),
        expr_spelling(call_rest(ts, callee, pos)->Ok_0.value) == expr_spelling(callee) + slice(
            ts,
            pos,
            pos + call_rest(ts, callee, pos)->Ok_0.len,
        ),
    decreases left(ts, pos), 4nat,
{
    reveal(call_rest);
    reveal(finish_call);
    if check(ts, pos, TTypeView::LPAREN) {
        lemma_finish_call(ts, callee, pos + 1);
        let made = finish_call(ts, callee, pos + 1)->Ok_0;
        let next = pos + 1 + made.len;
        lemma_call_rest(ts, made.value, next);
        let rest = call_rest(ts, made.value, next)->Ok_0;
        lemma_spelling_grows(ts, expr_spelling(callee), pos, next, next + rest.len);
    } else if check(ts, pos, TTypeView::DOT) {
        let got = ExprView::Get { object: Box::new(callee), name: ts[pos + 1] };
        lemma_call_rest(ts, got, pos + 2);
        let rest = call_rest(ts, got, pos + 2)->Ok_0;
        assert(expr_spelling(got) == expr_spelling(callee) + slice(ts, pos, pos + 2)) by {
            assert(slice(ts, pos, pos + 2) =~= seq![TTypeView::DOT, ts[pos + 1].ttype]);
        }
        lemma_spelling_grows(ts, expr_spelling(callee), pos, pos + 2, pos + 2 + rest.len);
    } else {
        lemma_spelling_grows(ts, expr_spelling(callee), pos, pos, pos);
    }
}

/// What is written with some tokens and then with the tokens after them is
/// written with all of them.
proof fn lemma_spelling_grows(
    ts: Seq<TokenView>,
    base: Seq<TTypeView>,
    from: int,
    mid: int,
    to: int,
)
    requires
        from <= mid <= to,
    ensures
        base + slice(ts, from, mid) + slice(ts, mid, to) == base + slice(ts, from, to),
        base + slice(ts, from, from) == base,
{
    assert(base + slice(ts, from, mid) + slice(ts, mid, to) =~= base + slice(ts, from, to));
    assert(base + slice(ts, from, from) =~= base);
}

/// The call of `callee` is written with an opening parenthesis, which
/// stands before `pos`, the arguments and the closing parenthesis.
proof fn lemma_finish_call(ts: Seq<TokenView>, callee: ExprView, pos: int)
    requires
        1 <= pos,
        check(ts, pos - 1, TTypeView::LPAREN),
        finish_call(ts, callee, pos) is Ok,
    ensures
        pos + finish_call(ts, callee, pos)->Ok_0.len <= ts.len(),
        expr_spelling(finish_call(ts, callee, pos)->Ok_0.value) == expr_spelling(callee) + slice(
            ts,
            pos - 1,
            pos + finish_call(ts, callee, pos)->Ok_0.len,
        ),
    decreases left(ts, pos), 14nat,
{
    reveal(finish_call);
    reveal(arguments);
    let made = finish_call(ts, callee, pos)->Ok_0;
    lemma_slice_split(ts, pos - 1, pos, pos + made.len);
    lemma_slice_split(ts, pos - 1, pos - 1, pos);
    if check(ts, pos, TTypeView::RPAREN) {
        lemma_slice_split(ts, pos, pos, pos + 1);
        assert(args_spelling(Seq::<ExprView>::empty(), 0) =~= Seq::<TTypeView>::empty());
        assert(expr_spelling(made.value) =~= expr_spelling(callee) + slice(ts, pos - 1, pos + 1));
    } else {
        lemma_arguments(ts, pos, Seq::empty());
        let args = arguments(ts, pos, Seq::empty())->Ok_0;
        let close = pos + args.len;
        lemma_slice_split(ts, pos, close, close + 1);
        lemma_slice_split(ts, close, close, close + 1);
        assert(expr_spelling(made.value) =~= expr_spelling(callee) + slice(
            ts,
            pos - 1,
            close + 1,
        ));
    }
}

/// The arguments that are read from `pos` on follow the arguments `before`,
/// and are written with the tokens that were taken.
proof fn lemma_arguments(ts: Seq<TokenView>, pos: int, before: Seq<ExprView>)
    requires
        0 <= pos,
        arguments(ts, pos, before) is Ok,
    ensures
        arguments(ts, pos, before)->Ok_0.value.len() > before.len(),
        arguments(ts, pos, before)->Ok_0.value.take(before.len() as int) == before,
        spells(
            ts,
            pos,
            arguments(ts, pos, before)->Ok_0.len,
            args_spelling(arguments(ts, pos, before)->Ok_0.value, before.len() as int),
        ),
    decreases left(ts, pos), 13nat,
{
    reveal(arguments);
    reveal(expression);
    lemma_expression(ts, pos);
    let arg = expression(ts, pos)->Ok_0;
    let at = pos + arg.len;
    let read = arguments(ts, pos, before)->Ok_0;
    if check(ts, at, TTypeView::COMMA) {
        lemma_arguments(ts, at + 1, before.push(arg.value));
        let rest = arguments(ts, at + 1, before.push(arg.value))->Ok_0;
        assert(read.value == rest.value);
        let n = before.len() as int;
        assert(rest.value.take(n + 1)[n] == arg.value);
        assert(read.value.take(n) =~= rest.value.take(n + 1).take(n));
        lemma_slice_split(ts, at, at, at + 1);
        lemma_slice_split(ts, pos, at, at + 1);
        lemma_slice_split(ts, pos, at + 1, at + 1 + rest.len);
        assert(args_spelling(read.value, n) == expr_spelling(arg.value) + seq![TTypeView::COMMA]
            + args_spelling(read.value, n + 1));
        assert(slice(ts, pos, at + 1 + rest.len) =~= args_spelling(read.value, n));
    } else {
        assert(read.value.take(before.len() as int) =~= before);
    }
}

/// A primary expression is written with the tokens it took.
proof fn lemma_primary(ts: Seq<TokenView>, pos: int)
    requires
        0 <= pos,
        primary(ts, pos) is Ok,
    ensures
        spells(ts, pos, primary(ts, pos)->Ok_0.len, expr_spelling(primary(ts, pos)->Ok_0.value)),
    decreases left(ts, pos), 3nat,
{
    reveal(primary);
    reveal(expression);
    lemma_slice_split(ts, pos, pos, pos + 1);
    if check(ts, pos, TTypeView::FALSE) {
    } else if check(ts, pos, TTypeView::TRUE) {
    } else if check(ts, pos, TTypeView::LPAREN) {
        lemma_expression(ts, pos + 1);
        let inner = expression(ts, pos + 1)->Ok_0;
        let close = pos + 1 + inner.len;
        lemma_slice_split(ts, pos, pos + 1, close);
        lemma_slice_split(ts, pos, close, close + 1);
        lemma_slice_split(ts, close, close, close + 1);
    } else {
    }
}

/// The kinds of the tokens that an expression is written with behind the
/// tokens `lead`, where there is one, and nothing where there is none.
pub open spec fn optional_spelling(lead: Seq<TTypeView>, expr: Option<ExprView>) -> Seq<TTypeView> {
    match expr {
        Some(expr) => lead + expr_spelling(expr),
        None => Seq::empty(),
    }
}

/// The kinds of the tokens that a parameter is written with.
pub open spec fn param_spelling(param: ParamView) -> Seq<TTypeView> {
    seq![TTypeView::Identifier(param.name), TTypeView::COLON, param.type_.ttype]
}

/// The kinds of the tokens that the parameters `params[from..]` are written
/// with, a comma between one and the next.
pub open spec fn params_spelling(params: Seq<ParamView>, from: int) -> Seq<TTypeView>
    decreases params.len() - from,
{
    if from < 0 || from >= params.len() {
        Seq::empty()
    } else if from == params.len() - 1 {
        param_spelling(params[from])
    } else {
        param_spelling(params[from]) + seq![TTypeView::COMMA] + params_spelling(params, from + 1)
    }
}

/// The kinds of the tokens that the segments `segments[from..]` of a module
/// path are written with, a dot before each.
pub open spec fn path_spelling(segments: Seq<Seq<char>>, from: int) -> Seq<TTypeView>
    decreases segments.len() - from,
{
    if from < 0 || from >= segments.len() {
        Seq::empty()
    } else {
        seq![TTypeView::DOT, TTypeView::Identifier(segments[from])] + path_spelling(
            segments,
            from + 1,
        )
    }
}

/// The kinds of the tokens that what stands between a function's name and
/// its body is written with.
pub open spec fn signature_spelling(params: Seq<ParamView>, return_type: Option<TokenView>) -> Seq<
    TTypeView,
> {
    seq![TTypeView::LPAREN] + params_spelling(params, 0) + seq![TTypeView::RPAREN] + match return_type {
        Some(type_) => seq![TTypeView::ARROW, type_.ttype],
        None => Seq::empty(),
    }
}

/// The kinds of the tokens that `stmt` is written with.
pub open spec fn stmt_spelling(stmt: StmtView) -> Seq<TTypeView>
    decreases stmt, 0nat,
{
    match stmt {
        StmtView::ExprStmt { expression } => expr_spelling(expression) + seq![TTypeView::SEMICOLON],
        StmtView::VarDecl { name, initializer } => seq![
            TTypeView::LET,
            TTypeView::Identifier(name),
        ] + optional_spelling(seq![TTypeView::EQ], initializer) + seq![TTypeView::SEMICOLON],
        StmtView::FnDecl { name, params, body, return_type } => seq![
            TTypeView::FN,
            TTypeView::Identifier(name),
        ] + signature_spelling(params, return_type) + seq![TTypeView::LBRACE] + stmts_spelling(
            body,
            0,
        ) + seq![TTypeView::RBRACE],
        StmtView::Return { value } => seq![TTypeView::RETURN] + optional_spelling(
            Seq::empty(),
            value,
        ) + seq![TTypeView::SEMICOLON],
        StmtView::LangImport { segments } => seq![
            TTypeView::IMPORT,
            TTypeView::Identifier(segments[0]),
        ] + path_spelling(segments, 1) + seq![TTypeView::SEMICOLON],
        StmtView::FileImport { path } => seq![
            TTypeView::IMPORT,
            TTypeView::String(path),
            TTypeView::SEMICOLON,
        ],
    }
}

/// The kinds of the tokens that the statements `stmts[from..]` are written
/// with, one statement after the other.
pub open spec fn stmts_spelling(stmts: Seq<StmtView>, from: int) -> Seq<TTypeView>
    decreases stmts, stmts.len() - from,
{
    if from < 0 || from >= stmts.len() {
        Seq::empty()
    } else {
        stmt_spelling(stmts[from]) + stmts_spelling(stmts, from + 1)
    }
}

/// An expression that may be missing is written with the tokens taken for
/// it.
proof fn lemma_optional(ts: Seq<TokenView>, pos: int, present: bool)
    requires
        0 <= pos <= ts.len(),
        optional(ts, pos, present) is Ok,
    ensures
        spells(
            ts,
            pos,
            optional(ts, pos, present)->Ok_0.len,
            optional_spelling(Seq::empty(), optional(ts, pos, present)->Ok_0.value),
        ),
        present == (optional(ts, pos, present)->Ok_0.value is Some),
{
    reveal(expression);
    if present {
        lemma_expression(ts, pos);
        assert(Seq::<TTypeView>::empty() + expr_spelling(expression(ts, pos)->Ok_0.value)
            =~= expr_spelling(expression(ts, pos)->Ok_0.value));
    } else {
        assert(slice(ts, pos, pos) =~= Seq::<TTypeView>::empty());
    }
}

/// An expression statement is written with the tokens it took.
proof fn lemma_expr_stmt(ts: Seq<TokenView>, pos: int)
    requires
        0 <= pos,
        expr_stmt(ts, pos) is Ok,
    ensures
        spells(ts, pos, expr_stmt(ts, pos)->Ok_0.len, stmt_spelling(expr_stmt(ts, pos)->Ok_0.value)),
{
    reveal(expression);
    reveal(expr_stmt);
    lemma_expression(ts, pos);
    let read = expression(ts, pos)->Ok_0;
    assert(slice(ts, pos, pos + read.len + 1) =~= slice(ts, pos, pos + read.len) + seq![
        TTypeView::SEMICOLON,
    ]);
}

/// A declaration of a variable is written with the keyword, which stands
/// before `pos`, and the tokens taken behind it.
proof fn lemma_var_decl(ts: Seq<TokenView>, pos: int)
    requires
        1 <= pos,
        check(ts, pos - 1, TTypeView::LET),
        var_decl(ts, pos) is Ok,
    ensures
        spells(
            ts,
            pos - 1,
            var_decl(ts, pos)->Ok_0.len + 1,
            stmt_spelling(var_decl(ts, pos)->Ok_0.value),
        ),
{
    reveal(var_decl);
    let assigned = check(ts, pos + 1, TTypeView::EQ);
    let from = if assigned {
        pos + 2
    } else {
        pos + 1
    };
    lemma_optional(ts, from, assigned);
    let initializer = optional(ts, from, assigned)->Ok_0;
    let end = from + initializer.len;
    let name = kind_at(ts, pos)->Identifier_0;
    let head = seq![TTypeView::LET, TTypeView::Identifier(name)];
    let middle = optional_spelling(seq![TTypeView::EQ], initializer.value);
    assert(slice(ts, pos - 1, pos + 1) =~= head);
    assert(slice(ts, pos + 1, end) =~= middle) by {
        if assigned {
            assert(slice(ts, pos + 1, end) =~= seq![TTypeView::EQ] + slice(ts, from, end));
            assert(Seq::<TTypeView>::empty() + expr_spelling(initializer.value->Some_0)
                =~= expr_spelling(initializer.value->Some_0));
        }
    }
    assert(slice(ts, end, end + 1) =~= seq![TTypeView::SEMICOLON]);
    lemma_slice_split(ts, pos - 1, pos + 1, end);
    lemma_slice_split(ts, pos - 1, end, end + 1);
}

/// A return statement is written with the keyword, which stands before
/// `pos`, and the tokens taken behind it.
proof fn lemma_return_stmt(ts: Seq<TokenView>, pos: int)
    requires
        1 <= pos,
        check(ts, pos - 1, TTypeView::RETURN),
        return_stmt(ts, pos) is Ok,
    ensures
        spells(
            ts,
            pos - 1,
            return_stmt(ts, pos)->Ok_0.len + 1,
            stmt_spelling(return_stmt(ts, pos)->Ok_0.value),
        ),
{
    reveal(return_stmt);
    let present = !check(ts, pos, TTypeView::SEMICOLON);
    lemma_optional(ts, pos, present);
    let value = optional(ts, pos, present)->Ok_0;
    let end = pos + value.len;
    assert(slice(ts, pos - 1, end + 1) =~= seq![TTypeView::RETURN] + slice(ts, pos, end) + seq![
        TTypeView::SEMICOLON,
    ]);
}

/// The segments that are read from `pos` on follow the segments `before`,
/// and are written with the tokens that were taken.
proof fn lemma_import_path(ts: Seq<TokenView>, pos: int, before: Seq<Seq<char>>)
    requires
        0 <= pos <= ts.len(),
        import_path(ts, pos, before) is Ok,
    ensures
        import_path(ts, pos, before)->Ok_0.value.len() >= before.len(),
        import_path(ts, pos, before)->Ok_0.value.take(before.len() as int) == before,
        spells(
            ts,
            pos,
            import_path(ts, pos, before)->Ok_0.len,
            path_spelling(import_path(ts, pos, before)->Ok_0.value, before.len() as int),
        ),
    decreases left(ts, pos),
{
    let read = import_path(ts, pos, before)->Ok_0;
    let n = before.len() as int;
    if check(ts, pos, TTypeView::DOT) {
        let name = kind_at(ts, pos + 1)->Identifier_0;
        lemma_import_path(ts, pos + 2, before.push(name));
        let rest = import_path(ts, pos + 2, before.push(name))->Ok_0;
        assert(rest.value.take(n + 1)[n] == name);
        assert(read.value.take(n) =~= rest.value.take(n + 1).take(n));
        assert(slice(ts, pos, pos + 2 + rest.len) =~= seq![
            TTypeView::DOT,
            TTypeView::Identifier(name),
        ] + slice(ts, pos + 2, pos + 2 + rest.len));
    } else {
        assert(read.value.take(n) =~= before);
        assert(slice(ts, pos, pos) =~= Seq::<TTypeView>::empty());
    }
}

/// An import is written with the keyword, which stands before `pos`, and
/// the tokens taken behind it.
proof fn lemma_import_stmt(ts: Seq<TokenView>, pos: int)
    requires
        1 <= pos,
        check(ts, pos - 1, TTypeView::IMPORT),
        import_stmt(ts, pos) is Ok,
    ensures
        spells(
            ts,
            pos - 1,
            import_stmt(ts, pos)->Ok_0.len + 1,
            stmt_spelling(import_stmt(ts, pos)->Ok_0.value),
        ),
{
    reveal(import_stmt);
    match kind_at(ts, pos) {
        TTypeView::String(path) => {
            assert(slice(ts, pos - 1, pos + 2) =~= seq![
                TTypeView::IMPORT,
                TTypeView::String(path),
                TTypeView::SEMICOLON,
            ]);
        },
        TTypeView::Identifier(name) => {
            lemma_import_path(ts, pos + 1, seq![name]);
            let path = import_path(ts, pos + 1, seq![name])->Ok_0;
            let end = pos + 1 + path.len;
            assert(path.value.take(1)[0] == name);
            assert(slice(ts, pos - 1, end + 1) =~= seq![
                TTypeView::IMPORT,
                TTypeView::Identifier(name),
            ] + slice(ts, pos + 1, end) + seq![TTypeView::SEMICOLON]);
        },
        _ => {},
    }
}

/// A parameter is written with the tokens taken for it, unless the tokens
/// end where its type should stand.
proof fn lemma_parameter(ts: Seq<TokenView>, pos: int)
    requires
        0 <= pos,
        parameter(ts, pos) is Ok,
    ensures
        pos + parameter(ts, pos)->Ok_0.len <= ts.len(),
        parameter(ts, pos)->Ok_0.len >= 2,
        at_end(ts, pos + parameter(ts, pos)->Ok_0.len) || slice(
            ts,
            pos,
            pos + parameter(ts, pos)->Ok_0.len,
        ) == param_spelling(parameter(ts, pos)->Ok_0.value),
{
    reveal(parameter);
    let read = parameter(ts, pos)->Ok_0;
    if !at_end(ts, pos + 2) {
        assert(slice(ts, pos, pos + 3) =~= param_spelling(read.value));
    }
}

/// The parameters that are read from `pos` on follow the parameters
/// `before`, and are written with the tokens that were taken, unless the
/// tokens end behind them.
proof fn lemma_parameters(ts: Seq<TokenView>, pos: int, before: Seq<ParamView>)
    requires
        0 <= pos,
        parameters(ts, pos, before) is Ok,
    ensures
        pos + parameters(ts, pos, before)->Ok_0.len <= ts.len(),
        parameters(ts, pos, before)->Ok_0.value.len() > before.len(),
        parameters(ts, pos, before)->Ok_0.value.take(before.len() as int) == before,
        at_end(ts, pos + parameters(ts, pos, before)->Ok_0.len) || slice(
            ts,
            pos,
            pos + parameters(ts, pos, before)->Ok_0.len,
        ) == params_spelling(parameters(ts, pos, before)->Ok_0.value, before.len() as int),
    decreases left(ts, pos),
{
    lemma_parameter(ts, pos);
    let param = parameter(ts, pos)->Ok_0;
    let at = pos + param.len;
    let read = parameters(ts, pos, before)->Ok_0;
    let n = before.len() as int;
    if check(ts, at, TTypeView::COMMA) {
        lemma_parameters(ts, at + 1, before.push(param.value));
        let rest = parameters(ts, at + 1, before.push(param.value))->Ok_0;
        assert(read.value == rest.value);
        assert(rest.value.take(n + 1)[n] == param.value);
        assert(read.value.take(n) =~= rest.value.take(n + 1).take(n));
        if !at_end(ts, at + 1 + rest.len) {
            assert(params_spelling(read.value, n) == param_spelling(param.value) + seq![
                TTypeView::COMMA,
            ] + params_spelling(read.value, n + 1));
            assert(slice(ts, pos, at + 1 + rest.len) =~= slice(ts, pos, at) + seq![
                TTypeView::COMMA,
            ] + slice(ts, at + 1, at + 1 + rest.len));
        }
    } else {
        assert(read.value.take(n) =~= before);
    }
}

/// What stands between a function's name and its body is written with the
/// tokens taken for it, unless the tokens end behind them.
proof fn lemma_signature(ts: Seq<TokenView>, pos: int)
    requires
        0 <= pos,
        signature(ts, pos) is Ok,
    ensures
        pos + signature(ts, pos)->Ok_0.len <= ts.len(),
        at_end(ts, pos + signature(ts, pos)->Ok_0.len) || slice(
            ts,
            pos,
            pos + signature(ts, pos)->Ok_0.len,
        ) == signature_spelling(signature(ts, pos)->Ok_0.value.0, signature(ts, pos)->Ok_0.value.1),
{
    reveal(signature);
    let read = signature(ts, pos)->Ok_0;
    let empty = check(ts, pos + 1, TTypeView::RPAREN);
    if !empty {
        lemma_parameters(ts, pos + 1, Seq::empty());
    }
    let params = if empty {
        done(Seq::<ParamView>::empty(), 0)->Ok_0
    } else {
        parameters(ts, pos + 1, Seq::empty())->Ok_0
    };
    let close = pos + 1 + params.len;
    assert(slice(ts, pos + 1, close) == params_spelling(params.value, 0)) by {
        if empty {
            assert(slice(ts, pos + 1, close) =~= Seq::<TTypeView>::empty());
        }
    }
    if check(ts, close + 1, TTypeView::ARROW) {
        if !at_end(ts, close + 2) {
            assert(slice(ts, pos, close + 3) =~= seq![TTypeView::LPAREN] + slice(ts, pos + 1, close)
                + seq![TTypeView::RPAREN] + seq![TTypeView::ARROW, ts[close + 2].ttype]);
        }
    } else {
        assert(slice(ts, pos, close + 1) =~= seq![TTypeView::LPAREN] + slice(ts, pos + 1, close)
            + seq![TTypeView::RPAREN] + Seq::<TTypeView>::empty());
    }
}

/// A statement that the grammar reads is written with the tokens it took.
pub proof fn lemma_stmt(ts: Seq<TokenView>, pos: int)
    requires
        0 <= pos,
        stmt(ts, pos) is Ok,
    ensures
        spells(ts, pos, stmt(ts, pos)->Ok_0.len, stmt_spelling(stmt(ts, pos)->Ok_0.value)),
    decreases left(ts, pos), 0nat,
{
    reveal(stmt);
    reveal(fn_decl);
    if check(ts, pos, TTypeView::LET) {
        lemma_var_decl(ts, pos + 1);
    } else if check(ts, pos, TTypeView::FN) {
        lemma_fn_decl(ts, pos + 1);
    } else if check(ts, pos, TTypeView::RETURN) {
        lemma_return_stmt(ts, pos + 1);
    } else if check(ts, pos, TTypeView::IMPORT) {
        lemma_import_stmt(ts, pos + 1);
    } else {
        lemma_expr_stmt(ts, pos);
    }
}

/// A declaration of a function is written with the keyword, which stands
/// before `pos`, and the tokens taken behind it.
proof fn lemma_fn_decl(ts: Seq<TokenView>, pos: int)
    requires
        1 <= pos,
        check(ts, pos - 1, TTypeView::FN),
        fn_decl(ts, pos) is Ok,
    ensures
        spells(
            ts,
            pos - 1,
            fn_decl(ts, pos)->Ok_0.len + 1,
            stmt_spelling(fn_decl(ts, pos)->Ok_0.value),
        ),
    decreases left(ts, pos), 3nat,
{
    reveal(fn_decl);
    reveal(block);
    lemma_signature(ts, pos + 1);
    let head = signature(ts, pos + 1)->Ok_0;
    let open = pos + 1 + head.len;
    lemma_block(ts, open + 1);
    let body = block(ts, open + 1)->Ok_0;
    let end = open + 1 + body.len;
    let name = kind_at(ts, pos)->Identifier_0;
    let head = seq![TTypeView::FN, TTypeView::Identifier(name)];
    let inside = stmts_spelling(body.value, 0);
    assert(slice(ts, pos - 1, pos + 1) =~= head);
    assert(slice(ts, open, open + 1) =~= seq![TTypeView::LBRACE]);
    lemma_slice_split(ts, pos - 1, pos + 1, open);
    lemma_slice_split(ts, pos - 1, open, open + 1);
    lemma_slice_split(ts, pos - 1, open + 1, end);
    assert(head + slice(ts, pos + 1, open) + seq![TTypeView::LBRACE] + (inside + seq![
        TTypeView::RBRACE,
    ]) =~= head + slice(ts, pos + 1, open) + seq![TTypeView::LBRACE] + inside + seq![
        TTypeView::RBRACE,
    ]);
}

/// A block is written with its statements and the closing brace.
proof fn lemma_block(ts: Seq<TokenView>, pos: int)
    requires
        0 <= pos <= ts.len(),
        block(ts, pos) is Ok,
    ensures
        spells(
            ts,
            pos,
            block(ts, pos)->Ok_0.len,
            stmts_spelling(block(ts, pos)->Ok_0.value, 0) + seq![TTypeView::RBRACE],
        ),
    decreases left(ts, pos), 2nat,
{
    reveal(block);
    reveal(block_rest);
    lemma_block_rest(ts, pos, Seq::empty());
}

/// The statements of a block that are read from `pos` on follow the
/// statements `before`, and are written with the tokens that were taken.
proof fn lemma_block_rest(ts: Seq<TokenView>, pos: int, before: Seq<StmtView>)
    requires
        0 <= pos <= ts.len(),
        block_rest(ts, pos, before) is Ok,
    ensures
        block_rest(ts, pos, before)->Ok_0.value.len() >= before.len(),
        block_rest(ts, pos, before)->Ok_0.value.take(before.len() as int) == before,
        spells(
            ts,
            pos,
            block_rest(ts, pos, before)->Ok_0.len,
            stmts_spelling(block_rest(ts, pos, before)->Ok_0.value, before.len() as int) + seq![
                TTypeView::RBRACE,
            ],
        ),
    decreases left(ts, pos), 1nat,
{
    reveal(block_rest);
    reveal(stmt);
    let read = block_rest(ts, pos, before)->Ok_0;
    let n = before.len() as int;
    if check(ts, pos, TTypeView::RBRACE) || at_end(ts, pos) {
        assert(read.value.take(n) =~= before);
        assert(slice(ts, pos, pos + 1) =~= Seq::<TTypeView>::empty() + seq![TTypeView::RBRACE]);
    } else {
        lemma_stmt(ts, pos);
        let first = stmt(ts, pos)->Ok_0;
        let next = pos + first.len;
        lemma_block_rest(ts, next, before.push(first.value));
        let rest = block_rest(ts, next, before.push(first.value))->Ok_0;
        assert(rest.value.take(n + 1)[n] == first.value);
        assert(read.value.take(n) =~= rest.value.take(n + 1).take(n));
        assert(slice(ts, pos, next + rest.len) =~= slice(ts, pos, next) + slice(
            ts,
            next,
            next + rest.len,
        ));
        assert(stmts_spelling(read.value, n) + seq![TTypeView::RBRACE] =~= stmt_spelling(
            first.value,
        ) + (stmts_spelling(read.value, n + 1) + seq![TTypeView::RBRACE]));
    }
}

/// The statements that are read from `pos` on follow the statements
/// `before`, are written with the tokens from `pos` on, and end where the
/// tokens end.
proof fn lemma_statements(ts: Seq<TokenView>, pos: int, before: Seq<StmtView>)
    requires
        0 <= pos <= ts.len(),
        statements(ts, pos, before) is Ok,
    ensures
        statements(ts, pos, before)->Ok_0.len() >= before.len(),
        statements(ts, pos, before)->Ok_0.take(before.len() as int) == before,
        ({
            let spelling = stmts_spelling(statements(ts, pos, before)->Ok_0, before.len() as int);
            &&& pos + spelling.len() <= ts.len()
            &&& slice(ts, pos, pos + spelling.len()) == spelling
            &&& at_end(ts, pos + spelling.len())
        }),
    decreases left(ts, pos),
{
    reveal(stmt);
    let read = statements(ts, pos, before)->Ok_0;
    let n = before.len() as int;
    if at_end(ts, pos) {
        assert(read.take(n) =~= before);
        assert(slice(ts, pos, pos) =~= Seq::<TTypeView>::empty());
    } else {
        lemma_stmt(ts, pos);
        lemma_stmt_takes_tokens(ts, pos);
        let first = stmt(ts, pos)->Ok_0;
        let next = pos + first.len;
        lemma_statements(ts, next, before.push(first.value));
        assert(read.take(n + 1)[n] == first.value);
        assert(read.take(n) =~= read.take(n + 1).take(n));
        let rest = stmts_spelling(read, n + 1);
        assert(slice(ts, pos, next + rest.len()) =~= slice(ts, pos, next) + slice(
            ts,
            next,
            next + rest.len(),
        ));
    }
}

/// The kinds of the tokens that a program is written with.
pub open spec fn program_spelling(stmts: Seq<StmtView>) -> Seq<TTypeView> {
    stmts_spelling(stmts, 0)
}

/// That the statements `stmts` are written with the tokens `ts`: the kinds
/// that spell the statements are, one by one, the kinds of the tokens from
/// the first on, and behind them stands the end marker.
pub open spec fn written_with(ts: Seq<TokenView>, stmts: Seq<StmtView>) -> bool {
    let spelling = program_spelling(stmts);
    &&& spelling.len() <= ts.len()
    &&& slice(ts, 0, spelling.len() as int) == spelling
    &&& at_end(ts, spelling.len() as int)
}

/// The statements of a token sequence are written with its tokens: the
/// parser neither leaves a token out of the tree nor puts one in that it
/// did not read.
pub proof fn lemma_program_spells_tokens(ts: Seq<TokenView>)
    requires
        program(ts) is Ok,
    ensures
        written_with(ts, program(ts)->Ok_0),
{
    lemma_statements(ts, 0, Seq::empty());
}

} // verus!
