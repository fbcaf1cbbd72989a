//! The inspector: a syntax tree as a JSON document.
//!
//! Every node becomes an object with one member, named after the kind of
//! node, whose value is an object of the node's fields. [`document`] builds
//! that tree of JSON values and is proved to build exactly [`program_json`];
//! [`inspect`] hands the tree to `tinyjson`, which writes it as text.

use std::collections::HashMap;
use tinyjson::{JsonGenerator, JsonValue};
use vstd::prelude::*;
use vstd::std_specs::vec::axiom_vec_index_decreases;
use crate::parser::nodes::expr::{Expr, ExprView, Type, TypeView};
use crate::parser::nodes::stmt::{Stmt, StmtView};
use crate::parser::nodes::{Param, ParamView};
use crate::text::{push_signed_decimal, signed_decimal};

verus! {

/// A JSON value, as far as the inspector writes one: it has no numbers and
/// no booleans, and an object's members stand in the order in which they
/// were listed.
#[derive(Debug, PartialEq)]
pub enum Json {
    Null,
    String(String),
    Array(Vec<Json>),
    Object(Vec<Member>),
}

/// A member of a JSON object.
#[derive(Debug, PartialEq)]
pub struct Member {
    pub key: String,
    pub value: Json,
}

/// A [`Json`] as a mathematical value.
pub enum JsonView {
    Null,
    String(Seq<char>),
    Array(Seq<JsonView>),
    Object(Seq<(Seq<char>, JsonView)>),
}

impl Json {
    /// The value as a mathematical value.
    pub open spec fn model(&self) -> JsonView
        decreases self,
    {
        match self {
            Json::Null => JsonView::Null,
            Json::String(text) => JsonView::String(text@),
            Json::Array(items) => JsonView::Array(
                Seq::new(
                    items@.len(),
                    |i: int|
                        if 0 <= i < items@.len() {
                            items[i].model()
                        } else {
                            arbitrary()
                        },
                ),
            ),
            Json::Object(members) => JsonView::Object(
                Seq::new(
                    members@.len(),
                    |i: int|
                        if 0 <= i < members@.len() {
                            (members[i].key@, members[i].value.model())
                        } else {
                            arbitrary()
                        },
                ),
            ),
        }
    }

    /// The array of `items`.
    pub fn array(items: Vec<Json>) -> (json: Json)
        ensures
            json@ == JsonView::Array(items.deep_view()),
    {
        let json = Json::Array(items);
        assert(json@->Array_0 =~= items.deep_view());
        json
    }

    /// The object of `members`.
    pub fn object(members: Vec<Member>) -> (json: Json)
        ensures
            json@ == JsonView::Object(members.deep_view()),
    {
        let json = Json::Object(members);
        assert(json@->Object_0 =~= members.deep_view());
        json
    }
}

impl View for Json {
    type V = JsonView;

    open spec fn view(&self) -> JsonView {
        self.model()
    }
}

impl DeepView for Json {
    type V = JsonView;

    open spec fn deep_view(&self) -> JsonView {
        self.model()
    }
}

impl View for Member {
    type V = (Seq<char>, JsonView);

    open spec fn view(&self) -> (Seq<char>, JsonView) {
        (self.key@, self.value@)
    }
}

impl DeepView for Member {
    type V = (Seq<char>, JsonView);

    open spec fn deep_view(&self) -> (Seq<char>, JsonView) {
        self@
    }
}

impl Member {
    pub fn new(key: &str, value: Json) -> (member: Member)
        ensures
            member@ == (key@, value@),
    {
        Member { key: String::from_str(key), value }
    }
}

/// The object whose one member is `json`, under the name `name`.
pub open spec fn named(name: Seq<char>, json: JsonView) -> JsonView {
    JsonView::Object(seq![(name, json)])
}

/// A node of kind `kind` with the fields `fields`.
pub open spec fn node(kind: Seq<char>, fields: Seq<(Seq<char>, JsonView)>) -> JsonView {
    named(kind, JsonView::Object(fields))
}

/// A literal's value as text: its kind, and the value in parentheses. A
/// number appears as the numeral that was written.
pub open spec fn type_text(value: TypeView) -> Seq<char> {
    match value {
        TypeView::Int(number) => "Int("@ + signed_decimal(number as int) + ")"@,
        TypeView::Float(numeral) => "Float("@ + numeral + ")"@,
        TypeView::String(contents) => "String("@ + contents + ")"@,
        TypeView::Bool(truth) => "Bool("@ + (if truth {
            "true"@
        } else {
            "false"@
        }) + ")"@,
        TypeView::Iden(name) => "Iden("@ + name + ")"@,
        TypeView::Void => "Void"@,
        TypeView::Unknown => "Unknown"@,
    }
}

/// An expression as JSON.
pub open spec fn expr_json(expr: ExprView) -> JsonView
    decreases expr,
{
    match expr {
        ExprView::Literal { value } => node(
            "Literal"@,
            seq![("value"@, JsonView::String(type_text(value)))],
        ),
        ExprView::Grouping { expression } => node(
            "Grouping"@,
            seq![("expression"@, expr_json(*expression))],
        ),
        ExprView::Binary { left, operator, right } => node(
            "Binary"@,
            seq![
                ("left"@, expr_json(*left)),
                ("operator"@, JsonView::String(operator.lexeme)),
                ("right"@, expr_json(*right)),
            ],
        ),
        ExprView::Unary { operator, right } => node(
            "Unary"@,
            seq![("operator"@, JsonView::String(operator.lexeme)), ("right"@, expr_json(*right))],
        ),
        ExprView::Call { callee, paren, args } => node(
            "Call"@,
            seq![
                ("callee"@, expr_json(*callee)),
                ("paren"@, JsonView::String(paren.lexeme)),
                ("args"@, JsonView::Array(exprs_json(args))),
            ],
        ),
        ExprView::Get { object, name } => node(
            "Get"@,
            seq![("object"@, expr_json(*object)), ("name"@, JsonView::String(name.lexeme))],
        ),
    }
}

/// Expressions as JSON, one by one.
pub open spec fn exprs_json(exprs: Seq<ExprView>) -> Seq<JsonView>
    decreases exprs,
{
    Seq::new(
        exprs.len(),
        |i: int|
            if 0 <= i < exprs.len() {
                expr_json(exprs[i])
            } else {
                JsonView::Null
            },
    )
}

/// Texts as JSON strings, one by one.
pub open spec fn strings_json(texts: Seq<Seq<char>>) -> Seq<JsonView> {
    Seq::new(texts.len(), |i: int| JsonView::String(texts[i]))
}

/// An expression that may be missing as JSON: `null` where it is.
pub open spec fn optional_json(expr: Option<ExprView>) -> JsonView {
    match expr {
        Some(expr) => expr_json(expr),
        None => JsonView::Null,
    }
}

/// A statement as JSON. A function shows its parameters by their names, and
/// `null` for the type returned where none is written.
pub open spec fn stmt_json(stmt: StmtView) -> JsonView
    decreases stmt,
{
    match stmt {
        StmtView::ExprStmt { expression } => node(
            "ExprStmt"@,
            seq![("expression"@, expr_json(expression))],
        ),
        StmtView::VarDecl { name, initializer } => node(
            "VarDecl"@,
            seq![("name"@, JsonView::String(name)), ("initializer"@, optional_json(initializer))],
        ),
        StmtView::FnDecl { name, params, body, return_type } => node(
            "FnDecl"@,
            seq![
                ("name"@, JsonView::String(name)),
                (
                    "params"@,
                    JsonView::Array(strings_json(ParamView::names(params))),
                ),
                ("body"@, JsonView::Array(stmts_json(body))),
                (
                    "rtype"@,
                    match return_type {
                        Some(token) => JsonView::String(token.lexeme),
                        None => JsonView::Null,
                    },
                ),
            ],
        ),
        StmtView::Return { value } => node("Return"@, seq![("expression"@, optional_json(value))]),
        StmtView::LangImport { segments } => node(
            "LangImport"@,
            seq![("modules"@, JsonView::Array(strings_json(segments)))],
        ),
        StmtView::FileImport { path } => node("FileImport"@, seq![("path"@, JsonView::String(path))]),
    }
}

/// Statements as JSON, one by one.
pub open spec fn stmts_json(stmts: Seq<StmtView>) -> Seq<JsonView>
    decreases stmts,
{
    Seq::new(
        stmts.len(),
        |i: int|
            if 0 <= i < stmts.len() {
                stmt_json(stmts[i])
            } else {
                JsonView::Null
            },
    )
}

/// A program as JSON: the array of its statements.
pub open spec fn program_json(statements: Seq<StmtView>) -> JsonView {
    JsonView::Array(stmts_json(statements))
}

/// Wraps `json` in an object, under the name `name`.
pub fn add_name_to_json(name: &str, json: Json) -> (wrapped: Json)
    ensures
        wrapped@ == named(name@, json@),
{
    let mut members: Vec<Member> = Vec::new();
    members.push(Member::new(name, json));
    assert(members.deep_view() =~= seq![(name@, json@)]);
    Json::object(members)
}

/// Renders the value of a literal.
pub fn type_to_string(value: &Type) -> (text: String)
    ensures
        text@ == type_text(value@),
{
    let mut text = String::new();
    match value {
        Type::Int(number) => {
            text.append("Int(");
            push_signed_decimal(&mut text, *number);
            text.append(")");
        },
        Type::Float(numeral) => {
            text.append("Float(");
            text.append(numeral.as_str());
            text.append(")");
        },
        Type::String(contents) => {
            text.append("String(");
            text.append(contents.as_str());
            text.append(")");
        },
        Type::Bool(truth) => {
            text.append("Bool(");
            if *truth {
                text.append("true");
            } else {
                text.append("false");
            }
            text.append(")");
        },
        Type::Iden(name) => {
            text.append("Iden(");
            text.append(name.as_str());
            text.append(")");
        },
        Type::Void => {
            text.append("Void");
        },
        Type::Unknown => {
            text.append("Unknown");
        },
    }
    assert(text@ =~= type_text(value@));
    text
}

/// The node of kind `kind` with one field.
fn node1(kind: &str, key: &str, value: Json) -> (json: Json)
    ensures
        json@ == node(kind@, seq![(key@, value@)]),
{
    let mut fields: Vec<Member> = Vec::new();
    fields.push(Member::new(key, value));
    assert(fields.deep_view() =~= seq![(key@, value@)]);
    add_name_to_json(kind, Json::object(fields))
}

/// The node of kind `kind` with two fields.
fn node2(kind: &str, first: Member, second: Member) -> (json: Json)
    ensures
        json@ == node(kind@, seq![first@, second@]),
{
    let mut fields: Vec<Member> = Vec::new();
    fields.push(first);
    fields.push(second);
    assert(fields.deep_view() =~= seq![first@, second@]);
    add_name_to_json(kind, Json::object(fields))
}

/// Renders an expression.
pub fn expr_to_json(expr: &Expr) -> (json: Json)
    ensures
        json@ == expr_json(expr@),
    decreases expr,
{
    match expr {
        Expr::Literal(literal) => node1(
            "Literal",
            "value",
            Json::String(type_to_string(&literal.value)),
        ),
        Expr::Grouping(group) => node1("Grouping", "expression", expr_to_json(&group.expression)),
        Expr::Binary(binary) => {
            let mut fields: Vec<Member> = Vec::new();
            fields.push(Member::new("left", expr_to_json(&binary.left)));
            fields.push(Member::new("operator", Json::String(binary.operator.lexeme.clone())));
            fields.push(Member::new("right", expr_to_json(&binary.right)));
            assert(fields.deep_view() =~= seq![
                ("left"@, expr_json(binary.left@)),
                ("operator"@, JsonView::String(binary.operator@.lexeme)),
                ("right"@, expr_json(binary.right@)),
            ]);
            add_name_to_json("Binary", Json::object(fields))
        },
        Expr::Unary(unary) => node2(
            "Unary",
            Member::new("operator", Json::String(unary.operator.lexeme.clone())),
            Member::new("right", expr_to_json(&unary.right)),
        ),
        Expr::Call(call) => {
            proof {
                Expr::lemma_call(*call);
            }
            let mut fields: Vec<Member> = Vec::new();
            fields.push(Member::new("callee", expr_to_json(&call.callee)));
            fields.push(Member::new("paren", Json::String(call.paren.lexeme.clone())));
            fields.push(Member::new("args", Json::array(exprs_to_json(&call.args))));
            assert(fields.deep_view() =~= seq![
                ("callee"@, expr_json(call.callee@)),
                ("paren"@, JsonView::String(call.paren@.lexeme)),
                ("args"@, JsonView::Array(exprs_json(call.args.deep_view()))),
            ]);
            add_name_to_json("Call", Json::object(fields))
        },
        Expr::Get(get) => node2(
            "Get",
            Member::new("object", expr_to_json(&get.object)),
            Member::new("name", Json::String(get.name.lexeme.clone())),
        ),
    }
}

/// Renders the expressions `exprs`, one by one.
fn exprs_to_json(exprs: &Vec<Expr>) -> (items: Vec<Json>)
    ensures
        items.deep_view() == exprs_json(exprs.deep_view()),
    decreases exprs,
{
    let mut items: Vec<Json> = Vec::new();
    let mut i: usize = 0;
    while i < exprs.len()
        invariant
            i <= exprs.len(),
            items.deep_view() =~= exprs_json(exprs.deep_view()).take(i as int),
        decreases exprs.len() - i,
    {
        let ghost before = items.deep_view();
        proof {
            axiom_vec_index_decreases(*exprs, i as int);
        }
        let item = expr_to_json(&exprs[i]);
        items.push(item);
        assert(items.deep_view() =~= before.push(item@));
        i += 1;
    }
    assert(items.deep_view() =~= exprs_json(exprs.deep_view()));
    items
}

/// Renders an expression that may be missing.
fn optional_to_json(expr: &Option<Expr>) -> (json: Json)
    ensures
        json@ == optional_json(expr.deep_view()),
{
    match expr {
        Some(expr) => expr_to_json(expr),
        None => Json::Null,
    }
}

/// The strings `texts` as JSON strings, one by one.
fn strings_to_json(texts: &Vec<String>) -> (items: Vec<Json>)
    ensures
        items.deep_view() == strings_json(texts.deep_view()),
{
    let mut items: Vec<Json> = Vec::new();
    let mut i: usize = 0;
    while i < texts.len()
        invariant
            i <= texts.len(),
            items.deep_view() =~= strings_json(texts.deep_view()).take(i as int),
        decreases texts.len() - i,
    {
        let ghost before = items.deep_view();
        let item = Json::String(texts[i].clone());
        items.push(item);
        assert(items.deep_view() =~= before.push(item@));
        i += 1;
    }
    assert(items.deep_view() =~= strings_json(texts.deep_view()));
    items
}

/// Renders the statements `stmts`, one by one.
fn stmts_to_json(stmts: &Vec<Stmt>) -> (items: Vec<Json>)
    ensures
        items.deep_view() == stmts_json(stmts.deep_view()),
    decreases stmts,
{
    let mut items: Vec<Json> = Vec::new();
    let mut i: usize = 0;
    while i < stmts.len()
        invariant
            i <= stmts.len(),
            items.deep_view() =~= stmts_json(stmts.deep_view()).take(i as int),
        decreases stmts.len() - i,
    {
        let ghost before = items.deep_view();
        proof {
            axiom_vec_index_decreases(*stmts, i as int);
        }
        let item = stmt_to_json(&stmts[i]);
        items.push(item);
        assert(items.deep_view() =~= before.push(item@));
        i += 1;
    }
    assert(items.deep_view() =~= stmts_json(stmts.deep_view()));
    items
}

/// Renders a statement.
pub fn stmt_to_json(stmt: &Stmt) -> (json: Json)
    ensures
        json@ == stmt_json(stmt@),
    decreases stmt,
{
    match stmt {
        Stmt::VarDecl(var) => node2(
            "VarDecl",
            Member::new("name", Json::String(var.name.clone())),
            Member::new("initializer", optional_to_json(&var.initializer)),
        ),
        Stmt::ExprStmt(expr) => node1("ExprStmt", "expression", expr_to_json(expr)),
        Stmt::FnDecl(func) => {
            let names = Param::names(&func.params);
            let rtype = match &func.return_type {
                Some(token) => Json::String(token.lexeme.clone()),
                None => Json::Null,
            };
            let mut fields: Vec<Member> = Vec::new();
            fields.push(Member::new("name", Json::String(func.name.clone())));
            fields.push(Member::new("params", Json::array(strings_to_json(&names))));
            fields.push(Member::new("body", Json::array(stmts_to_json(&func.body))));
            fields.push(Member::new("rtype", rtype));
            proof {
                Stmt::lemma_fn_decl(*func);
                assert(stmt_json(stmt@)->Object_0[0].1->Object_0 =~= fields.deep_view());
            }
            add_name_to_json("FnDecl", Json::object(fields))
        },
        Stmt::Return(expr) => node1("Return", "expression", optional_to_json(expr)),
        Stmt::FileImport(path) => node1("FileImport", "path", Json::String(path.clone())),
        Stmt::LangImport(segments) => node1(
            "LangImport",
            "modules",
            Json::array(strings_to_json(segments)),
        ),
    }
}

/// The JSON document of a program: the array of its statements.
pub fn document(tree: &Vec<Stmt>) -> (json: Json)
    ensures
        json@ == program_json(tree.deep_view()),
{
    let root = stmts_to_json(tree);
    Json::array(root)
}

#[verifier::external_type_specification]
#[verifier::external_body]
pub struct ExJsonValue(tinyjson::JsonValue);

/// What a value of `tinyjson` holds. An object holds its members each under
/// its name, in no order.
pub enum Held {
    Null,
    String(Seq<char>),
    Array(Seq<Held>),
    Object(Map<Seq<char>, Held>),
    /// A number or a boolean: the inspector makes neither.
    Other,
}

/// What the value `value` of `tinyjson` holds.
pub uninterp spec fn held(value: JsonValue) -> Held;

/// What the map `map` holds: under each name, what the value there holds.
pub uninterp spec fn entries(map: HashMap<String, JsonValue>) -> Map<Seq<char>, Held>;

/// What the values `values` hold, one by one.
pub open spec fn held_all(values: Seq<JsonValue>) -> Seq<Held> {
    Seq::new(values.len(), |i: int| held(values[i]))
}

/// The names of the pairs `pairs`, each with what its value holds.
pub open spec fn held_pairs(pairs: Seq<(String, JsonValue)>) -> Seq<(Seq<char>, Held)> {
    Seq::new(pairs.len(), |i: int| (pairs[i].0@, held(pairs[i].1)))
}

/// That the map `map` is made of the pairs `pairs`: every name of a pair is
/// a name of the map, and under each name of the map stands the value of a
/// pair of that name. Where two pairs have one name, the value of either
/// may stand there.
pub open spec fn made_of(pairs: Seq<(Seq<char>, Held)>, map: Map<Seq<char>, Held>) -> bool {
    &&& forall|i: int| 0 <= i < pairs.len() ==> map.contains_key((#[trigger] pairs[i]).0)
    &&& forall|name: Seq<char>| #[trigger]
        map.contains_key(name) ==> exists|i: int|
            0 <= i < pairs.len() && #[trigger] pairs[i] == (name, map[name])
}

/// That `held` is what a value of `tinyjson` holds that stands for `json`:
/// the same null or text, the items of an array one by one, and for an
/// object the members each under its name. Where an object lists two
/// members under one name, either of them may stand under that name.
pub open spec fn carries(json: JsonView, held: Held) -> bool
    decreases json,
{
    match json {
        JsonView::Null => held == Held::Null,
        JsonView::String(text) => held == Held::String(text),
        JsonView::Array(items) => held matches Held::Array(values) && carries_items(items, values),
        JsonView::Object(members) => held matches Held::Object(map) && carries_members(
            members,
            map,
        ),
    }
}

/// That the values `values` stand for the items `items`, one by one.
pub open spec fn carries_items(items: Seq<JsonView>, values: Seq<Held>) -> bool
    decreases items,
{
    &&& values.len() == items.len()
    &&& forall|i: int| 0 <= i < items.len() ==> carries(#[trigger] items[i], values[i])
}

/// That the map `map` stands for the members `members`: every name of a
/// member is a name of the map, and under each name of the map stands a
/// value for a member of that name.
pub open spec fn carries_members(members: Seq<(Seq<char>, JsonView)>, map: Map<Seq<char>, Held>)
    -> bool
    decreases members,
{
    &&& forall|i: int| 0 <= i < members.len() ==> map.contains_key((#[trigger] members[i]).0)
    &&& forall|name: Seq<char>| #[trigger]
        map.contains_key(name) ==> exists|i: int|
            0 <= i < members.len() && (#[trigger] members[i]).0 == name && carries(
                members[i].1,
                map[name],
            )
}

/// `JsonValue::from` on the unit value: the value made holds the JSON
/// `null`.
#[verifier::external_body]
fn null_value() -> (value: JsonValue)
    ensures
        held(value) == Held::Null,
{
    JsonValue::from(())
}

/// `JsonValue::from` on a string: the value made holds that text as a JSON
/// string.
#[verifier::external_body]
fn string_value(text: String) -> (value: JsonValue)
    ensures
        held(value) == Held::String(text@),
{
    JsonValue::from(text)
}

/// `JsonValue::from` on a vector of values: the value made holds them, in
/// their order, as a JSON array.
#[verifier::external_body]
fn array_value(items: Vec<JsonValue>) -> (value: JsonValue)
    ensures
        held(value) == Held::Array(held_all(items@)),
{
    JsonValue::from(items)
}

/// `JsonValue::from` on a map from names to values: the value made holds
/// what the map holds, as a JSON object.
#[verifier::external_body]
fn object_value(members: HashMap<String, JsonValue>) -> (value: JsonValue)
    ensures
        held(value) == Held::Object(entries(members)),
{
    JsonValue::from(members)
}

/// `HashMap::from_iter` on a vector of pairs: the map made has the names of
/// the pairs, and under each name the value of a pair of that name. Of two
/// pairs with one name the library documents that one is dropped, and not
/// which.
#[verifier::external_body]
fn map_of(pairs: Vec<(String, JsonValue)>) -> (map: HashMap<String, JsonValue>)
    ensures
        made_of(held_pairs(pairs@), entries(map)),
{
    HashMap::from_iter(pairs)
}

/// That `held` holds no number and no boolean: it stands for a JSON value
/// of the library, which has neither.
pub open spec fn plain(held: Held) -> bool {
    exists|json: JsonView| carries(json, held)
}

/// That `text` is written as the generator writes an array of `len` items
/// with an indent: an empty one as `[]`, and another from an opening
/// bracket and a line feed to a line feed and the closing bracket.
pub open spec fn array_text(len: nat, text: Seq<char>) -> bool {
    if len == 0 {
        text == "[]"@
    } else {
        &&& text.len() > 2
        &&& text[0] == '['
        &&& text[1] == '\n'
        &&& text[text.len() - 2] == '\n'
        &&& text[text.len() - 1] == ']'
    }
}

/// The lower-case hexadecimal digit for `d`, where `0 <= d < 16`.
pub open spec fn hex_digit(d: int) -> char {
    "0123456789abcdef"@[d]
}

/// What the generator writes for the character `c` of a string: a quote,
/// a backslash, a backspace, a tab, a line feed, a form feed and a carriage
/// return as a backslash and one character, any other character below the
/// space as `\u00` and its two hexadecimal digits, and every other
/// character as it is.
pub open spec fn escape(c: char) -> Seq<char> {
    if c == '"' {
        seq!['\\', '"']
    } else if c == '\\' {
        seq!['\\', '\\']
    } else if c == '\u{8}' {
        seq!['\\', 'b']
    } else if c == '\t' {
        seq!['\\', 't']
    } else if c == '\n' {
        seq!['\\', 'n']
    } else if c == '\u{c}' {
        seq!['\\', 'f']
    } else if c == '\r' {
        seq!['\\', 'r']
    } else if (c as u32) < 0x20 {
        seq!['\\', 'u', '0', '0', hex_digit((c as int) / 16), hex_digit((c as int) % 16)]
    } else {
        seq![c]
    }
}

/// The characters of `text`, each as the generator writes it.
pub open spec fn escaped(text: Seq<char>) -> Seq<char>
    decreases text.len(),
{
    if text.len() == 0 {
        Seq::empty()
    } else {
        escaped(text.drop_last()) + escape(text.last())
    }
}

/// The string `text` as the generator writes it: between double quotes.
pub open spec fn quoted(text: Seq<char>) -> Seq<char> {
    seq!['"'] + escaped(text) + seq!['"']
}

/// The indent `indent`, `level` times.
pub open spec fn indents(indent: Seq<char>, level: nat) -> Seq<char>
    decreases level,
{
    if level == 0 {
        Seq::empty()
    } else {
        indents(indent, (level - 1) as nat) + indent
    }
}

/// The rows `rows`, a comma and a line feed between one and the next.
pub open spec fn joined(rows: Seq<Seq<char>>) -> Seq<char>
    decreases rows.len(),
{
    if rows.len() == 0 {
        Seq::empty()
    } else if rows.len() == 1 {
        rows[0]
    } else {
        joined(rows.drop_last()) + seq![',', '\n'] + rows.last()
    }
}

/// The rows `rows` between the brackets `open` and `close`: the opening
/// bracket, then from a new line on the rows, then on a new line the
/// closing bracket behind `level` indents.
pub open spec fn framed(open: char, close: char, rows: Seq<Seq<char>>, indent: Seq<char>, level: nat)
    -> Seq<char> {
    seq![open, '\n'] + joined(rows) + seq!['\n'] + indents(indent, level) + seq![close]
}

/// The rows of an array at depth `level`: each item's text behind
/// `level + 1` indents.
pub open spec fn item_rows(parts: Seq<Seq<char>>, indent: Seq<char>, level: nat) -> Seq<Seq<char>> {
    Seq::new(parts.len(), |i: int| indents(indent, level + 1) + parts[i])
}

/// The rows of an object at depth `level`: behind `level + 1` indents each
/// member's name as a string, a colon, a space and the text of its value.
pub open spec fn member_rows(
    names: Seq<Seq<char>>,
    parts: Seq<Seq<char>>,
    indent: Seq<char>,
    level: nat,
) -> Seq<Seq<char>> {
    Seq::new(
        names.len(),
        |i: int| indents(indent, level + 1) + quoted(names[i]) + seq![':', ' '] + parts[i],
    )
}

/// That `text` is a text that the generator writes for a value that holds
/// `held`, at depth `level` and with the indent `indent`.
///
/// - The null is written as `null`, and a string as [`quoted`].
/// - An array without items is written as `[]`, and another as its items,
///   each on a row of its own, between brackets.
/// - An object without members is written as `{}`, and another as its
///   members, each on a row of its own, between braces. The members stand
///   in some order, each name once: which order is not said.
/// - Of a number and of a boolean nothing is said.
pub open spec fn written_as(held: Held, indent: Seq<char>, level: nat, text: Seq<char>) -> bool
    decreases held,
{
    match held {
        Held::Null => text == "null"@,
        Held::String(contents) => text == quoted(contents),
        Held::Array(items) => if items.len() == 0 {
            text == "[]"@
        } else {
            exists|parts: Seq<Seq<char>>|
                {
                    &&& parts.len() == items.len()
                    &&& forall|i: int|
                        0 <= i < items.len() ==> written_as(
                            items[i],
                            indent,
                            level + 1,
                            #[trigger] parts[i],
                        )
                    &&& text == #[trigger] framed('[', ']', item_rows(parts, indent, level), indent, level)
                }
        },
        Held::Object(members) => exists|names: Seq<Seq<char>>, parts: Seq<Seq<char>>|
            {
                &&& names.no_duplicates()
                &&& forall|name: Seq<char>| members.contains_key(name) <==> names.contains(name)
                &&& parts.len() == names.len()
                &&& forall|i: int|
                    0 <= i < names.len() ==> members.contains_key(names[i]) && written_as(
                        members[names[i]],
                        indent,
                        level + 1,
                        #[trigger] parts[i],
                    )
                &&& text == if names.len() == 0 {
                    "{}"@
                } else {
                    #[trigger] framed('{', '}', member_rows(names, parts, indent, level), indent, level)
                }
            },
        Held::Other => true,
    }
}

/// `JsonGenerator::generate`, with `indent` as the indent, into a buffer:
/// the text of `value`, and nothing where the generator fails. It fails on
/// a number that JSON cannot write and on nothing else, so that it writes
/// every value that holds no number. The text is laid out as [`written_as`]
/// says, from depth 0 on; for an array that is between brackets, as
/// [`array_text`] says. The text is no function of the value: the generator
/// writes the members of an object in the order in which the hash map
/// yields them, which is not the same from run to run.
#[verifier::external_body]
fn generate(value: &JsonValue, indent: &str) -> (written: Option<String>)
    ensures
        plain(held(*value)) ==> written is Some,
        written matches Some(text) ==> written_as(held(*value), indent@, 0, text@),
        written matches Some(text) ==> (held(*value) matches Held::Array(items) ==> array_text(
            items.len(),
            text@,
        )),
{
    let mut buf = vec![];
    let mut gen = JsonGenerator::new(&mut buf).indent(indent);
    gen.generate(value).ok()?;
    String::from_utf8(buf).ok()
}

/// The value of `tinyjson` for `json`.
fn to_value(json: &Json) -> (value: JsonValue)
    ensures
        carries(json@, held(value)),
    decreases json,
{
    match json {
        Json::Null => null_value(),
        Json::String(text) => string_value(text.clone()),
        Json::Array(items) => {
            let values = to_values(items);
            assert(json@->Array_0 =~= items.deep_view());
            array_value(values)
        },
        Json::Object(members) => {
            let map = to_map(members);
            assert(json@->Object_0 =~= members.deep_view());
            object_value(map)
        },
    }
}

/// The values of `tinyjson` for `items`, in order.
fn to_values(items: &Vec<Json>) -> (values: Vec<JsonValue>)
    ensures
        carries_items(items.deep_view(), held_all(values@)),
    decreases items,
{
    let mut values: Vec<JsonValue> = Vec::new();
    let mut i: usize = 0;
    while i < items.len()
        invariant
            i <= items.len(),
            values.len() == i,
            forall|k: int| 0 <= k < i ==> carries(items@[k]@, held(#[trigger] values@[k])),
        decreases items.len() - i,
    {
        proof {
            axiom_vec_index_decreases(*items, i as int);
        }
        values.push(to_value(&items[i]));
        i += 1;
    }
    values
}

/// The map from the names of `members` to the values of `tinyjson` for
/// them.
fn to_map(members: &Vec<Member>) -> (map: HashMap<String, JsonValue>)
    ensures
        carries_members(members.deep_view(), entries(map)),
    decreases members,
{
    let mut pairs: Vec<(String, JsonValue)> = Vec::new();
    let mut i: usize = 0;
    while i < members.len()
        invariant
            i <= members.len(),
            pairs.len() == i,
            forall|k: int|
                0 <= k < i ==> (#[trigger] pairs@[k]).0@ == members@[k].key@ && carries(
                    members@[k].value@,
                    held(pairs@[k].1),
                ),
        decreases members.len() - i,
    {
        proof {
            axiom_vec_index_decreases(*members, i as int);
        }
        let value = to_value(&members[i].value);
        pairs.push((members[i].key.clone(), value));
        i += 1;
    }
    let map = map_of(pairs);
    proof {
        let listed = members.deep_view();
        let made = held_pairs(pairs@);
        let held_map = entries(map);
        assert forall|k: int| 0 <= k < listed.len() implies held_map.contains_key(
            (#[trigger] listed[k]).0,
        ) by {
            assert(made[k].0 == listed[k].0);
        }
        assert forall|name: Seq<char>| #[trigger] held_map.contains_key(name) implies exists|k: int|
            0 <= k < listed.len() && (#[trigger] listed[k]).0 == name && carries(
                listed[k].1,
                held_map[name],
            ) by {
            let k = choose|k: int| 0 <= k < made.len() && #[trigger] made[k] == (name, held_map[name]);
            assert(pairs@[k].0@ == members@[k].key@);
            assert(listed[k].0 == name && carries(listed[k].1, held_map[name]));
        }
    }
    map
}

/// The text that the generator wrote, and the empty text where it wrote
/// none.
pub fn written_or_empty(written: Option<String>) -> (text: String)
    ensures
        text@ == match written {
            Some(written) => written@,
            None => Seq::empty(),
        },
{
    match written {
        Some(written) => written,
        None => String::new(),
    }
}

/// Writes a program as an indented JSON document, with one space as the
/// indent. The text is what the generator writes for a value that stands
/// for [`document`] of the program: every node on rows of its own, the
/// members of an object in some order. A program without statements is
/// written as `[]`, and another between brackets.
pub fn inspect(tree: Vec<Stmt>) -> (text: String)
    ensures
        exists|held: Held|
            carries(program_json(tree.deep_view()), held) && #[trigger] written_as(
                held,
                " "@,
                0,
                text@,
            ),
        array_text(tree@.len(), text@),
{
    let json = document(&tree);
    let value = to_value(&json);
    assert(plain(held(value)));
    written_or_empty(generate(&value, " "))
}

} // verus!
