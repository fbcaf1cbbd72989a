use std::collections::HashMap;

use gecko::error::LineInfo;
use gecko::inspector::{
    add_name_to_json, document, expr_to_json, inspect, stmt_to_json, type_to_string,
    written_or_empty, Json, Member,
};
use gecko::lexer::token::Token;
use gecko::lexer::ttype::TType;
use gecko::lexer::Lexer;
use gecko::parser::nodes::expr::{
    BinaryExpr, CallExpr, Expr, GetExpr, GroupingExpr, LiteralExpr, Type, UnaryExpr,
};
use gecko::parser::nodes::stmt::{Fn, Stmt, Var};
use gecko::parser::nodes::Param;
use gecko::parser::Parser;
use tinyjson::JsonValue;

fn tree_of(source: &str) -> Vec<Stmt> {
    let tokens = Lexer::new(String::from(source)).scan_tokens().unwrap();
    Parser::new(tokens).parse().unwrap()
}

fn string(text: &str) -> Json {
    Json::String(String::from(text))
}

fn object(members: Vec<(&str, Json)>) -> Json {
    Json::Object(members.into_iter().map(|(key, value)| Member::new(key, value)).collect())
}

fn node(kind: &str, fields: Vec<(&str, Json)>) -> Json {
    object(vec![(kind, object(fields))])
}

fn literal(text: &str) -> Json {
    node("Literal", vec![("value", string(text))])
}

fn token(kind: TType, lexeme: &str) -> Token {
    Token::new(kind, String::from(lexeme), LineInfo::new(1, 0, lexeme.len()))
}

fn name(text: &str) -> Expr {
    Expr::Literal(LiteralExpr::new(Type::Iden(String::from(text))))
}

fn value_object(members: Vec<(&str, JsonValue)>) -> JsonValue {
    let map: HashMap<String, JsonValue> =
        members.into_iter().map(|(key, value)| (String::from(key), value)).collect();
    JsonValue::from(map)
}

fn value_string(text: &str) -> JsonValue {
    JsonValue::from(String::from(text))
}

#[test]
fn literal_values_as_text() {
    assert_eq!(type_to_string(&Type::Int(0)), "Int(0)");
    assert_eq!(type_to_string(&Type::Int(1234567890)), "Int(1234567890)");
    assert_eq!(type_to_string(&Type::Int(-42)), "Int(-42)");
    assert_eq!(type_to_string(&Type::Int(i64::MAX)), "Int(9223372036854775807)");
    assert_eq!(type_to_string(&Type::Int(i64::MIN)), "Int(-9223372036854775808)");
    assert_eq!(type_to_string(&Type::Float(String::from("3.5"))), "Float(3.5)");
    assert_eq!(type_to_string(&Type::String(String::from("a b"))), "String(a b)");
    assert_eq!(type_to_string(&Type::Bool(true)), "Bool(true)");
    assert_eq!(type_to_string(&Type::Bool(false)), "Bool(false)");
    assert_eq!(type_to_string(&Type::Iden(String::from("x"))), "Iden(x)");
    assert_eq!(type_to_string(&Type::Void), "Void");
    assert_eq!(type_to_string(&Type::Unknown), "Unknown");
}

#[test]
fn name_wraps_a_value() {
    assert_eq!(add_name_to_json("k", Json::Null), object(vec![("k", Json::Null)]));
}

#[test]
fn let_statement_as_json() {
    let tree = tree_of("let age = 1 + 1;");
    let sum = node(
        "Binary",
        vec![("left", literal("Float(1)")), ("operator", string("+")), ("right", literal("Float(1)"))],
    );
    let expected = node("VarDecl", vec![("name", string("age")), ("initializer", sum)]);
    assert_eq!(stmt_to_json(&tree[0]), expected);
    assert_eq!(document(&tree), Json::Array(vec![node(
        "VarDecl",
        vec![
            ("name", string("age")),
            (
                "initializer",
                node(
                    "Binary",
                    vec![
                        ("left", literal("Float(1)")),
                        ("operator", string("+")),
                        ("right", literal("Float(1)")),
                    ],
                ),
            ),
        ],
    )]));
}

#[test]
fn missing_parts_are_null() {
    let declared = Stmt::VarDecl(Var::new(String::from("x"), None));
    assert_eq!(
        stmt_to_json(&declared),
        node("VarDecl", vec![("name", string("x")), ("initializer", Json::Null)])
    );
    assert_eq!(
        stmt_to_json(&Stmt::Return(None)),
        node("Return", vec![("expression", Json::Null)])
    );
    assert_eq!(
        stmt_to_json(&Stmt::Return(Some(name("x")))),
        node("Return", vec![("expression", literal("Iden(x)"))])
    );
}

#[test]
fn every_kind_of_expression_as_json() {
    let minus = token(TType::MINUS, "-");
    let unary = Expr::Unary(UnaryExpr::new(minus, Box::new(name("a"))));
    assert_eq!(
        expr_to_json(&unary),
        node("Unary", vec![("operator", string("-")), ("right", literal("Iden(a)"))])
    );
    let group = Expr::Grouping(GroupingExpr::new(Box::new(name("a"))));
    assert_eq!(expr_to_json(&group), node("Grouping", vec![("expression", literal("Iden(a)"))]));
    let member = Expr::Get(GetExpr::new(Box::new(name("a")), token(TType::Identifier(String::from("b")), "b")));
    assert_eq!(
        expr_to_json(&member),
        node("Get", vec![("object", literal("Iden(a)")), ("name", string("b"))])
    );
    let call = Expr::Call(CallExpr::new(
        Box::new(name("f")),
        token(TType::RPAREN, ")"),
        vec![name("x"), Expr::Literal(LiteralExpr::new(Type::Bool(true)))],
    ));
    assert_eq!(
        expr_to_json(&call),
        node(
            "Call",
            vec![
                ("callee", literal("Iden(f)")),
                ("paren", string(")")),
                ("args", Json::Array(vec![literal("Iden(x)"), literal("Bool(true)")])),
            ],
        )
    );
    let star = token(TType::STAR, "*");
    let product = Expr::Binary(BinaryExpr::new(
        Box::new(name("a")),
        star,
        Box::new(Expr::Literal(LiteralExpr::new(Type::String(String::from("s"))))),
    ));
    assert_eq!(
        expr_to_json(&product),
        node(
            "Binary",
            vec![
                ("left", literal("Iden(a)")),
                ("operator", string("*")),
                ("right", literal("String(s)")),
            ],
        )
    );
}

#[test]
fn function_and_imports_as_json() {
    let int = token(TType::Identifier(String::from("int")), "int");
    let params = vec![
        Param::new(String::from("a"), int.clone()),
        Param::new(String::from("b"), int.clone()),
    ];
    let body = vec![Stmt::Return(Some(name("a"))), Stmt::ExprStmt(name("b"))];
    let typed = Stmt::FnDecl(Fn::new(String::from("f"), params, body, Some(int)));
    assert_eq!(
        stmt_to_json(&typed),
        node(
            "FnDecl",
            vec![
                ("name", string("f")),
                ("params", Json::Array(vec![string("a"), string("b")])),
                (
                    "body",
                    Json::Array(vec![
                        node("Return", vec![("expression", literal("Iden(a)"))]),
                        node("ExprStmt", vec![("expression", literal("Iden(b)"))]),
                    ]),
                ),
                ("rtype", string("int")),
            ],
        )
    );
    let plain = Stmt::FnDecl(Fn::new(String::from("g"), vec![], vec![], None));
    assert_eq!(
        stmt_to_json(&plain),
        node(
            "FnDecl",
            vec![
                ("name", string("g")),
                ("params", Json::Array(vec![])),
                ("body", Json::Array(vec![])),
                ("rtype", Json::Null),
            ],
        )
    );
    assert_eq!(
        stmt_to_json(&Stmt::FileImport(String::from("a.gk"))),
        node("FileImport", vec![("path", string("a.gk"))])
    );
    assert_eq!(
        stmt_to_json(&Stmt::LangImport(vec![String::from("std"), String::from("io")])),
        node("LangImport", vec![("modules", Json::Array(vec![string("std"), string("io")]))])
    );
}

#[test]
fn empty_program_is_an_empty_array() {
    assert_eq!(document(&vec![]), Json::Array(vec![]));
    assert_eq!(inspect(vec![]), "[]");
}

#[test]
fn text_of_a_small_program() {
    let expected = "[\n {\n  \"ExprStmt\": {\n   \"expression\": {\n    \"Literal\": {\n     \"value\": \"Iden(x)\"\n    }\n   }\n  }\n }\n]";
    assert_eq!(inspect(tree_of("x ;")), expected);
}

#[test]
fn text_holds_the_document() {
    let text = inspect(tree_of("let age = 1 + 2.5; return \"s\" ;"));
    let parsed: JsonValue = text.parse().unwrap();
    let number = |numeral: &str| {
        value_object(vec![(
            "Literal",
            value_object(vec![("value", value_string(numeral))]),
        )])
    };
    let sum = value_object(vec![(
        "Binary",
        value_object(vec![
            ("left", number("Float(1)")),
            ("operator", value_string("+")),
            ("right", number("Float(2.5)")),
        ]),
    )]);
    let declared = value_object(vec![(
        "VarDecl",
        value_object(vec![("name", value_string("age")), ("initializer", sum)]),
    )]);
    let returned = value_object(vec![(
        "Return",
        value_object(vec![(
            "expression",
            value_object(vec![(
                "Literal",
                value_object(vec![("value", value_string("String(s)"))]),
            )]),
        )]),
    )]);
    assert_eq!(parsed, JsonValue::from(vec![declared, returned]));
}

#[test]
fn text_holds_null_for_what_is_missing() {
    let text = inspect(vec![Stmt::Return(None)]);
    let parsed: JsonValue = text.parse().unwrap();
    let expected = value_object(vec![(
        "Return",
        value_object(vec![("expression", JsonValue::from(()))]),
    )]);
    assert_eq!(parsed, JsonValue::from(vec![expected]));
}

#[test]
fn text_holds_arrays_and_members_of_a_function() {
    let int = token(TType::Identifier(String::from("int")), "int");
    let params = vec![
        Param::new(String::from("a"), int.clone()),
        Param::new(String::from("b"), int),
    ];
    let body = vec![Stmt::Return(None), Stmt::FileImport(String::from("x.gk"))];
    let text = inspect(vec![Stmt::FnDecl(Fn::new(String::from("f"), params, body, None))]);
    let parsed: JsonValue = text.parse().unwrap();
    let returned = value_object(vec![(
        "Return",
        value_object(vec![("expression", JsonValue::from(()))]),
    )]);
    let imported = value_object(vec![(
        "FileImport",
        value_object(vec![("path", value_string("x.gk"))]),
    )]);
    let declared = value_object(vec![(
        "FnDecl",
        value_object(vec![
            ("name", value_string("f")),
            ("params", JsonValue::from(vec![value_string("a"), value_string("b")])),
            ("body", JsonValue::from(vec![returned, imported])),
            ("rtype", JsonValue::from(())),
        ]),
    )]);
    assert_eq!(parsed, JsonValue::from(vec![declared]));
}

#[test]
fn text_of_the_generator_or_none() {
    assert_eq!(written_or_empty(Some(String::from("[]"))), "[]");
    assert_eq!(written_or_empty(Some(String::new())), "");
    assert_eq!(written_or_empty(None), "");
}

#[test]
fn text_escapes_what_a_string_holds() {
    let path = "a\"b\\c\n\t\r\u{8}\u{c}\u{1}\u{1f}\u{7f}\u{e9}\u{4e16}";
    let text = inspect(vec![Stmt::FileImport(String::from(path))]);
    let expected = "[\n {\n  \"FileImport\": {\n   \"path\": \"a\\\"b\\\\c\\n\\t\\r\\b\\f\\u0001\\u001f\u{7f}\u{e9}\u{4e16}\"\n  }\n }\n]";
    assert_eq!(text, expected);
    let parsed: JsonValue = text.parse().unwrap();
    let imported = value_object(vec![(
        "FileImport",
        value_object(vec![("path", value_string(path))]),
    )]);
    assert_eq!(parsed, JsonValue::from(vec![imported]));
}

#[test]
fn text_lays_out_nested_arrays_and_empty_ones() {
    let text = inspect(vec![
        Stmt::LangImport(vec![String::from("a"), String::from("b")]),
        Stmt::LangImport(vec![]),
    ]);
    let expected = "[\n {\n  \"LangImport\": {\n   \"modules\": [\n    \"a\",\n    \"b\"\n   ]\n  }\n },\n {\n  \"LangImport\": {\n   \"modules\": []\n  }\n }\n]";
    assert_eq!(text, expected);
}

#[test]
fn text_of_an_object_without_members() {
    assert_eq!(inspect(vec![]), "[]");
    let parsed: JsonValue = inspect(vec![Stmt::Return(None)]).parse().unwrap();
    assert_eq!(
        parsed,
        JsonValue::from(vec![value_object(vec![(
            "Return",
            value_object(vec![("expression", JsonValue::from(()))]),
        )])])
    );
}
