use gecko::error::{Error, LineInfo};
use gecko::lexer::token::Token;
use gecko::lexer::ttype::TType;
use gecko::lexer::Lexer;
use gecko::parser::nodes::expr::{
    BinaryExpr, CallExpr, Expr, GetExpr, GroupingExpr, LiteralExpr, Type, UnaryExpr,
};
use gecko::parser::nodes::stmt::{Fn, Stmt, Var};
use gecko::parser::nodes::Param;
use gecko::parser::Parser;

/// Tokens of the given kinds, each one byte wide and one byte after the
/// other, with the end marker behind them.
fn stream(kinds: Vec<TType>) -> Vec<Token> {
    let mut tokens = Vec::new();
    for (index, kind) in kinds.into_iter().enumerate() {
        let lexeme = match &kind {
            TType::Identifier(text) | TType::Number(text) | TType::String(text) => text.clone(),
            other => other.tag(),
        };
        tokens.push(Token::new(kind, lexeme, LineInfo::new(1, index, index + 1)));
    }
    let end = tokens.len();
    tokens.push(Token::new(TType::EOF, String::new(), LineInfo::new(1, end, end)));
    tokens
}

fn at(kind: TType, index: usize) -> Token {
    let lexeme = match &kind {
        TType::Identifier(text) | TType::Number(text) | TType::String(text) => text.clone(),
        other => other.tag(),
    };
    Token::new(kind, lexeme, LineInfo::new(1, index, index + 1))
}

fn id(text: &str) -> TType {
    TType::Identifier(String::from(text))
}

fn num(text: &str) -> TType {
    TType::Number(String::from(text))
}

fn text(contents: &str) -> TType {
    TType::String(String::from(contents))
}

fn number(text: &str) -> Expr {
    Expr::Literal(LiteralExpr::new(Type::Float(String::from(text))))
}

fn name(text: &str) -> Expr {
    Expr::Literal(LiteralExpr::new(Type::Iden(String::from(text))))
}

fn binary(left: Expr, operator: Token, right: Expr) -> Expr {
    Expr::Binary(BinaryExpr::new(Box::new(left), operator, Box::new(right)))
}

fn parse(tokens: Vec<Token>) -> Result<Vec<Stmt>, Error> {
    Parser::new(tokens).parse()
}

fn parse_kinds(kinds: Vec<TType>) -> Result<Vec<Stmt>, Error> {
    parse(stream(kinds))
}

fn parse_source(source: &str) -> Result<Vec<Stmt>, Error> {
    parse(Lexer::new(String::from(source)).scan_tokens().unwrap())
}

fn failure(kinds: Vec<TType>) -> (String, usize) {
    let error = parse_kinds(kinds).unwrap_err();
    assert!(error.notes.is_empty());
    assert_eq!(error.line_info.line, 1);
    (error.message, error.line_info.start)
}

fn float_of(expr: &Expr) -> f64 {
    match expr {
        Expr::Literal(LiteralExpr { value: Type::Float(text) }) => text.parse::<f64>().unwrap(),
        _ => panic!("not a number"),
    }
}

#[test]
fn end_marker_alone_is_an_empty_program() {
    assert_eq!(parse_kinds(vec![]), Ok(vec![]));
}

#[test]
fn multiplication_binds_tighter_than_addition() {
    let statements = parse_source("1 + 2 * 3;").unwrap();
    let plus = Token::new(TType::PLUS, String::from("+"), LineInfo::new(1, 2, 3));
    let star = Token::new(TType::STAR, String::from("*"), LineInfo::new(1, 6, 7));
    assert_eq!(
        statements,
        vec![Stmt::ExprStmt(binary(number("1"), plus, binary(number("2"), star, number("3"))))]
    );
    match &statements[0] {
        Stmt::ExprStmt(Expr::Binary(sum)) => assert_eq!(float_of(&sum.left), 1.0),
        _ => panic!("not a sum"),
    }
}

#[test]
fn multiplication_on_the_left_of_addition() {
    let statements = parse_source("1 * 2 + 3;").unwrap();
    let star = Token::new(TType::STAR, String::from("*"), LineInfo::new(1, 2, 3));
    let plus = Token::new(TType::PLUS, String::from("+"), LineInfo::new(1, 6, 7));
    assert_eq!(
        statements,
        vec![Stmt::ExprStmt(binary(binary(number("1"), star, number("2")), plus, number("3")))]
    );
}

#[test]
fn let_statement_end_to_end() {
    let statements = parse_source("let age = 1 + 1;").unwrap();
    let plus = Token::new(TType::PLUS, String::from("+"), LineInfo::new(1, 12, 13));
    assert_eq!(
        statements,
        vec![Stmt::VarDecl(Var::new(
            String::from("age"),
            Some(binary(number("1"), plus, number("1"))),
        ))]
    );
}

#[test]
fn let_without_initializer() {
    assert_eq!(
        parse_kinds(vec![TType::LET, id("x"), TType::SEMICOLON]),
        Ok(vec![Stmt::VarDecl(Var::new(String::from("x"), None))])
    );
}

#[test]
fn let_without_name_fails_at_the_equals_sign() {
    let error = parse_source("let = 3;").unwrap_err();
    assert_eq!(error.message, "Expect variable name.");
    assert_eq!(error.line_info, LineInfo::new(1, 4, 5));
    assert!(error.notes.is_empty());
}

#[test]
fn call_of_a_member() {
    let statements = parse_kinds(vec![
        id("foo"),
        TType::DOT,
        id("bar"),
        TType::LPAREN,
        num("1"),
        TType::COMMA,
        num("2"),
        TType::RPAREN,
        TType::SEMICOLON,
    ])
    .unwrap();
    let member = Expr::Get(GetExpr::new(Box::new(name("foo")), at(id("bar"), 2)));
    let call = Expr::Call(CallExpr::new(
        Box::new(member),
        at(TType::RPAREN, 7),
        vec![number("1"), number("2")],
    ));
    assert_eq!(statements, vec![Stmt::ExprStmt(call)]);
}

#[test]
fn call_without_arguments_and_call_of_a_call() {
    let statements = parse_kinds(vec![
        id("f"),
        TType::LPAREN,
        TType::RPAREN,
        TType::LPAREN,
        id("x"),
        TType::RPAREN,
        TType::DOT,
        id("y"),
        TType::SEMICOLON,
    ])
    .unwrap();
    let first = Expr::Call(CallExpr::new(Box::new(name("f")), at(TType::RPAREN, 2), vec![]));
    let second = Expr::Call(CallExpr::new(Box::new(first), at(TType::RPAREN, 5), vec![name("x")]));
    let member = Expr::Get(GetExpr::new(Box::new(second), at(id("y"), 7)));
    assert_eq!(statements, vec![Stmt::ExprStmt(member)]);
}

#[test]
fn subtraction_groups_to_the_right() {
    let statements = parse_source("1 - 2 - 3;").unwrap();
    let first = Token::new(TType::MINUS, String::from("-"), LineInfo::new(1, 2, 3));
    let second = Token::new(TType::MINUS, String::from("-"), LineInfo::new(1, 6, 7));
    assert_eq!(
        statements,
        vec![Stmt::ExprStmt(binary(number("1"), first, binary(number("2"), second, number("3"))))]
    );
}

#[test]
fn division_groups_to_the_right() {
    let statements = parse_source("8 / 4 / 2;").unwrap();
    let first = Token::new(TType::SLASH, String::from("/"), LineInfo::new(1, 2, 3));
    let second = Token::new(TType::SLASH, String::from("/"), LineInfo::new(1, 6, 7));
    assert_eq!(
        statements,
        vec![Stmt::ExprStmt(binary(number("8"), first, binary(number("4"), second, number("2"))))]
    );
}

#[test]
fn equality_groups_to_the_left() {
    let statements = parse_source("1 == 2 != 3;").unwrap();
    let first = Token::new(TType::EQEQ, String::from("=="), LineInfo::new(1, 2, 4));
    let second = Token::new(TType::BANGEQ, String::from("!="), LineInfo::new(1, 7, 9));
    assert_eq!(
        statements,
        vec![Stmt::ExprStmt(binary(binary(number("1"), first, number("2")), second, number("3")))]
    );
}

#[test]
fn relational_operators_are_not_part_of_the_grammar() {
    let error = parse_source("1 < 2;").unwrap_err();
    assert_eq!(error.message, "Expect ';' after expression.");
    assert_eq!(error.line_info, LineInfo::new(1, 0, 1));
}

#[test]
fn unary_operators_nest() {
    let statements = parse_kinds(vec![TType::BANG, TType::MINUS, id("x"), TType::SEMICOLON]);
    let inner = Expr::Unary(UnaryExpr::new(at(TType::MINUS, 1), Box::new(name("x"))));
    let outer = Expr::Unary(UnaryExpr::new(at(TType::BANG, 0), Box::new(inner)));
    assert_eq!(statements, Ok(vec![Stmt::ExprStmt(outer)]));
}

#[test]
fn grouping_and_literals() {
    let statements = parse_source("( true ) ; false ; \"s\"; x ;").unwrap();
    assert_eq!(
        statements,
        vec![
            Stmt::ExprStmt(Expr::Grouping(GroupingExpr::new(Box::new(Expr::Literal(
                LiteralExpr::new(Type::Bool(true))
            ))))),
            Stmt::ExprStmt(Expr::Literal(LiteralExpr::new(Type::Bool(false)))),
            Stmt::ExprStmt(Expr::Literal(LiteralExpr::new(Type::String(String::from("s"))))),
            Stmt::ExprStmt(name("x")),
        ]
    );
}

#[test]
fn grouping_overrides_precedence() {
    let statements = parse_source("(1 + 2) * 3;").unwrap();
    let plus = Token::new(TType::PLUS, String::from("+"), LineInfo::new(1, 3, 4));
    let star = Token::new(TType::STAR, String::from("*"), LineInfo::new(1, 8, 9));
    let sum = Expr::Grouping(GroupingExpr::new(Box::new(binary(number("1"), plus, number("2")))));
    assert_eq!(statements, vec![Stmt::ExprStmt(binary(sum, star, number("3")))]);
}

#[test]
fn return_with_and_without_value() {
    assert_eq!(
        parse_source("return ; return 1;"),
        Ok(vec![Stmt::Return(None), Stmt::Return(Some(number("1")))])
    );
}

#[test]
fn import_of_a_file_and_of_a_module() {
    assert_eq!(
        parse_source("import \"lib/io.gk\";"),
        Ok(vec![Stmt::FileImport(String::from("lib/io.gk"))])
    );
    assert_eq!(
        parse_kinds(vec![
            TType::IMPORT,
            id("std"),
            TType::DOT,
            id("io"),
            TType::DOT,
            id("file"),
            TType::SEMICOLON,
        ]),
        Ok(vec![Stmt::LangImport(vec![
            String::from("std"),
            String::from("io"),
            String::from("file"),
        ])])
    );
    assert_eq!(
        parse_kinds(vec![TType::IMPORT, id("std"), TType::SEMICOLON]),
        Ok(vec![Stmt::LangImport(vec![String::from("std")])])
    );
}

#[test]
fn function_declaration() {
    let statements = parse_kinds(vec![
        TType::FN,
        id("add"),
        TType::LPAREN,
        id("a"),
        TType::COLON,
        id("int"),
        TType::COMMA,
        id("b"),
        TType::COLON,
        id("int"),
        TType::RPAREN,
        TType::ARROW,
        id("int"),
        TType::LBRACE,
        TType::RETURN,
        id("a"),
        TType::PLUS,
        id("b"),
        TType::SEMICOLON,
        TType::RBRACE,
    ])
    .unwrap();
    let body = vec![Stmt::Return(Some(binary(name("a"), at(TType::PLUS, 16), name("b"))))];
    let params = vec![
        Param::new(String::from("a"), at(id("int"), 5)),
        Param::new(String::from("b"), at(id("int"), 9)),
    ];
    let declared = Fn::new(String::from("add"), params, body, Some(at(id("int"), 12)));
    assert_eq!(statements, vec![Stmt::FnDecl(declared)]);
}

#[test]
fn function_without_parameters_or_type_and_nested_function() {
    let statements = parse_kinds(vec![
        TType::FN,
        id("outer"),
        TType::LPAREN,
        TType::RPAREN,
        TType::LBRACE,
        TType::FN,
        id("inner"),
        TType::LPAREN,
        TType::RPAREN,
        TType::LBRACE,
        TType::RBRACE,
        TType::LET,
        id("x"),
        TType::SEMICOLON,
        TType::RBRACE,
        id("y"),
        TType::SEMICOLON,
    ])
    .unwrap();
    let inner = Stmt::FnDecl(Fn::new(String::from("inner"), vec![], vec![], None));
    let body = vec![inner, Stmt::VarDecl(Var::new(String::from("x"), None))];
    assert_eq!(
        statements,
        vec![
            Stmt::FnDecl(Fn::new(String::from("outer"), vec![], body, None)),
            Stmt::ExprStmt(name("y")),
        ]
    );
}

#[test]
fn any_token_names_a_type() {
    let statements = parse_kinds(vec![
        TType::FN,
        id("f"),
        TType::LPAREN,
        id("a"),
        TType::COLON,
        TType::LET,
        TType::RPAREN,
        TType::ARROW,
        num("1"),
        TType::LBRACE,
        TType::RBRACE,
    ])
    .unwrap();
    let params = vec![Param::new(String::from("a"), at(TType::LET, 5))];
    assert_eq!(
        statements,
        vec![Stmt::FnDecl(Fn::new(String::from("f"), params, vec![], Some(at(num("1"), 8))))]
    );
}

#[test]
fn missing_expression() {
    assert_eq!(failure(vec![TType::SEMICOLON]), (String::from("Expect expression"), 0));
    assert_eq!(failure(vec![num("1"), TType::PLUS]), (String::from("Expect expression"), 2));
    let error = parse_kinds(vec![TType::LET, id("x"), TType::EQ]).unwrap_err();
    assert_eq!(error.message, "Expect expression");
    assert_eq!(error.line_info, LineInfo::new(1, 3, 3));
}

#[test]
fn missing_closing_parenthesis_points_at_the_last_token() {
    assert_eq!(
        failure(vec![TType::LPAREN, num("1"), TType::SEMICOLON]),
        (String::from("Expect ')' after expression"), 1)
    );
}

#[test]
fn missing_semicolons() {
    assert_eq!(
        failure(vec![num("1"), num("2")]),
        (String::from("Expect ';' after expression."), 0)
    );
    assert_eq!(
        failure(vec![TType::LET, id("x"), num("2")]),
        (String::from("Expect ';' after variable declaration."), 2)
    );
    assert_eq!(
        failure(vec![TType::RETURN, num("1"), TType::RBRACE]),
        (String::from("Expect ';' after return value."), 2)
    );
    assert_eq!(
        failure(vec![TType::IMPORT, text("a"), TType::DOT]),
        (String::from("Expect ';' after import path."), 2)
    );
    assert_eq!(
        failure(vec![TType::IMPORT, id("a"), TType::COMMA]),
        (String::from("Expect ';' after import path."), 2)
    );
}

#[test]
fn import_without_path() {
    assert_eq!(
        failure(vec![TType::IMPORT, TType::SEMICOLON]),
        (String::from("Expect import path."), 1)
    );
    assert_eq!(
        failure(vec![TType::IMPORT, id("a"), TType::DOT, TType::SEMICOLON]),
        (String::from("Expect import path."), 3)
    );
}

#[test]
fn member_without_name() {
    assert_eq!(
        failure(vec![id("a"), TType::DOT, num("1"), TType::SEMICOLON]),
        (String::from("Expect property name after '.'."), 2)
    );
}

#[test]
fn call_without_closing_parenthesis() {
    assert_eq!(
        failure(vec![id("f"), TType::LPAREN, num("1"), TType::SEMICOLON]),
        (String::from("Expect ')' after arguments."), 3)
    );
}

#[test]
fn function_declaration_errors() {
    assert_eq!(
        failure(vec![TType::FN, TType::LPAREN]),
        (String::from("Expect function name."), 1)
    );
    assert_eq!(
        failure(vec![TType::FN, id("f"), TType::LBRACE]),
        (String::from("Expect '(' after function name."), 2)
    );
    assert_eq!(
        failure(vec![TType::FN, id("f"), TType::LPAREN, num("1")]),
        (String::from("Expect parameter name."), 3)
    );
    assert_eq!(
        failure(vec![TType::FN, id("f"), TType::LPAREN, id("a"), TType::COMMA]),
        (String::from("Expect type after param"), 4)
    );
    assert_eq!(
        failure(vec![TType::FN, id("f"), TType::LPAREN, id("a"), TType::COLON, id("t"), TType::LBRACE]),
        (String::from("Expect ')' after parameters."), 6)
    );
    assert_eq!(
        failure(vec![TType::FN, id("f"), TType::LPAREN, TType::RPAREN, TType::SEMICOLON]),
        (String::from("Expect '{' before function body."), 4)
    );
    let error = parse_kinds(vec![TType::FN, id("f"), TType::LPAREN, TType::RPAREN, TType::LBRACE])
        .unwrap_err();
    assert_eq!(error.message, "Expect '}' after block.");
    assert_eq!(error.line_info, LineInfo::new(1, 5, 5));
}

#[test]
fn type_missing_at_the_end_of_the_tokens() {
    let error = parse_kinds(vec![TType::FN, id("f"), TType::LPAREN, id("a"), TType::COLON])
        .unwrap_err();
    assert_eq!(error.message, "Expect ')' after parameters.");
    assert_eq!(error.line_info, LineInfo::new(1, 5, 5));
}

fn call_with(arguments: usize) -> Vec<TType> {
    let mut kinds = vec![id("f"), TType::LPAREN];
    for index in 0..arguments {
        if index > 0 {
            kinds.push(TType::COMMA);
        }
        kinds.push(num("1"));
    }
    kinds.push(TType::RPAREN);
    kinds.push(TType::SEMICOLON);
    kinds
}

#[test]
fn a_call_takes_255_arguments() {
    let statements = parse_kinds(call_with(255)).unwrap();
    match &statements[0] {
        Stmt::ExprStmt(Expr::Call(call)) => assert_eq!(call.args.len(), 255),
        _ => panic!("not a call"),
    }
}

#[test]
fn a_call_with_256_arguments_fails() {
    assert_eq!(
        failure(call_with(256)),
        (String::from("Cannot have more than 255 arguments"), 2 + 2 * 255)
    );
}

fn function_with(parameters: usize) -> Vec<TType> {
    let mut kinds = vec![TType::FN, id("f"), TType::LPAREN];
    for index in 0..parameters {
        if index > 0 {
            kinds.push(TType::COMMA);
        }
        kinds.push(id("p"));
        kinds.push(TType::COLON);
        kinds.push(id("t"));
    }
    kinds.push(TType::RPAREN);
    kinds.push(TType::LBRACE);
    kinds.push(TType::RBRACE);
    kinds
}

#[test]
fn a_function_takes_255_parameters() {
    let statements = parse_kinds(function_with(255)).unwrap();
    match &statements[0] {
        Stmt::FnDecl(declared) => assert_eq!(declared.params.len(), 255),
        _ => panic!("not a function"),
    }
}

#[test]
fn a_function_with_256_parameters_fails() {
    assert_eq!(
        failure(function_with(256)),
        (String::from("Cannot have more than 255 parameters"), 3 + 4 * 255)
    );
}

#[test]
fn first_failure_ends_the_parse() {
    let error = parse_source("let a = 1; let = 2; let = 3;").unwrap_err();
    assert_eq!(error.message, "Expect variable name.");
    assert_eq!(error.line_info, LineInfo::new(1, 15, 16));
}

#[test]
fn parsing_stops_at_the_first_end_marker() {
    let mut tokens = stream(vec![id("a"), TType::SEMICOLON]);
    tokens.extend(stream(vec![id("b"), TType::SEMICOLON]));
    assert_eq!(parse(tokens), Ok(vec![Stmt::ExprStmt(name("a"))]));
}

#[test]
fn parsing_twice_gives_the_same_tree() {
    let tokens = Lexer::new(String::from("let a = f ; g ;")).scan_tokens().unwrap();
    let mut parser = Parser::new(tokens);
    let first = parser.parse();
    let second = parser.parse();
    assert!(first.is_ok());
    assert_eq!(first, second);
    let mut failing = Parser::new(stream(vec![TType::LET]));
    assert_eq!(failing.parse(), failing.parse());
}

#[test]
fn deeply_nested_expression_terminates() {
    let mut kinds = Vec::new();
    for _ in 0..200 {
        kinds.push(TType::LPAREN);
    }
    kinds.push(num("1"));
    for _ in 0..200 {
        kinds.push(TType::RPAREN);
    }
    kinds.push(TType::SEMICOLON);
    assert_eq!(parse_kinds(kinds).unwrap().len(), 1);
}

#[test]
fn source_text_to_tree() {
    assert_eq!(
        gecko::syntax_tree(String::from("let a ;\nreturn a ;")),
        Ok(vec![
            Stmt::VarDecl(Var::new(String::from("a"), None)),
            Stmt::Return(Some(name("a"))),
        ])
    );
    let scanning = gecko::syntax_tree(String::from("let a = #;")).unwrap_err();
    assert_eq!(scanning.message, "Unexpected character: #");
    assert_eq!(scanning.line_info, LineInfo::new(1, 8, 9));
    let parsing = gecko::syntax_tree(String::from("let a =\n;")).unwrap_err();
    assert_eq!(parsing.message, "Expect expression");
    assert_eq!(parsing.line_info, LineInfo::new(2, 8, 9));
}

#[test]
fn names_of_parameters() {
    let params = vec![
        Param::new(String::from("a"), at(id("int"), 0)),
        Param::new(String::from("b"), at(id("int"), 1)),
    ];
    assert_eq!(Param::names(&params), vec![String::from("a"), String::from("b")]);
    assert_eq!(Param::names(&vec![]), Vec::<String>::new());
}

#[test]
fn a_copy_of_a_tree_is_the_same_tree() {
    let tree = parse_kinds(vec![
        TType::FN,
        id("f"),
        TType::LPAREN,
        id("a"),
        TType::COLON,
        id("int"),
        TType::RPAREN,
        TType::ARROW,
        id("int"),
        TType::LBRACE,
        TType::LET,
        id("x"),
        TType::EQ,
        TType::MINUS,
        TType::LPAREN,
        id("g"),
        TType::DOT,
        id("h"),
        TType::LPAREN,
        num("1"),
        TType::COMMA,
        text("s"),
        TType::RPAREN,
        TType::STAR,
        TType::TRUE,
        TType::RPAREN,
        TType::SEMICOLON,
        TType::RETURN,
        TType::SEMICOLON,
        TType::IMPORT,
        id("m"),
        TType::DOT,
        id("n"),
        TType::SEMICOLON,
        TType::IMPORT,
        text("p"),
        TType::SEMICOLON,
        TType::RBRACE,
        TType::LET,
        id("y"),
        TType::SEMICOLON,
    ])
    .unwrap();
    assert_eq!(tree.len(), 2);
    let copy: Vec<Stmt> = tree.iter().map(|statement| statement.clone()).collect();
    assert_eq!(copy, tree);
    assert_eq!(Stmt::clone_each(&tree), tree);
    match &tree[0] {
        Stmt::FnDecl(declared) => {
            assert_eq!(declared.clone(), *declared);
            assert_eq!(Param::clone_each(&declared.params), declared.params);
            assert_eq!(declared.params[0].clone(), declared.params[0]);
            match &declared.body[0] {
                Stmt::VarDecl(var) => {
                    assert_eq!(var.clone(), *var);
                    let value = var.initializer.as_ref().unwrap();
                    assert_eq!(value.clone(), *value);
                    assert_eq!(Expr::clone_each(&vec![value.clone(), name("z")]).len(), 2);
                    match value {
                        Expr::Unary(unary) => {
                            assert_eq!(unary.clone(), *unary);
                            match unary.right.as_ref() {
                                Expr::Grouping(group) => {
                                    assert_eq!(group.clone(), *group);
                                    match group.expression.as_ref() {
                                        Expr::Binary(product) => {
                                            assert_eq!(product.clone(), *product);
                                            match product.left.as_ref() {
                                                Expr::Call(call) => {
                                                    assert_eq!(call.clone(), *call);
                                                    assert_eq!(call.args.len(), 2);
                                                    match call.callee.as_ref() {
                                                        Expr::Get(get) => assert_eq!(get.clone(), *get),
                                                        _ => panic!("not an access"),
                                                    }
                                                    match &call.args[0] {
                                                        Expr::Literal(literal) => {
                                                            assert_eq!(literal.clone(), *literal);
                                                            assert_eq!(literal.value.clone(), literal.value);
                                                        },
                                                        _ => panic!("not a literal"),
                                                    }
                                                },
                                                _ => panic!("not a call"),
                                            }
                                        },
                                        _ => panic!("not a product"),
                                    }
                                },
                                _ => panic!("not a group"),
                            }
                        },
                        _ => panic!("not a unary expression"),
                    }
                },
                _ => panic!("not a declaration"),
            }
        },
        _ => panic!("not a function"),
    }
}
