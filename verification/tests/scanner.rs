use gecko::error::LineInfo;
use gecko::lexer::token::Token;
use gecko::lexer::ttype::TType;
use gecko::lexer::Lexer;

fn scan(source: &str) -> Vec<Token> {
    Lexer::new(String::from(source)).scan_tokens().unwrap()
}

fn kinds(source: &str) -> Vec<TType> {
    scan(source).into_iter().map(|token| token.ttype).collect()
}

fn numeral(text: &str) -> TType {
    TType::Number(String::from(text))
}

fn name(text: &str) -> TType {
    TType::Identifier(String::from(text))
}

fn value_of(kind: &TType) -> f64 {
    match kind {
        TType::Number(text) => text.parse::<f64>().unwrap(),
        _ => panic!("not a number"),
    }
}

#[test]
fn empty_source_is_one_end_marker() {
    let tokens = scan("");
    assert_eq!(tokens.len(), 1);
    assert_eq!(tokens[0], Token::new(TType::EOF, String::new(), LineInfo::new(1, 0, 0)));
}

#[test]
fn single_characters() {
    assert_eq!(
        kinds("(){},.-+;*:/"),
        vec![
            TType::LPAREN,
            TType::RPAREN,
            TType::LBRACE,
            TType::RBRACE,
            TType::COMMA,
            TType::DOT,
            TType::MINUS,
            TType::PLUS,
            TType::SEMICOLON,
            TType::STAR,
            TType::COLON,
            TType::SLASH,
            TType::EOF,
        ]
    );
}

#[test]
fn operators_take_a_following_equals() {
    assert_eq!(
        kinds("! != = == < <= > >="),
        vec![
            TType::BANG,
            TType::BANGEQ,
            TType::EQ,
            TType::EQEQ,
            TType::LT,
            TType::LTEQ,
            TType::GT,
            TType::GTEQ,
            TType::EOF,
        ]
    );
    assert_eq!(kinds("==="), vec![TType::EQEQ, TType::EQ, TType::EOF]);
}

#[test]
fn minus_before_greater_is_two_tokens() {
    assert_eq!(kinds("->"), vec![TType::MINUS, TType::GT, TType::EOF]);
}

#[test]
fn whole_number() {
    let tokens = scan("3");
    assert_eq!(tokens[0].ttype, numeral("3"));
    assert_eq!(value_of(&tokens[0].ttype), 3.0);
    assert_eq!(tokens[0].lexeme, "3");
    assert_eq!(tokens[0].lineinfo, LineInfo::new(1, 0, 1));
    assert_eq!(tokens[1].ttype, TType::EOF);
}

#[test]
fn number_with_fraction() {
    let tokens = scan("3.5");
    assert_eq!(tokens.len(), 2);
    assert_eq!(tokens[0].ttype, numeral("3.5"));
    assert_eq!(value_of(&tokens[0].ttype), 3.5);
}

#[test]
fn point_without_digit_is_left_standing() {
    let tokens = scan("3.");
    assert_eq!(tokens.len(), 3);
    assert_eq!(tokens[0].ttype, numeral("3"));
    assert_eq!(value_of(&tokens[0].ttype), 3.0);
    assert_eq!(tokens[1].ttype, TType::DOT);
    assert_eq!(tokens[1].lineinfo, LineInfo::new(1, 1, 2));
    assert_eq!(tokens[2].ttype, TType::EOF);
}

#[test]
fn second_point_ends_the_number() {
    assert_eq!(
        kinds("1.2.3"),
        vec![numeral("1.2"), TType::DOT, numeral("3"), TType::EOF]
    );
}

#[test]
fn string_literal_loses_its_quotes() {
    let tokens = scan("\"abc\"");
    assert_eq!(tokens.len(), 2);
    assert_eq!(tokens[0].ttype, TType::String(String::from("abc")));
    assert_eq!(tokens[0].lexeme, "abc");
    assert_eq!(tokens[0].lineinfo, LineInfo::new(1, 1, 4));
}

#[test]
fn empty_string_literal() {
    let tokens = scan("\"\"");
    assert_eq!(tokens[0].ttype, TType::String(String::new()));
    assert_eq!(tokens[0].lexeme, "");
    assert_eq!(tokens[0].lineinfo, LineInfo::new(1, 1, 1));
}

#[test]
fn unterminated_string_is_an_error() {
    let error = Lexer::new(String::from("\"abc")).scan_tokens().unwrap_err();
    assert_eq!(error.message, "Unterminated string");
    assert_eq!(error.line_info, LineInfo::new(1, 0, 4));
    assert!(error.notes.is_empty());
}

#[test]
fn unterminated_string_reports_the_last_line() {
    let error = Lexer::new(String::from("x \"a\nb\nc")).scan_tokens().unwrap_err();
    assert_eq!(error.message, "Unterminated string");
    assert_eq!(error.line_info, LineInfo::new(3, 2, 8));
}

#[test]
fn string_literal_spans_lines() {
    let tokens = scan("\"a\nb\" x");
    assert_eq!(tokens[0].ttype, TType::String(String::from("a\nb")));
    assert_eq!(tokens[0].lineinfo, LineInfo::new(2, 1, 4));
    assert_eq!(tokens[1].ttype, name("x"));
    assert_eq!(tokens[1].lineinfo, LineInfo::new(2, 6, 7));
}

#[test]
fn string_literal_has_no_escapes() {
    let tokens = scan("\"a\\\" b");
    assert_eq!(tokens[0].ttype, TType::String(String::from("a\\")));
    assert_eq!(tokens[1].ttype, name("b"));
}

#[test]
fn keyword_and_identifier() {
    assert_eq!(kinds("let"), vec![TType::LET, TType::EOF]);
    assert_eq!(kinds("lett"), vec![name("lett"), TType::EOF]);
}

#[test]
fn every_keyword() {
    assert_eq!(
        kinds("true false if else while for in fn let return import"),
        vec![
            TType::TRUE,
            TType::FALSE,
            TType::IF,
            TType::ELSE,
            TType::WHILE,
            TType::FOR,
            TType::IN,
            TType::FN,
            TType::LET,
            TType::RETURN,
            TType::IMPORT,
            TType::EOF,
        ]
    );
}

#[test]
fn word_runs_through_punctuation() {
    assert_eq!(
        kinds("foo.bar(1, 2);"),
        vec![name("foo.bar(1,"), numeral("2"), TType::RPAREN, TType::SEMICOLON, TType::EOF]
    );
    assert_eq!(kinds("_a1"), vec![name("_a1"), TType::EOF]);
    assert_eq!(kinds("let;"), vec![name("let;"), TType::EOF]);
}

#[test]
fn comment_runs_to_the_end_of_the_line() {
    let tokens = scan("1 // one\n2");
    assert_eq!(tokens.len(), 3);
    assert_eq!(tokens[0].ttype, numeral("1"));
    assert_eq!(tokens[1].ttype, numeral("2"));
    assert_eq!(tokens[1].lineinfo, LineInfo::new(2, 9, 10));
    assert_eq!(tokens[2].lineinfo, LineInfo::new(2, 10, 10));
    assert_eq!(kinds("// only"), vec![TType::EOF]);
}

#[test]
fn blank_space_is_skipped_and_lines_are_counted() {
    let tokens = scan(" \t\r\n\n+");
    assert_eq!(tokens.len(), 2);
    assert_eq!(tokens[0], Token::new(TType::PLUS, String::from("+"), LineInfo::new(3, 5, 6)));
    assert_eq!(tokens[1], Token::new(TType::EOF, String::new(), LineInfo::new(3, 6, 6)));
}

#[test]
fn unexpected_character_is_an_error() {
    let error = Lexer::new(String::from("1 @")).scan_tokens().unwrap_err();
    assert_eq!(error.message, "Unexpected character: @");
    assert_eq!(error.line_info, LineInfo::new(1, 2, 3));
    assert!(error.notes.is_empty());
}

#[test]
fn unexpected_character_outside_ascii() {
    let error = Lexer::new(String::from("\n\u{e9}")).scan_tokens().unwrap_err();
    assert_eq!(error.message, "Unexpected character: \u{e9}");
    assert_eq!(error.line_info, LineInfo::new(2, 1, 3));
}

#[test]
fn spans_are_byte_offsets() {
    let source = "\"h\u{e9}\u{4e16}\u{1f600}\" x";
    let tokens = scan(source);
    assert_eq!(tokens[0].lexeme, "h\u{e9}\u{4e16}\u{1f600}");
    assert_eq!(tokens[0].lineinfo, LineInfo::new(1, 1, 11));
    assert_eq!(tokens[1].lineinfo, LineInfo::new(1, 13, 14));
    assert_eq!(tokens[2].lineinfo, LineInfo::new(1, 14, 14));
    assert_eq!(&source[1..11], tokens[0].lexeme);
}

#[test]
fn lexeme_is_the_source_between_the_span() {
    let source = "let age = 1 + 1.25; // done\n\"s\" != foo_bar";
    for token in scan(source) {
        let LineInfo { start, end, .. } = token.lineinfo;
        assert!(start <= end && end <= source.len());
        assert_eq!(&source[start..end], token.lexeme);
        if token.ttype == TType::EOF {
            assert_eq!((start, end), (source.len(), source.len()));
        }
    }
}

#[test]
fn scanning_twice_gives_the_same_tokens() {
    let source = "let x = \"a\" + 2; // c\nfn";
    assert_eq!(scan(source), scan(source));
    let mut lexer = Lexer::new(String::from(source));
    let first = lexer.scan_tokens().unwrap();
    let second = lexer.scan_tokens().unwrap();
    assert_eq!(first, second);
    assert_eq!(lexer.input, source);
}

#[test]
fn exactly_one_end_marker_and_it_is_last() {
    let tokens = scan("a b\nc");
    let ends = tokens.iter().filter(|token| token.ttype == TType::EOF).count();
    assert_eq!(ends, 1);
    assert_eq!(tokens.last().unwrap().ttype, TType::EOF);
    assert_eq!(tokens.last().unwrap().lexeme, "");
}

#[test]
fn listing_of_a_token() {
    let tokens = scan("let x");
    assert_eq!(tokens[0].to_string(), "LET let");
    assert_eq!(tokens[1].to_string(), "Identifier(\"x\") x");
    let number = &scan("2.50")[0];
    assert_eq!(number.to_string(), "Number(2.50) 2.50");
    let text = Token::new(
        TType::String(String::from("a\"b\n\u{e9}\\")),
        String::from("t"),
        LineInfo::new(1, 0, 1),
    );
    assert_eq!(text.to_string(), "String(\"a\\\"b\\n\u{e9}\\\\\") t");
    assert_eq!(text.to_string(), format!("String({:?}) t", "a\"b\n\u{e9}\\"));
    assert_eq!(name("a\"b").shown(), "Identifier(\"a\\\"b\")");
    assert_eq!(TType::ARROW.shown(), "ARROW");
}

#[test]
fn let_statement_tokens() {
    let tokens = scan("let age = 1 + 1;");
    assert_eq!(
        tokens,
        vec![
            Token::new(TType::LET, String::from("let"), LineInfo::new(1, 0, 3)),
            Token::new(name("age"), String::from("age"), LineInfo::new(1, 4, 7)),
            Token::new(TType::EQ, String::from("="), LineInfo::new(1, 8, 9)),
            Token::new(numeral("1"), String::from("1"), LineInfo::new(1, 10, 11)),
            Token::new(TType::PLUS, String::from("+"), LineInfo::new(1, 12, 13)),
            Token::new(numeral("1"), String::from("1"), LineInfo::new(1, 14, 15)),
            Token::new(TType::SEMICOLON, String::from(";"), LineInfo::new(1, 15, 16)),
            Token::new(TType::EOF, String::new(), LineInfo::new(1, 16, 16)),
        ]
    );
}

#[test]
fn character_classes() {
    for c in ['a', 'z', 'A', 'Z', '_'] {
        assert!(Lexer::is_alpha(c) && Lexer::is_alphanumeric(c) && !Lexer::is_digit(c));
    }
    for c in ['0', '5', '9'] {
        assert!(Lexer::is_digit(c) && Lexer::is_alphanumeric(c) && !Lexer::is_alpha(c));
    }
    for c in "!\"#$%&'()*+,-./:;<=>?@[\\]^`{|}~".chars() {
        assert!(Lexer::is_punctuation(c) && Lexer::is_alphanumeric(c), "{}", c);
        assert_eq!(c.is_ascii_punctuation(), true);
    }
    for c in [' ', '\n', '\t', '\0', '\u{7f}', '\u{e9}', '\u{4e16}'] {
        assert!(!Lexer::is_alphanumeric(c) && !Lexer::is_punctuation(c));
        assert_eq!(c.is_ascii_punctuation(), false);
    }
    for code in 0u32..256 {
        let c = char::from_u32(code).unwrap();
        assert_eq!(Lexer::is_punctuation(c), c.is_ascii_punctuation());
        assert_eq!(Lexer::is_digit(c), c.is_ascii_digit());
        assert_eq!(Lexer::is_alpha(c), c.is_ascii_alphabetic() || c == '_');
    }
}

#[test]
fn token_keeps_its_parts() {
    let token = Token::new(name("x"), String::from("x"), LineInfo::new(4, 5, 6));
    assert_eq!(token.ttype, name("x"));
    assert_eq!(token.lexeme, "x");
    assert_eq!(token.lineinfo, LineInfo::new(4, 5, 6));
}

#[test]
fn tokens_are_compared_part_by_part() {
    let token = Token::new(name("x"), String::from("x"), LineInfo::new(1, 0, 1));
    assert_eq!(token.clone(), token);
    assert_ne!(Token::new(name("y"), String::from("x"), LineInfo::new(1, 0, 1)), token);
    assert_ne!(Token::new(name("x"), String::from("y"), LineInfo::new(1, 0, 1)), token);
    assert_ne!(Token::new(name("x"), String::from("x"), LineInfo::new(2, 0, 1)), token);
}

#[test]
fn kinds_are_compared_with_their_text() {
    assert_eq!(name("x"), name("x"));
    assert_ne!(name("x"), name("y"));
    assert_ne!(name("1"), numeral("1"));
    assert_ne!(numeral("1"), TType::String(String::from("1")));
    assert_eq!(TType::LET.clone(), TType::LET);
    assert_ne!(TType::LET, TType::FN);
    assert_eq!(numeral("2.5").clone(), numeral("2.5"));
}

#[test]
fn kind_names() {
    assert_eq!(name("x").tag(), "Identifier");
    assert_eq!(numeral("1").tag(), "Number");
    assert_eq!(TType::String(String::new()).tag(), "String");
    assert_eq!(TType::EQEQ.tag(), "EQEQ");
    assert_eq!(TType::EOF.tag(), "EOF");
    assert_eq!(TType::IMPORT.tag(), "IMPORT");
}
