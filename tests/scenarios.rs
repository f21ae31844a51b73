use lox_scanner::{scan, ScanError, Scanner, Token};

fn tokens(source: &str) -> Vec<Token> {
    scan(source.to_string()).unwrap()
}

fn errors(source: &str) -> Vec<ScanError> {
    scan(source.to_string()).unwrap_err()
}

fn num(line: usize, text: &str) -> Token {
    Token::Number { line, literal: text.to_string() }
}

#[test]
fn empty_source_gives_only_end_of_input() {
    assert_eq!(tokens(""), vec![Token::Eof { line: 1 }]);
}

#[test]
fn whitespace_only_source_counts_lines() {
    assert_eq!(tokens(" \t\r\n\n"), vec![Token::Eof { line: 3 }]);
}

#[test]
fn scanning_twice_gives_the_same_result() {
    let source = "var x = 1.5; // note\n\"s\" ~";
    assert_eq!(scan(source.to_string()), scan(source.to_string()));
    let ok = "fun f(a) { return a >= 2; }";
    assert_eq!(scan(ok.to_string()), scan(ok.to_string()));
}

#[test]
fn result_is_never_empty() {
    for source in ["", "~", "\"", "a", "// only a comment", "\n\n"] {
        match scan(source.to_string()) {
            Ok(t) => {
                assert!(!t.is_empty());
                assert!(matches!(t.last(), Some(Token::Eof { .. })));
                assert_eq!(t.iter().filter(|x| matches!(x, Token::Eof { .. })).count(), 1);
            }
            Err(e) => assert!(!e.is_empty()),
        }
    }
}

#[test]
fn decimal_number_is_one_token() {
    assert_eq!(tokens("123.45"), vec![num(1, "123.45"), Token::Eof { line: 1 }]);
}

#[test]
fn trailing_dot_is_not_part_of_number() {
    assert_eq!(
        tokens("12."),
        vec![num(1, "12"), Token::Dot { line: 1 }, Token::Eof { line: 1 }]
    );
}

#[test]
fn dot_then_identifier_after_number() {
    assert_eq!(
        tokens("1.a"),
        vec![
            num(1, "1"),
            Token::Dot { line: 1 },
            Token::Identifier { line: 1, literal: "a".to_string() },
            Token::Eof { line: 1 }
        ]
    );
}

#[test]
fn operators_take_the_longest_match() {
    assert_eq!(tokens("=="), vec![Token::EqualEqual { line: 1 }, Token::Eof { line: 1 }]);
    assert_eq!(tokens("="), vec![Token::Equal { line: 1 }, Token::Eof { line: 1 }]);
    assert_eq!(tokens("!="), vec![Token::NotEqual { line: 1 }, Token::Eof { line: 1 }]);
    assert_eq!(tokens("!"), vec![Token::Bang { line: 1 }, Token::Eof { line: 1 }]);
    assert_eq!(
        tokens("==="),
        vec![Token::EqualEqual { line: 1 }, Token::Equal { line: 1 }, Token::Eof { line: 1 }]
    );
    assert_eq!(
        tokens("<=>"),
        vec![Token::LessEqual { line: 1 }, Token::GreaterThan { line: 1 }, Token::Eof { line: 1 }]
    );
}

#[test]
fn lines_are_tracked_across_numbers() {
    assert_eq!(
        tokens("1\n2\n3"),
        vec![num(1, "1"), num(2, "2"), num(3, "3"), Token::Eof { line: 3 }]
    );
}

#[test]
fn multi_line_string_reports_its_closing_line() {
    assert_eq!(
        tokens("\"a\nb\""),
        vec![Token::String { line: 2, literal: "a\nb".to_string() }, Token::Eof { line: 2 }]
    );
}

#[test]
fn comment_produces_no_token() {
    assert_eq!(tokens("// x\n123"), vec![num(2, "123"), Token::Eof { line: 2 }]);
}

#[test]
fn comment_at_end_of_input() {
    assert_eq!(tokens("1 // end"), vec![num(1, "1"), Token::Eof { line: 1 }]);
}

#[test]
fn slash_alone_is_division() {
    assert_eq!(
        tokens("4 / 2"),
        vec![num(1, "4"), Token::Slash { line: 1 }, num(1, "2"), Token::Eof { line: 1 }]
    );
}

#[test]
fn errors_accumulate_in_order() {
    assert_eq!(
        errors("~ @\n\"open"),
        vec![
            ScanError::UnexpectedCharacter { line: 1 },
            ScanError::UnexpectedCharacter { line: 1 },
            ScanError::UnterminatedString { line: 2 },
        ]
    );
}

#[test]
fn unterminated_string_reports_the_last_line() {
    assert_eq!(errors("\"a\nb\nc"), vec![ScanError::UnterminatedString { line: 3 }]);
}

#[test]
fn one_error_per_unexpected_character() {
    assert_eq!(
        errors("a ## b"),
        vec![ScanError::UnexpectedCharacter { line: 1 }, ScanError::UnexpectedCharacter { line: 1 }]
    );
}

#[test]
fn keyword_prefix_is_an_identifier() {
    assert_eq!(
        tokens("classify"),
        vec![Token::Identifier { line: 1, literal: "classify".to_string() }, Token::Eof { line: 1 }]
    );
    assert_eq!(tokens("class"), vec![Token::Class { line: 1 }, Token::Eof { line: 1 }]);
    assert_eq!(
        tokens("or_"),
        vec![Token::Identifier { line: 1, literal: "or_".to_string() }, Token::Eof { line: 1 }]
    );
}

#[test]
fn identifiers_take_digits_and_underscores() {
    assert_eq!(
        tokens("_x9 9x"),
        vec![
            Token::Identifier { line: 1, literal: "_x9".to_string() },
            num(1, "9"),
            Token::Identifier { line: 1, literal: "x".to_string() },
            Token::Eof { line: 1 }
        ]
    );
}

#[test]
fn non_ascii_digits_are_numeric() {
    assert_eq!(tokens("\u{0663}"), vec![num(1, "\u{0663}"), Token::Eof { line: 1 }]);
}

#[test]
fn non_ascii_letter_is_unexpected() {
    assert_eq!(errors("é"), vec![ScanError::UnexpectedCharacter { line: 1 }]);
}

#[test]
fn string_payload_keeps_its_text() {
    assert_eq!(
        tokens("\"héllo \\n\""),
        vec![Token::String { line: 1, literal: "héllo \\n".to_string() }, Token::Eof { line: 1 }]
    );
}

#[test]
fn scanner_and_scan_agree() {
    let source = "print \"hi\";\nvar n = 10.25;";
    assert_eq!(Scanner::new(source.to_string()).scan_tokens(), scan(source.to_string()));
}

#[test]
fn lexemes_of_tokens() {
    assert_eq!(Token::String { line: 1, literal: "ab".to_string() }.lexeme(), "\"ab\"");
    assert_eq!(Token::String { line: 1, literal: String::new() }.lexeme(), "\"\"");
    assert_eq!(Token::Identifier { line: 1, literal: "x1".to_string() }.lexeme(), "x1");
    assert_eq!(num(1, "3.5").lexeme(), "3.5");
    assert_eq!(Token::GreaterEqual { line: 4 }.lexeme(), ">=");
    assert_eq!(Token::NotEqual { line: 4 }.lexeme(), "!=");
    assert_eq!(Token::Return { line: 2 }.lexeme(), "return");
    assert_eq!(Token::LeftBrace { line: 2 }.lexeme(), "{");
    assert_eq!(Token::Eof { line: 9 }.lexeme(), ">");
}

#[test]
fn lexemes_rebuild_the_source_words() {
    let words: Vec<String> = tokens("var x = \"s\" + 2.5;").iter().map(|t| t.lexeme()).collect();
    assert_eq!(words, vec!["var", "x", "=", "\"s\"", "+", "2.5", ";", ">"]);
}
