use lox_scanner::{Scanner, ScanError, Token};

#[test]
fn test_success() {
    let source = r#"
            ( )
            { }
            . , ;
            + - * /
            = !
            == != < <= > >=
            abc _a_b_c_ "" "abc" 123 123.0
            true false nil
            and or
            if else for while
            class this super
            fun return var print
        "#
    .trim_start();

    let actual = Scanner::new(source.into()).scan_tokens().unwrap();

    let expected = vec![
        Token::LeftParen { line: 1 },
        Token::RightParen { line: 1 },
        Token::LeftBrace { line: 2 },
        Token::RightBrace { line: 2 },
        Token::Dot { line: 3 },
        Token::Comma { line: 3 },
        Token::Semicolon { line: 3 },
        Token::Plus { line: 4 },
        Token::Minus { line: 4 },
        Token::Asterisk { line: 4 },
        Token::Slash { line: 4 },
        Token::Equal { line: 5 },
        Token::Bang { line: 5 },
        Token::EqualEqual { line: 6 },
        Token::NotEqual { line: 6 },
        Token::LessThan { line: 6 },
        Token::LessEqual { line: 6 },
        Token::GreaterThan { line: 6 },
        Token::GreaterEqual { line: 6 },
        Token::Identifier {
            line: 7,
            literal: "abc".into(),
        },
        Token::Identifier {
            line: 7,
            literal: "_a_b_c_".into(),
        },
        Token::String {
            line: 7,
            literal: "".into(),
        },
        Token::String {
            line: 7,
            literal: "abc".into(),
        },
        Token::Number {
            line: 7,
            literal: "123".into(),
        },
        Token::Number {
            line: 7,
            literal: "123.0".into(),
        },
        Token::True { line: 8 },
        Token::False { line: 8 },
        Token::Nil { line: 8 },
        Token::And { line: 9 },
        Token::Or { line: 9 },
        Token::If { line: 10 },
        Token::Else { line: 10 },
        Token::For { line: 10 },
        Token::While { line: 10 },
        Token::Class { line: 11 },
        Token::This { line: 11 },
        Token::Super { line: 11 },
        Token::Fun { line: 12 },
        Token::Return { line: 12 },
        Token::Var { line: 12 },
        Token::Print { line: 12 },
        Token::Eof { line: 13 },
    ];

    assert_eq!(actual, expected);
}

#[test]
fn test_comment() {
    let source = r#"
            // abc
            // "abc"
            // 123
            abc
            "abc"
            123
        "#
    .trim_start();

    let actual = Scanner::new(source.into()).scan_tokens().unwrap();

    let expected = vec![
        Token::Identifier {
            line: 4,
            literal: "abc".into(),
        },
        Token::String {
            line: 5,
            literal: "abc".into(),
        },
        Token::Number {
            line: 6,
            literal: "123".into(),
        },
        Token::Eof { line: 7 },
    ];

    assert_eq!(actual, expected);
}

#[test]
fn test_failure() {
    let source = r#"
            ~ @ #
            "abc
        "#
    .trim_start();

    let actual = Scanner::new(source.into()).scan_tokens().unwrap_err();

    let expected = vec![
        ScanError::UnexpectedCharacter { line: 1 },
        ScanError::UnexpectedCharacter { line: 1 },
        ScanError::UnexpectedCharacter { line: 1 },
        ScanError::UnterminatedString { line: 3 },
    ];

    assert_eq!(actual, expected);
}
