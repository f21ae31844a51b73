use vstd::prelude::*;
use crate::text::{push_char, push_str};

verus! {

/// The kind of a token, without its line or payload.
#[derive(Debug, Clone, Copy, PartialEq, Eq, Structural)]
pub enum TokenKind {
    LeftParen,
    RightParen,
    LeftBrace,
    RightBrace,
    Dot,
    Comma,
    Semicolon,
    Plus,
    Minus,
    Asterisk,
    Slash,
    Equal,
    Bang,
    EqualEqual,
    NotEqual,
    LessThan,
    LessEqual,
    GreaterThan,
    GreaterEqual,
    Identifier,
    String,
    Number,
    True,
    False,
    Nil,
    And,
    Or,
    If,
    Else,
    For,
    While,
    Class,
    This,
    Super,
    Fun,
    Return,
    Var,
    Print,
    Eof,
}

/// What a token denotes: its kind, its line, and its payload (empty for fixed tokens).
pub ghost struct TokenView {
    pub kind: TokenKind,
    pub line: nat,
    pub text: Seq<char>,
}

/// The text of a token kind that carries no payload.
pub open spec fn fixed_text(kind: TokenKind) -> Seq<char> {
    match kind {
        TokenKind::LeftParen => seq!['('],
        TokenKind::RightParen => seq![')'],
        TokenKind::LeftBrace => seq!['{'],
        TokenKind::RightBrace => seq!['}'],
        TokenKind::Dot => seq!['.'],
        TokenKind::Comma => seq![','],
        TokenKind::Semicolon => seq![';'],
        TokenKind::Plus => seq!['+'],
        TokenKind::Minus => seq!['-'],
        TokenKind::Asterisk => seq!['*'],
        TokenKind::Slash => seq!['/'],
        TokenKind::Equal => seq!['='],
        TokenKind::Bang => seq!['!'],
        TokenKind::EqualEqual => seq!['=', '='],
        TokenKind::NotEqual => seq!['!', '='],
        TokenKind::LessThan => seq!['<'],
        TokenKind::LessEqual => seq!['<', '='],
        TokenKind::GreaterThan => seq!['>'],
        TokenKind::GreaterEqual => seq!['>', '='],
        TokenKind::True => seq!['t', 'r', 'u', 'e'],
        TokenKind::False => seq!['f', 'a', 'l', 's', 'e'],
        TokenKind::Nil => seq!['n', 'i', 'l'],
        TokenKind::And => seq!['a', 'n', 'd'],
        TokenKind::Or => seq!['o', 'r'],
        TokenKind::If => seq!['i', 'f'],
        TokenKind::Else => seq!['e', 'l', 's', 'e'],
        TokenKind::For => seq!['f', 'o', 'r'],
        TokenKind::While => seq!['w', 'h', 'i', 'l', 'e'],
        TokenKind::Class => seq!['c', 'l', 'a', 's', 's'],
        TokenKind::This => seq!['t', 'h', 'i', 's'],
        TokenKind::Super => seq!['s', 'u', 'p', 'e', 'r'],
        TokenKind::Fun => seq!['f', 'u', 'n'],
        TokenKind::Return => seq!['r', 'e', 't', 'u', 'r', 'n'],
        TokenKind::Var => seq!['v', 'a', 'r'],
        TokenKind::Print => seq!['p', 'r', 'i', 'n', 't'],
        TokenKind::Eof => seq!['>'],
        _ => seq![],
    }
}

impl TokenView {
    /// The source form of the token: the payload of an identifier or a number, a string's
    /// payload between double quotes, and the fixed text of every other kind.
    pub open spec fn lexeme(self) -> Seq<char> {
        match self.kind {
            TokenKind::Identifier => self.text,
            TokenKind::Number => self.text,
            TokenKind::String => seq!['"'] + self.text + seq!['"'],
            _ => fixed_text(self.kind),
        }
    }
}

/// One lexical unit, tagged with the 1-based line on which it was recognized.
#[derive(Debug, Clone, PartialEq)]
pub enum Token {
    LeftParen { line: usize },
    RightParen { line: usize },
    LeftBrace { line: usize },
    RightBrace { line: usize },
    Dot { line: usize },
    Comma { line: usize },
    Semicolon { line: usize },
    Plus { line: usize },
    Minus { line: usize },
    Asterisk { line: usize },
    Slash { line: usize },
    Equal { line: usize },
    Bang { line: usize },
    EqualEqual { line: usize },
    NotEqual { line: usize },
    LessThan { line: usize },
    LessEqual { line: usize },
    GreaterThan { line: usize },
    GreaterEqual { line: usize },
    Identifier { line: usize, literal: String },
    String { line: usize, literal: String },
    Number { line: usize, literal: String },
    True { line: usize },
    False { line: usize },
    Nil { line: usize },
    And { line: usize },
    Or { line: usize },
    If { line: usize },
    Else { line: usize },
    For { line: usize },
    While { line: usize },
    Class { line: usize },
    This { line: usize },
    Super { line: usize },
    Fun { line: usize },
    Return { line: usize },
    Var { line: usize },
    Print { line: usize },
    Eof { line: usize },
}

impl View for Token {
    type V = TokenView;

    open spec fn view(&self) -> TokenView {
        match self {
            Token::LeftParen { line } => TokenView { kind: TokenKind::LeftParen, line: *line as nat, text: seq![] },
            Token::RightParen { line } => TokenView { kind: TokenKind::RightParen, line: *line as nat, text: seq![] },
            Token::LeftBrace { line } => TokenView { kind: TokenKind::LeftBrace, line: *line as nat, text: seq![] },
            Token::RightBrace { line } => TokenView { kind: TokenKind::RightBrace, line: *line as nat, text: seq![] },
            Token::Dot { line } => TokenView { kind: TokenKind::Dot, line: *line as nat, text: seq![] },
            Token::Comma { line } => TokenView { kind: TokenKind::Comma, line: *line as nat, text: seq![] },
            Token::Semicolon { line } => TokenView { kind: TokenKind::Semicolon, line: *line as nat, text: seq![] },
            Token::Plus { line } => TokenView { kind: TokenKind::Plus, line: *line as nat, text: seq![] },
            Token::Minus { line } => TokenView { kind: TokenKind::Minus, line: *line as nat, text: seq![] },
            Token::Asterisk { line } => TokenView { kind: TokenKind::Asterisk, line: *line as nat, text: seq![] },
            Token::Slash { line } => TokenView { kind: TokenKind::Slash, line: *line as nat, text: seq![] },
            Token::Equal { line } => TokenView { kind: TokenKind::Equal, line: *line as nat, text: seq![] },
            Token::Bang { line } => TokenView { kind: TokenKind::Bang, line: *line as nat, text: seq![] },
            Token::EqualEqual { line } => TokenView { kind: TokenKind::EqualEqual, line: *line as nat, text: seq![] },
            Token::NotEqual { line } => TokenView { kind: TokenKind::NotEqual, line: *line as nat, text: seq![] },
            Token::LessThan { line } => TokenView { kind: TokenKind::LessThan, line: *line as nat, text: seq![] },
            Token::LessEqual { line } => TokenView { kind: TokenKind::LessEqual, line: *line as nat, text: seq![] },
            Token::GreaterThan { line } => TokenView { kind: TokenKind::GreaterThan, line: *line as nat, text: seq![] },
            Token::GreaterEqual { line } => TokenView { kind: TokenKind::GreaterEqual, line: *line as nat, text: seq![] },
            Token::Identifier { line, literal } => TokenView { kind: TokenKind::Identifier, line: *line as nat, text: literal@ },
            Token::String { line, literal } => TokenView { kind: TokenKind::String, line: *line as nat, text: literal@ },
            Token::Number { line, literal } => TokenView { kind: TokenKind::Number, line: *line as nat, text: literal@ },
            Token::True { line } => TokenView { kind: TokenKind::True, line: *line as nat, text: seq![] },
            Token::False { line } => TokenView { kind: TokenKind::False, line: *line as nat, text: seq![] },
            Token::Nil { line } => TokenView { kind: TokenKind::Nil, line: *line as nat, text: seq![] },
            Token::And { line } => TokenView { kind: TokenKind::And, line: *line as nat, text: seq![] },
            Token::Or { line } => TokenView { kind: TokenKind::Or, line: *line as nat, text: seq![] },
            Token::If { line } => TokenView { kind: TokenKind::If, line: *line as nat, text: seq![] },
            Token::Else { line } => TokenView { kind: TokenKind::Else, line: *line as nat, text: seq![] },
            Token::For { line } => TokenView { kind: TokenKind::For, line: *line as nat, text: seq![] },
            Token::While { line } => TokenView { kind: TokenKind::While, line: *line as nat, text: seq![] },
            Token::Class { line } => TokenView { kind: TokenKind::Class, line: *line as nat, text: seq![] },
            Token::This { line } => TokenView { kind: TokenKind::This, line: *line as nat, text: seq![] },
            Token::Super { line } => TokenView { kind: TokenKind::Super, line: *line as nat, text: seq![] },
            Token::Fun { line } => TokenView { kind: TokenKind::Fun, line: *line as nat, text: seq![] },
            Token::Return { line } => TokenView { kind: TokenKind::Return, line: *line as nat, text: seq![] },
            Token::Var { line } => TokenView { kind: TokenKind::Var, line: *line as nat, text: seq![] },
            Token::Print { line } => TokenView { kind: TokenKind::Print, line: *line as nat, text: seq![] },
            Token::Eof { line } => TokenView { kind: TokenKind::Eof, line: *line as nat, text: seq![] },
        }
    }
}

impl Token {
    /// The source form of the token.
    pub fn lexeme(&self) -> (r: String)
        ensures
            r@ == self@.lexeme(),
    {
        match self {
            Token::LeftParen { .. } => {
                proof {
                    reveal_strlit("(");
                }
                "(".to_owned()
            },
            Token::RightParen { .. } => {
                proof {
                    reveal_strlit(")");
                }
                ")".to_owned()
            },
            Token::LeftBrace { .. } => {
                proof {
                    reveal_strlit("{");
                }
                "{".to_owned()
            },
            Token::RightBrace { .. } => {
                proof {
                    reveal_strlit("}");
                }
                "}".to_owned()
            },
            Token::Dot { .. } => {
                proof {
                    reveal_strlit(".");
                }
                ".".to_owned()
            },
            Token::Comma { .. } => {
                proof {
                    reveal_strlit(",");
                }
                ",".to_owned()
            },
            Token::Semicolon { .. } => {
                proof {
                    reveal_strlit(";");
                }
                ";".to_owned()
            },
            Token::Plus { .. } => {
                proof {
                    reveal_strlit("+");
                }
                "+".to_owned()
            },
            Token::Minus { .. } => {
                proof {
                    reveal_strlit("-");
                }
                "-".to_owned()
            },
            Token::Asterisk { .. } => {
                proof {
                    reveal_strlit("*");
                }
                "*".to_owned()
            },
            Token::Slash { .. } => {
                proof {
                    reveal_strlit("/");
                }
                "/".to_owned()
            },
            Token::Equal { .. } => {
                proof {
                    reveal_strlit("=");
                }
                "=".to_owned()
            },
            Token::Bang { .. } => {
                proof {
                    reveal_strlit("!");
                }
                "!".to_owned()
            },
            Token::EqualEqual { .. } => {
                proof {
                    reveal_strlit("==");
                }
                "==".to_owned()
            },
            Token::NotEqual { .. } => {
                proof {
                    reveal_strlit("!=");
                }
                "!=".to_owned()
            },
            Token::LessThan { .. } => {
                proof {
                    reveal_strlit("<");
                }
                "<".to_owned()
            },
            Token::LessEqual { .. } => {
                proof {
                    reveal_strlit("<=");
                }
                "<=".to_owned()
            },
            Token::GreaterThan { .. } => {
                proof {
                    reveal_strlit(">");
                }
                ">".to_owned()
            },
            Token::GreaterEqual { .. } => {
                proof {
                    reveal_strlit(">=");
                }
                ">=".to_owned()
            },
            Token::Identifier { literal, .. } => literal.clone(),
            Token::String { literal, .. } => {
                let mut r = String::new();
                push_char(&mut r, '"');
                push_str(&mut r, literal.as_str());
                push_char(&mut r, '"');
                r
            },
            Token::Number { literal, .. } => literal.clone(),
            Token::True { .. } => {
                proof {
                    reveal_strlit("true");
                }
                "true".to_owned()
            },
            Token::False { .. } => {
                proof {
                    reveal_strlit("false");
                }
                "false".to_owned()
            },
            Token::Nil { .. } => {
                proof {
                    reveal_strlit("nil");
                }
                "nil".to_owned()
            },
            Token::And { .. } => {
                proof {
                    reveal_strlit("and");
                }
                "and".to_owned()
            },
            Token::Or { .. } => {
                proof {
                    reveal_strlit("or");
                }
                "or".to_owned()
            },
            Token::If { .. } => {
                proof {
                    reveal_strlit("if");
                }
                "if".to_owned()
            },
            Token::Else { .. } => {
                proof {
                    reveal_strlit("else");
                }
                "else".to_owned()
            },
            Token::For { .. } => {
                proof {
                    reveal_strlit("for");
                }
                "for".to_owned()
            },
            Token::While { .. } => {
                proof {
                    reveal_strlit("while");
                }
                "while".to_owned()
            },
            Token::Class { .. } => {
                proof {
                    reveal_strlit("class");
                }
                "class".to_owned()
            },
            Token::This { .. } => {
                proof {
                    reveal_strlit("this");
                }
                "this".to_owned()
            },
            Token::Super { .. } => {
                proof {
                    reveal_strlit("super");
                }
                "super".to_owned()
            },
            Token::Fun { .. } => {
                proof {
                    reveal_strlit("fun");
                }
                "fun".to_owned()
            },
            Token::Return { .. } => {
                proof {
                    reveal_strlit("return");
                }
                "return".to_owned()
            },
            Token::Var { .. } => {
                proof {
                    reveal_strlit("var");
                }
                "var".to_owned()
            },
            Token::Print { .. } => {
                proof {
                    reveal_strlit("print");
                }
                "print".to_owned()
            },
            Token::Eof { .. } => {
                proof {
                    reveal_strlit(">");
                }
                ">".to_owned()
            },
        }
    }


    /// A copy of the token with the same kind, line and payload.
    pub fn duplicate(&self) -> (r: Token)
        ensures
            r@ == self@,
    {
        match self {
            Token::LeftParen { line } => Token::LeftParen { line: *line },
            Token::RightParen { line } => Token::RightParen { line: *line },
            Token::LeftBrace { line } => Token::LeftBrace { line: *line },
            Token::RightBrace { line } => Token::RightBrace { line: *line },
            Token::Dot { line } => Token::Dot { line: *line },
            Token::Comma { line } => Token::Comma { line: *line },
            Token::Semicolon { line } => Token::Semicolon { line: *line },
            Token::Plus { line } => Token::Plus { line: *line },
            Token::Minus { line } => Token::Minus { line: *line },
            Token::Asterisk { line } => Token::Asterisk { line: *line },
            Token::Slash { line } => Token::Slash { line: *line },
            Token::Equal { line } => Token::Equal { line: *line },
            Token::Bang { line } => Token::Bang { line: *line },
            Token::EqualEqual { line } => Token::EqualEqual { line: *line },
            Token::NotEqual { line } => Token::NotEqual { line: *line },
            Token::LessThan { line } => Token::LessThan { line: *line },
            Token::LessEqual { line } => Token::LessEqual { line: *line },
            Token::GreaterThan { line } => Token::GreaterThan { line: *line },
            Token::GreaterEqual { line } => Token::GreaterEqual { line: *line },
            Token::Identifier { line, literal } => Token::Identifier { line: *line, literal: literal.clone() },
            Token::String { line, literal } => Token::String { line: *line, literal: literal.clone() },
            Token::Number { line, literal } => Token::Number { line: *line, literal: literal.clone() },
            Token::True { line } => Token::True { line: *line },
            Token::False { line } => Token::False { line: *line },
            Token::Nil { line } => Token::Nil { line: *line },
            Token::And { line } => Token::And { line: *line },
            Token::Or { line } => Token::Or { line: *line },
            Token::If { line } => Token::If { line: *line },
            Token::Else { line } => Token::Else { line: *line },
            Token::For { line } => Token::For { line: *line },
            Token::While { line } => Token::While { line: *line },
            Token::Class { line } => Token::Class { line: *line },
            Token::This { line } => Token::This { line: *line },
            Token::Super { line } => Token::Super { line: *line },
            Token::Fun { line } => Token::Fun { line: *line },
            Token::Return { line } => Token::Return { line: *line },
            Token::Var { line } => Token::Var { line: *line },
            Token::Print { line } => Token::Print { line: *line },
            Token::Eof { line } => Token::Eof { line: *line },
        }
    }
}

} // verus!
