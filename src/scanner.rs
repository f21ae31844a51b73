use vstd::prelude::*;
use crate::error::ScanError;
use crate::text::{chars_of, is_numeric, numeric_char, push_char};
use crate::token::{Token, TokenKind, TokenView};

verus! {

/// An ASCII letter or an underscore: a character that may start an identifier.
pub open spec fn is_ident_start(c: char) -> bool {
    ('a' <= c && c <= 'z') || ('A' <= c && c <= 'Z') || c == '_'
}

/// An ASCII letter, an ASCII digit or an underscore: a character that may continue an identifier.
pub open spec fn is_ident_char(c: char) -> bool {
    is_ident_start(c) || ('0' <= c && c <= '9')
}

/// The first index at or after `i` whose character is not numeric (or the end of `src`).
pub open spec fn digits_end(src: Seq<char>, i: int) -> int
    decreases src.len() - i,
{
    if 0 <= i < src.len() && numeric_char(src[i]) {
        digits_end(src, i + 1)
    } else {
        i
    }
}

/// The first index at or after `i` whose character cannot continue an identifier.
pub open spec fn ident_end(src: Seq<char>, i: int) -> int
    decreases src.len() - i,
{
    if 0 <= i < src.len() && is_ident_char(src[i]) {
        ident_end(src, i + 1)
    } else {
        i
    }
}

/// The first index at or after `i` that holds `stop` (or the end of `src`).
pub open spec fn find_char(src: Seq<char>, i: int, stop: char) -> int
    decreases src.len() - i,
{
    if 0 <= i < src.len() && src[i] != stop {
        find_char(src, i + 1, stop)
    } else {
        i
    }
}

/// The number of newline characters in `src[a..b]`.
pub open spec fn newlines(src: Seq<char>, a: int, b: int) -> nat
    decreases b - a,
{
    if a < b {
        newlines(src, a, b - 1) + if src[b - 1] == '\n' { 1nat } else { 0nat }
    } else {
        0
    }
}

/// The end of a number literal whose first digit is at `i`: a maximal run of numeric
/// characters, then a `.` and a further maximal run only where a numeric character follows the `.`.
pub open spec fn number_end(src: Seq<char>, i: int) -> int {
    let j = digits_end(src, i + 1);
    if j + 1 < src.len() && src[j] == '.' && numeric_char(src[j + 1]) {
        digits_end(src, j + 1)
    } else {
        j
    }
}

/// The keyword spelled by `w`, if any.
pub open spec fn keyword(w: Seq<char>) -> Option<TokenKind> {
    if w == seq!['t', 'r', 'u', 'e'] {
        Some(TokenKind::True)
    } else if w == seq!['f', 'a', 'l', 's', 'e'] {
        Some(TokenKind::False)
    } else if w == seq!['n', 'i', 'l'] {
        Some(TokenKind::Nil)
    } else if w == seq!['a', 'n', 'd'] {
        Some(TokenKind::And)
    } else if w == seq!['o', 'r'] {
        Some(TokenKind::Or)
    } else if w == seq!['i', 'f'] {
        Some(TokenKind::If)
    } else if w == seq!['e', 'l', 's', 'e'] {
        Some(TokenKind::Else)
    } else if w == seq!['f', 'o', 'r'] {
        Some(TokenKind::For)
    } else if w == seq!['w', 'h', 'i', 'l', 'e'] {
        Some(TokenKind::While)
    } else if w == seq!['c', 'l', 'a', 's', 's'] {
        Some(TokenKind::Class)
    } else if w == seq!['t', 'h', 'i', 's'] {
        Some(TokenKind::This)
    } else if w == seq!['s', 'u', 'p', 'e', 'r'] {
        Some(TokenKind::Super)
    } else if w == seq!['f', 'u', 'n'] {
        Some(TokenKind::Fun)
    } else if w == seq!['r', 'e', 't', 'u', 'r', 'n'] {
        Some(TokenKind::Return)
    } else if w == seq!['v', 'a', 'r'] {
        Some(TokenKind::Var)
    } else if w == seq!['p', 'r', 'i', 'n', 't'] {
        Some(TokenKind::Print)
    } else {
        None
    }
}

/// A token with no payload.
pub open spec fn fixed(kind: TokenKind, line: nat) -> TokenView {
    TokenView { kind, line, text: seq![] }
}

/// The outcome of recognizing one lexeme: where the next one starts, the line reached,
/// and the token or the error produced (at most one of the two).
pub ghost struct Step {
    pub next: int,
    pub line: nat,
    pub token: Option<TokenView>,
    pub error: Option<ScanError>,
}

/// A step that emits `token` after consuming `len` characters from `i`.
pub open spec fn emit(i: int, len: int, line: nat, token: TokenView) -> Step {
    Step { next: i + len, line, token: Some(token), error: None }
}

/// A step that consumes characters up to `next` and emits nothing.
pub open spec fn skip(next: int, line: nat) -> Step {
    Step { next, line, token: None, error: None }
}

/// One of `=`, `!`, `<`, `>`: the two-character operator when `=` follows, else the one-character one.
pub open spec fn operator_step(
    src: Seq<char>,
    i: int,
    line: nat,
    two: TokenKind,
    one: TokenKind,
) -> Step {
    if i + 1 < src.len() && src[i + 1] == '=' {
        emit(i, 2, line, fixed(two, line))
    } else {
        emit(i, 1, line, fixed(one, line))
    }
}

/// A string literal opened by the `"` at `i`.
pub open spec fn string_step(src: Seq<char>, i: int, line: nat) -> Step {
    let close = find_char(src, i + 1, '"');
    let reached = line + newlines(src, i + 1, close);
    if close >= src.len() {
        Step {
            next: close,
            line: reached,
            token: None,
            error: Some(ScanError::UnterminatedString { line: reached as usize }),
        }
    } else {
        emit(
            close,
            1,
            reached,
            TokenView { kind: TokenKind::String, line: reached, text: src.subrange(i + 1, close) },
        )
    }
}

/// A number literal whose first digit is at `i`.
pub open spec fn number_step(src: Seq<char>, i: int, line: nat) -> Step {
    let end = number_end(src, i);
    emit(i, end - i, line, TokenView { kind: TokenKind::Number, line, text: src.subrange(i, end) })
}

/// An identifier or a keyword starting at `i`.
pub open spec fn word_step(src: Seq<char>, i: int, line: nat) -> Step {
    let end = ident_end(src, i + 1);
    let w = src.subrange(i, end);
    match keyword(w) {
        Some(k) => emit(i, end - i, line, fixed(k, line)),
        None => emit(i, end - i, line, TokenView { kind: TokenKind::Identifier, line, text: w }),
    }
}

/// The lexeme that starts at index `i` (which holds a character), on line `line`.
pub open spec fn step(src: Seq<char>, i: int, line: nat) -> Step {
    let c = src[i];
    if c == '(' {
        emit(i, 1, line, fixed(TokenKind::LeftParen, line))
    } else if c == ')' {
        emit(i, 1, line, fixed(TokenKind::RightParen, line))
    } else if c == '{' {
        emit(i, 1, line, fixed(TokenKind::LeftBrace, line))
    } else if c == '}' {
        emit(i, 1, line, fixed(TokenKind::RightBrace, line))
    } else if c == '.' {
        emit(i, 1, line, fixed(TokenKind::Dot, line))
    } else if c == ',' {
        emit(i, 1, line, fixed(TokenKind::Comma, line))
    } else if c == ';' {
        emit(i, 1, line, fixed(TokenKind::Semicolon, line))
    } else if c == '+' {
        emit(i, 1, line, fixed(TokenKind::Plus, line))
    } else if c == '-' {
        emit(i, 1, line, fixed(TokenKind::Minus, line))
    } else if c == '*' {
        emit(i, 1, line, fixed(TokenKind::Asterisk, line))
    } else if c == '/' {
        if i + 1 < src.len() && src[i + 1] == '/' {
            skip(find_char(src, i + 2, '\n'), line)
        } else {
            emit(i, 1, line, fixed(TokenKind::Slash, line))
        }
    } else if c == '=' {
        operator_step(src, i, line, TokenKind::EqualEqual, TokenKind::Equal)
    } else if c == '!' {
        operator_step(src, i, line, TokenKind::NotEqual, TokenKind::Bang)
    } else if c == '<' {
        operator_step(src, i, line, TokenKind::LessEqual, TokenKind::LessThan)
    } else if c == '>' {
        operator_step(src, i, line, TokenKind::GreaterEqual, TokenKind::GreaterThan)
    } else if c == ' ' || c == '\r' || c == '\t' {
        skip(i + 1, line)
    } else if c == '\n' {
        skip(i + 1, line + 1)
    } else if c == '"' {
        string_step(src, i, line)
    } else if numeric_char(c) {
        number_step(src, i, line)
    } else if is_ident_start(c) {
        word_step(src, i, line)
    } else {
        Step {
            next: i + 1,
            line,
            token: None,
            error: Some(ScanError::UnexpectedCharacter { line: line as usize }),
        }
    }
}

proof fn lemma_digits_end(src: Seq<char>, i: int)
    requires
        0 <= i <= src.len(),
    ensures
        i <= digits_end(src, i) <= src.len(),
    decreases src.len() - i,
{
    if i < src.len() && numeric_char(src[i]) {
        lemma_digits_end(src, i + 1);
    }
}

proof fn lemma_ident_end(src: Seq<char>, i: int)
    requires
        0 <= i <= src.len(),
    ensures
        i <= ident_end(src, i) <= src.len(),
    decreases src.len() - i,
{
    if i < src.len() && is_ident_char(src[i]) {
        lemma_ident_end(src, i + 1);
    }
}

proof fn lemma_find_char(src: Seq<char>, i: int, stop: char)
    requires
        0 <= i <= src.len(),
    ensures
        i <= find_char(src, i, stop) <= src.len(),
    decreases src.len() - i,
{
    if i < src.len() && src[i] != stop {
        lemma_find_char(src, i + 1, stop);
    }
}

proof fn lemma_newlines_bound(src: Seq<char>, a: int, b: int)
    requires
        a <= b,
    ensures
        newlines(src, a, b) <= b - a,
    decreases b - a,
{
    if a < b {
        lemma_newlines_bound(src, a, b - 1);
    }
}

/// Each step consumes at least one character, stays within the input, and raises the line
/// by at most the number of characters consumed.
pub(crate) proof fn lemma_step(src: Seq<char>, i: int, line: nat)
    requires
        0 <= i < src.len(),
    ensures
        i < step(src, i, line).next <= src.len(),
        line <= step(src, i, line).line <= line + (step(src, i, line).next - i),
{
    let c = src[i];
    if c == '/' {
        if i + 1 < src.len() && src[i + 1] == '/' {
            lemma_find_char(src, i + 2, '\n');
        }
    } else if c == '"' {
        lemma_find_char(src, i + 1, '"');
        let close = find_char(src, i + 1, '"');
        lemma_newlines_bound(src, i + 1, close);
    } else if numeric_char(c) {
        lemma_digits_end(src, i + 1);
        let j = digits_end(src, i + 1);
        if j + 1 < src.len() && src[j] == '.' && numeric_char(src[j + 1]) {
            lemma_digits_end(src, j + 1);
        }
    } else if is_ident_start(c) {
        lemma_ident_end(src, i + 1);
    }
}

/// A sequence of at most one element.
pub open spec fn opt_seq<T>(o: Option<T>) -> Seq<T> {
    match o {
        Some(x) => seq![x],
        None => seq![],
    }
}

/// `s` with `o` appended when there is one.
pub open spec fn push_opt<T>(s: Seq<T>, o: Option<T>) -> Seq<T> {
    match o {
        Some(x) => s.push(x),
        None => s,
    }
}

/// Scanning from index `i` on line `line` to the end of `src`: the tokens and the errors
/// produced, in order, and the line reached at the end.
pub open spec fn scan_from(src: Seq<char>, i: int, line: nat) -> (Seq<TokenView>, Seq<ScanError>, nat)
    decreases src.len() - i,
    via scan_from_decreases
{
    if 0 <= i < src.len() {
        let s = step(src, i, line);
        let rest = scan_from(src, s.next, s.line);
        (opt_seq(s.token) + rest.0, opt_seq(s.error) + rest.1, rest.2)
    } else {
        (seq![], seq![], line)
    }
}

#[via_fn]
proof fn scan_from_decreases(src: Seq<char>, i: int, line: nat) {
    if 0 <= i < src.len() {
        lemma_step(src, i, line);
    }
}

/// The end-of-input token on line `line`.
pub open spec fn eof(line: nat) -> TokenView {
    fixed(TokenKind::Eof, line)
}

/// The state of a scanner: the source, the tokens and errors recorded so far, the start of
/// the current lexeme, the next unread index, and the current line.
pub ghost struct ScannerState {
    pub source: Seq<char>,
    pub tokens: Seq<TokenView>,
    pub errors: Seq<ScanError>,
    pub start: nat,
    pub current: nat,
    pub line: nat,
}

impl ScannerState {
    /// The cursors lie within the source, lines start at 1 and grow by at most one per
    /// character read, and a line number past the end still fits in `usize`.
    pub open spec fn wf(self) -> bool {
        &&& self.start <= self.current <= self.source.len()
        &&& 1 <= self.line <= self.current + 1
        &&& self.source.len() < usize::MAX
    }

    /// The state after a step: its token and error recorded, its cursor and line taken.
    pub open spec fn after(self, s: Step) -> ScannerState {
        ScannerState {
            tokens: push_opt(self.tokens, s.token),
            errors: push_opt(self.errors, s.error),
            current: s.next as nat,
            line: s.line,
            ..self
        }
    }

    /// What scanning the rest of the source yields.
    pub open spec fn rest(self) -> (Seq<TokenView>, Seq<ScanError>, nat) {
        scan_from(self.source, self.current as int, self.line)
    }

    /// The result of running the scanner to the end from this state: all its tokens and
    /// an end-of-input token if no error was ever recorded, else all its errors.
    pub open spec fn outcome(self) -> Result<Seq<TokenView>, Seq<ScanError>> {
        let errors = self.errors + self.rest().1;
        if errors.len() == 0 {
            Ok(self.tokens + self.rest().0 + seq![eof(self.rest().2)])
        } else {
            Err(errors)
        }
    }
}

/// The state of a scanner freshly made for `src`.
pub open spec fn fresh(src: Seq<char>) -> ScannerState {
    ScannerState { source: src, tokens: seq![], errors: seq![], start: 0, current: 0, line: 1 }
}

/// The result of scanning all of `src`.
pub open spec fn scan_spec(src: Seq<char>) -> Result<Seq<TokenView>, Seq<ScanError>> {
    fresh(src).outcome()
}

/// The views of a sequence of tokens.
pub open spec fn views(ts: Seq<Token>) -> Seq<TokenView> {
    ts.map_values(|t: Token| t@)
}

/// The view of a scan's result.
pub open spec fn result_view(r: Result<Vec<Token>, Vec<ScanError>>) -> Result<Seq<TokenView>, Seq<ScanError>> {
    match r {
        Ok(v) => Ok(views(v@)),
        Err(e) => Err(e@),
    }
}

/// Converts source text into tokens in one forward pass, collecting every lexical error.
#[derive(Debug)]
pub struct Scanner {
    source: Vec<char>,
    tokens: Vec<Token>,
    errors: Vec<ScanError>,
    start: usize,
    current: usize,
    line: usize,
}

impl View for Scanner {
    type V = ScannerState;

    closed spec fn view(&self) -> ScannerState {
        ScannerState {
            source: self.source@,
            tokens: views(self.tokens@),
            errors: self.errors@,
            start: self.start as nat,
            current: self.current as nat,
            line: self.line as nat,
        }
    }
}

impl Scanner {
    /// A scanner at the start of `source`, on line 1, with nothing recorded.
    pub fn new(source: String) -> (r: Self)
        requires
            source@.len() < usize::MAX,
        ensures
            r@ == fresh(source@),
            r@.wf(),
    {
        let r = Scanner {
            source: chars_of(source.as_str()),
            tokens: Vec::new(),
            errors: Vec::new(),
            start: 0,
            current: 0,
            line: 1,
        };
        assert(views(r.tokens@) =~= seq![]);
        r
    }

    /// Whether every character has been read.
    fn is_eof(&self) -> (r: bool)
        ensures
            r == (self.current >= self.source.len()),
    {
        self.current >= self.source.len()
    }

    /// The next unread character, or NUL at the end.
    fn peek(&self) -> (r: char)
        ensures
            r == if self.current < self.source.len() {
                self.source@[self.current as int]
            } else {
                '\0'
            },
    {
        if self.is_eof() {
            '\0'
        } else {
            self.source[self.current]
        }
    }

    /// The character after the next unread one, or NUL past the end.
    fn peek_next(&self) -> (r: char)
        ensures
            r == if self.current + 1 < self.source.len() {
                self.source@[self.current + 1]
            } else {
                '\0'
            },
    {
        if self.current >= self.source.len() || self.current + 1 >= self.source.len() {
            '\0'
        } else {
            self.source[self.current + 1]
        }
    }

    /// Reads the next character.
    fn advance(&mut self) -> (r: char)
        requires
            old(self)@.wf(),
            old(self).current < old(self).source.len(),
        ensures
            r == old(self).source@[old(self).current as int],
            final(self)@ == (ScannerState { current: old(self)@.current + 1, ..old(self)@ }),
            final(self)@.wf(),
    {
        let c = self.source[self.current];
        self.current = self.current + 1;
        c
    }

    /// Reads the next character if it is `expected`.
    fn is_expected(&mut self, expected: char) -> (r: bool)
        requires
            old(self)@.wf(),
        ensures
            r == (old(self).current < old(self).source.len()
                && old(self).source@[old(self).current as int] == expected),
            final(self)@ == (ScannerState {
                current: old(self)@.current + if r { 1nat } else { 0nat },
                ..old(self)@
            }),
            final(self)@.wf(),
    {
        if self.is_eof() {
            return false;
        }
        if self.source[self.current] != expected {
            return false;
        }
        self.current = self.current + 1;
        true
    }

    /// The characters of `source[from..to]` as a string.
    fn text(&self, from: usize, to: usize) -> (r: String)
        requires
            from <= to <= self.source.len(),
        ensures
            r@ == self.source@.subrange(from as int, to as int),
    {
        let mut r = String::new();
        let mut k: usize = from;
        while k < to
            invariant
                from <= k <= to <= self.source.len(),
                r@ == self.source@.subrange(from as int, k as int),
            decreases to - k,
        {
            push_char(&mut r, self.source[k]);
            k = k + 1;
            assert(r@ =~= self.source@.subrange(from as int, k as int));
        }
        r
    }

    /// Records a token.
    fn add_token(&mut self, t: Token)
        ensures
            final(self)@ == (ScannerState { tokens: old(self)@.tokens.push(t@), ..old(self)@ }),
    {
        self.tokens.push(t);
        assert(views(self.tokens@) =~= views(old(self).tokens@).push(t@));
    }

    /// Records an error.
    fn add_error(&mut self, e: ScanError)
        ensures
            final(self)@ == (ScannerState { errors: old(self)@.errors.push(e), ..old(self)@ }),
    {
        self.errors.push(e);
    }

    /// Recognizes the lexeme that starts at the current character.
    fn scan_token(&mut self)
        requires
            old(self)@.wf(),
            old(self).start == old(self).current,
            old(self).current < old(self).source.len(),
        ensures
            final(self)@ == old(self)@.after(
                step(old(self)@.source, old(self).current as int, old(self)@.line),
            ),
            final(self)@.wf(),
    {
        let ghost src = self.source@;
        let ghost i = self.current as int;
        let line = self.line;
        let c = self.advance();
        match c {
            '(' => self.add_token(Token::LeftParen { line }),
            ')' => self.add_token(Token::RightParen { line }),
            '{' => self.add_token(Token::LeftBrace { line }),
            '}' => self.add_token(Token::RightBrace { line }),
            '.' => self.add_token(Token::Dot { line }),
            ',' => self.add_token(Token::Comma { line }),
            ';' => self.add_token(Token::Semicolon { line }),
            '+' => self.add_token(Token::Plus { line }),
            '-' => self.add_token(Token::Minus { line }),
            '*' => self.add_token(Token::Asterisk { line }),
            '/' => {
                if self.is_expected('/') {
                    while self.peek() != '\n' && !self.is_eof()
                        invariant
                            self@.wf(),
                            self@ == (ScannerState { current: self@.current, ..old(self)@ }),
                            i + 2 <= self.current,
                            self.source@ == src,
                            find_char(src, self.current as int, '\n') == find_char(src, i + 2, '\n'),
                        decreases self.source.len() - self.current,
                    {
                        self.advance();
                    }
                } else {
                    self.add_token(Token::Slash { line });
                }
            },
            '=' => {
                if self.is_expected('=') {
                    self.add_token(Token::EqualEqual { line });
                } else {
                    self.add_token(Token::Equal { line });
                }
            },
            '!' => {
                if self.is_expected('=') {
                    self.add_token(Token::NotEqual { line });
                } else {
                    self.add_token(Token::Bang { line });
                }
            },
            '<' => {
                if self.is_expected('=') {
                    self.add_token(Token::LessEqual { line });
                } else {
                    self.add_token(Token::LessThan { line });
                }
            },
            '>' => {
                if self.is_expected('=') {
                    self.add_token(Token::GreaterEqual { line });
                } else {
                    self.add_token(Token::GreaterThan { line });
                }
            },
            ' ' | '\r' | '\t' => {},
            '\n' => {
                self.line = self.line + 1;
            },
            '"' => self.string(),
            _ => {
                if is_numeric(c) {
                    self.number();
                } else if is_ident_start_exec(c) {
                    self.identifier();
                } else {
                    self.add_error(ScanError::UnexpectedCharacter { line });
                }
            },
        }
    }

    /// Scans the rest of the source, then appends the end-of-input token. Returns every token
    /// recorded if no error was ever recorded, else every error, in order.
    pub fn scan_tokens(&mut self) -> (r: Result<Vec<Token>, Vec<ScanError>>)
        requires
            old(self)@.wf(),
        ensures
            result_view(r) == old(self)@.outcome(),
            final(self)@.wf(),
            final(self)@.source == old(self)@.source,
            final(self)@.current == old(self)@.source.len(),
            final(self)@.line == old(self)@.rest().2,
            final(self)@.tokens == old(self)@.tokens + old(self)@.rest().0 + seq![eof(old(self)@.rest().2)],
            final(self)@.errors == old(self)@.errors + old(self)@.rest().1,
    {
        let ghost src = self.source@;
        while !self.is_eof()
            invariant
                self@.wf(),
                self@.source == src,
                self@.tokens + self@.rest().0 == old(self)@.tokens + old(self)@.rest().0,
                self@.errors + self@.rest().1 == old(self)@.errors + old(self)@.rest().1,
                self@.rest().2 == old(self)@.rest().2,
            decreases self.source.len() - self.current,
        {
            self.start = self.current;
            let ghost before = self@;
            self.scan_token();
            proof {
                let st = step(src, before.current as int, before.line);
                lemma_step(src, before.current as int, before.line);
                let rest = self@.rest();
                assert(before.rest() == (opt_seq(st.token) + rest.0, opt_seq(st.error) + rest.1, rest.2));
                match st.token {
                    Some(t) => assert(before.tokens + before.rest().0 =~= self@.tokens + rest.0),
                    None => assert(before.tokens + before.rest().0 =~= self@.tokens + rest.0),
                }
                match st.error {
                    Some(e) => assert(before.errors + before.rest().1 =~= self@.errors + rest.1),
                    None => assert(before.errors + before.rest().1 =~= self@.errors + rest.1),
                }
            }
        }
        assert(self@.tokens =~= old(self)@.tokens + old(self)@.rest().0);
        assert(self@.errors =~= old(self)@.errors + old(self)@.rest().1);
        let line = self.line;
        self.add_token(Token::Eof { line });
        if self.errors.len() == 0 {
            Ok(self.copy_tokens())
        } else {
            Err(self.copy_errors())
        }
    }

    /// A copy of the tokens recorded.
    fn copy_tokens(&self) -> (r: Vec<Token>)
        ensures
            views(r@) == views(self.tokens@),
    {
        let mut r: Vec<Token> = Vec::new();
        let mut k: usize = 0;
        while k < self.tokens.len()
            invariant
                k <= self.tokens.len(),
                r@.len() == k,
                forall|j: int| 0 <= j < k ==> (#[trigger] r@[j])@ == self.tokens@[j]@,
            decreases self.tokens.len() - k,
        {
            r.push(self.tokens[k].duplicate());
            k = k + 1;
        }
        assert(views(r@) =~= views(self.tokens@));
        r
    }

    /// A copy of the errors recorded.
    fn copy_errors(&self) -> (r: Vec<ScanError>)
        ensures
            r@ == self.errors@,
    {
        let mut r: Vec<ScanError> = Vec::new();
        let mut k: usize = 0;
        while k < self.errors.len()
            invariant
                k <= self.errors.len(),
                r@ == self.errors@.subrange(0, k as int),
            decreases self.errors.len() - k,
        {
            r.push(self.errors[k]);
            k = k + 1;
            assert(r@ =~= self.errors@.subrange(0, k as int));
        }
        assert(self.errors@.subrange(0, k as int) =~= self.errors@);
        r
    }

    /// Recognizes a number literal whose first digit has just been read.
    fn number(&mut self)
        requires
            old(self)@.wf(),
            old(self).start + 1 == old(self).current,
        ensures
            final(self)@ == old(self)@.after(
                number_step(old(self)@.source, old(self).start as int, old(self)@.line),
            ),
            final(self)@.wf(),
    {
        let ghost src = self.source@;
        let ghost i = self.start as int;
        while !self.is_eof() && is_numeric(self.peek())
            invariant
                self@.wf(),
                self@ == (ScannerState { current: self@.current, ..old(self)@ }),
                i + 1 <= self.current,
                self.source@ == src,
                digits_end(src, self.current as int) == digits_end(src, i + 1),
            decreases self.source.len() - self.current,
        {
            self.advance();
        }
        if self.peek() == '.' && self.current + 1 < self.source.len() && is_numeric(self.peek_next()) {
            self.advance();
            while !self.is_eof() && is_numeric(self.peek())
                invariant
                    self@.wf(),
                    self@ == (ScannerState { current: self@.current, ..old(self)@ }),
                    i + 1 <= self.current,
                self.source@ == src,
                    digits_end(src, self.current as int) == number_end(src, i),
                decreases self.source.len() - self.current,
            {
                self.advance();
            }
        }
        let line = self.line;
        let literal = self.text(self.start, self.current);
        self.add_token(Token::Number { line, literal });
    }

    /// Recognizes a string literal whose opening quote has just been read.
    fn string(&mut self)
        requires
            old(self)@.wf(),
            old(self).start + 1 == old(self).current,
        ensures
            final(self)@ == old(self)@.after(
                string_step(old(self)@.source, old(self).start as int, old(self)@.line),
            ),
            final(self)@.wf(),
    {
        let ghost src = self.source@;
        let ghost i = self.start as int;
        while self.peek() != '"' && !self.is_eof()
            invariant
                self@.wf(),
                self@ == (ScannerState { current: self@.current, line: self@.line, ..old(self)@ }),
                i + 1 <= self.current,
                self.source@ == src,
                find_char(src, self.current as int, '"') == find_char(src, i + 1, '"'),
                self@.line == old(self)@.line + newlines(src, i + 1, self.current as int),
            decreases self.source.len() - self.current,
        {
            let c = self.advance();
            proof {
                lemma_newlines_bound(src, i + 1, self.current as int);
            }
            if c == '\n' {
                self.line = self.line + 1;
            }
        }
        if self.is_eof() {
            self.add_error(ScanError::UnterminatedString { line: self.line });
            return;
        }
        self.advance();
        let line = self.line;
        let literal = self.text(self.start + 1, self.current - 1);
        self.add_token(Token::String { line, literal });
    }

    /// Whether the current lexeme is `w`.
    fn lexeme_is(&self, w: &[char]) -> (r: bool)
        requires
            self.start <= self.current <= self.source.len(),
        ensures
            r == (self.source@.subrange(self.start as int, self.current as int) == w@),
    {
        let ghost lex = self.source@.subrange(self.start as int, self.current as int);
        if self.current - self.start != w.len() {
            assert(lex.len() != w@.len());
            return false;
        }
        let mut k: usize = 0;
        while k < w.len()
            invariant
                self.start <= self.current <= self.source.len(),
                self.current - self.start == w@.len(),
                k <= w@.len(),
                lex == self.source@.subrange(self.start as int, self.current as int),
                forall|j: int| 0 <= j < k ==> lex[j] == w@[j],
            decreases w.len() - k,
        {
            if self.source[self.start + k] != w[k] {
                assert(lex[k as int] != w@[k as int]);
                return false;
            }
            k = k + 1;
        }
        assert(lex =~= w@);
        true
    }

    /// Recognizes an identifier or a keyword whose first character has just been read.
    fn identifier(&mut self)
        requires
            old(self)@.wf(),
            old(self).start + 1 == old(self).current,
        ensures
            final(self)@ == old(self)@.after(
                word_step(old(self)@.source, old(self).start as int, old(self)@.line),
            ),
            final(self)@.wf(),
    {
        let ghost src = self.source@;
        let ghost i = self.start as int;
        while is_ident_char_exec(self.peek())
            invariant
                self@.wf(),
                self@ == (ScannerState { current: self@.current, ..old(self)@ }),
                i + 1 <= self.current,
                self.source@ == src,
                ident_end(src, self.current as int) == ident_end(src, i + 1),
            decreases self.source.len() - self.current,
        {
            self.advance();
        }
        let line = self.line;
        let t = if self.lexeme_is(&['t', 'r', 'u', 'e']) {
            Token::True { line }
        } else if self.lexeme_is(&['f', 'a', 'l', 's', 'e']) {
            Token::False { line }
        } else if self.lexeme_is(&['n', 'i', 'l']) {
            Token::Nil { line }
        } else if self.lexeme_is(&['a', 'n', 'd']) {
            Token::And { line }
        } else if self.lexeme_is(&['o', 'r']) {
            Token::Or { line }
        } else if self.lexeme_is(&['i', 'f']) {
            Token::If { line }
        } else if self.lexeme_is(&['e', 'l', 's', 'e']) {
            Token::Else { line }
        } else if self.lexeme_is(&['f', 'o', 'r']) {
            Token::For { line }
        } else if self.lexeme_is(&['w', 'h', 'i', 'l', 'e']) {
            Token::While { line }
        } else if self.lexeme_is(&['c', 'l', 'a', 's', 's']) {
            Token::Class { line }
        } else if self.lexeme_is(&['t', 'h', 'i', 's']) {
            Token::This { line }
        } else if self.lexeme_is(&['s', 'u', 'p', 'e', 'r']) {
            Token::Super { line }
        } else if self.lexeme_is(&['f', 'u', 'n']) {
            Token::Fun { line }
        } else if self.lexeme_is(&['r', 'e', 't', 'u', 'r', 'n']) {
            Token::Return { line }
        } else if self.lexeme_is(&['v', 'a', 'r']) {
            Token::Var { line }
        } else if self.lexeme_is(&['p', 'r', 'i', 'n', 't']) {
            Token::Print { line }
        } else {
            Token::Identifier { line, literal: self.text(self.start, self.current) }
        };
        self.add_token(t);
    }
}

/// Whether `c` may start an identifier.
fn is_ident_start_exec(c: char) -> (r: bool)
    ensures
        r == is_ident_start(c),
{
    ('a' <= c && c <= 'z') || ('A' <= c && c <= 'Z') || c == '_'
}

/// Scans all of `source`: its tokens, ending in one end-of-input token, if it holds no
/// lexical error, else every lexical error in the order found.
pub fn scan(source: String) -> (r: Result<Vec<Token>, Vec<ScanError>>)
    requires
        source@.len() < usize::MAX,
    ensures
        result_view(r) == scan_spec(source@),
{
    let mut scanner = Scanner::new(source);
    scanner.scan_tokens()
}

/// Whether `c` may continue an identifier.
fn is_ident_char_exec(c: char) -> (r: bool)
    ensures
        r == is_ident_char(c),
{
    ('a' <= c && c <= 'z') || ('A' <= c && c <= 'Z') || c == '_' || ('0' <= c && c <= '9')
}

} // verus!
