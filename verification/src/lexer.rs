use vstd::prelude::*;
use crate::text::{char_is_alphabetic, char_is_alphanumeric, chars_eq_str, chars_of, is_alnum,
    is_alpha, string_from_chars};

verus! {

/// Kinds of token the lexer produces. Payload-bearing kinds carry their text;
/// a number literal keeps its raw spelling, since no rule of the grammar
/// consumes a number.
#[derive(Debug, PartialEq, Clone)]
pub enum TokenType {
    // Keywords
    Service,
    Endpoint,
    Class,
    Interface,
    Async,
    Await,
    Cloud,
    Import,
    Export,
    Try,
    Catch,
    Defer,
    Return,
    // Symbols
    LeftBrace,
    RightBrace,
    LeftParen,
    RightParen,
    Arrow,
    Colon,
    Semicolon,
    At,
    // Literals
    Identifier(String),
    StringLiteral(String),
    NumberLiteral(String),
    // Special
    EOF,
}

/// Mathematical model of a token kind: payloads are character sequences.
pub enum Tok {
    Service,
    Endpoint,
    Class,
    Interface,
    Async,
    Await,
    Cloud,
    Import,
    Export,
    Try,
    Catch,
    Defer,
    Return,
    LeftBrace,
    RightBrace,
    LeftParen,
    RightParen,
    Arrow,
    Colon,
    Semicolon,
    At,
    Identifier(Seq<char>),
    StringLiteral(Seq<char>),
    NumberLiteral(Seq<char>),
    EOF,
}

impl View for TokenType {
    type V = Tok;

    open spec fn view(&self) -> Tok {
        match self {
            TokenType::Service => Tok::Service,
            TokenType::Endpoint => Tok::Endpoint,
            TokenType::Class => Tok::Class,
            TokenType::Interface => Tok::Interface,
            TokenType::Async => Tok::Async,
            TokenType::Await => Tok::Await,
            TokenType::Cloud => Tok::Cloud,
            TokenType::Import => Tok::Import,
            TokenType::Export => Tok::Export,
            TokenType::Try => Tok::Try,
            TokenType::Catch => Tok::Catch,
            TokenType::Defer => Tok::Defer,
            TokenType::Return => Tok::Return,
            TokenType::LeftBrace => Tok::LeftBrace,
            TokenType::RightBrace => Tok::RightBrace,
            TokenType::LeftParen => Tok::LeftParen,
            TokenType::RightParen => Tok::RightParen,
            TokenType::Arrow => Tok::Arrow,
            TokenType::Colon => Tok::Colon,
            TokenType::Semicolon => Tok::Semicolon,
            TokenType::At => Tok::At,
            TokenType::Identifier(s) => Tok::Identifier(s@),
            TokenType::StringLiteral(s) => Tok::StringLiteral(s@),
            TokenType::NumberLiteral(s) => Tok::NumberLiteral(s@),
            TokenType::EOF => Tok::EOF,
        }
    }
}

/// Whether two token kinds are the same variant, payloads ignored. This is
/// how the parser matches tokens: by kind, never by payload.
pub open spec fn same_kind(a: Tok, b: Tok) -> bool {
    match (a, b) {
        (Tok::Service, Tok::Service) => true,
        (Tok::Endpoint, Tok::Endpoint) => true,
        (Tok::Class, Tok::Class) => true,
        (Tok::Interface, Tok::Interface) => true,
        (Tok::Async, Tok::Async) => true,
        (Tok::Await, Tok::Await) => true,
        (Tok::Cloud, Tok::Cloud) => true,
        (Tok::Import, Tok::Import) => true,
        (Tok::Export, Tok::Export) => true,
        (Tok::Try, Tok::Try) => true,
        (Tok::Catch, Tok::Catch) => true,
        (Tok::Defer, Tok::Defer) => true,
        (Tok::Return, Tok::Return) => true,
        (Tok::LeftBrace, Tok::LeftBrace) => true,
        (Tok::RightBrace, Tok::RightBrace) => true,
        (Tok::LeftParen, Tok::LeftParen) => true,
        (Tok::RightParen, Tok::RightParen) => true,
        (Tok::Arrow, Tok::Arrow) => true,
        (Tok::Colon, Tok::Colon) => true,
        (Tok::Semicolon, Tok::Semicolon) => true,
        (Tok::At, Tok::At) => true,
        (Tok::Identifier(_), Tok::Identifier(_)) => true,
        (Tok::StringLiteral(_), Tok::StringLiteral(_)) => true,
        (Tok::NumberLiteral(_), Tok::NumberLiteral(_)) => true,
        (Tok::EOF, Tok::EOF) => true,
        _ => false,
    }
}

impl TokenType {
    /// Whether two tokens have the same kind, payloads ignored.
    pub fn kind_matches(&self, other: &TokenType) -> (b: bool)
        ensures
            b == same_kind(self@, other@),
    {
        match (self, other) {
            (TokenType::Service, TokenType::Service) => true,
            (TokenType::Endpoint, TokenType::Endpoint) => true,
            (TokenType::Class, TokenType::Class) => true,
            (TokenType::Interface, TokenType::Interface) => true,
            (TokenType::Async, TokenType::Async) => true,
            (TokenType::Await, TokenType::Await) => true,
            (TokenType::Cloud, TokenType::Cloud) => true,
            (TokenType::Import, TokenType::Import) => true,
            (TokenType::Export, TokenType::Export) => true,
            (TokenType::Try, TokenType::Try) => true,
            (TokenType::Catch, TokenType::Catch) => true,
            (TokenType::Defer, TokenType::Defer) => true,
            (TokenType::Return, TokenType::Return) => true,
            (TokenType::LeftBrace, TokenType::LeftBrace) => true,
            (TokenType::RightBrace, TokenType::RightBrace) => true,
            (TokenType::LeftParen, TokenType::LeftParen) => true,
            (TokenType::RightParen, TokenType::RightParen) => true,
            (TokenType::Arrow, TokenType::Arrow) => true,
            (TokenType::Colon, TokenType::Colon) => true,
            (TokenType::Semicolon, TokenType::Semicolon) => true,
            (TokenType::At, TokenType::At) => true,
            (TokenType::Identifier(_), TokenType::Identifier(_)) => true,
            (TokenType::StringLiteral(_), TokenType::StringLiteral(_)) => true,
            (TokenType::NumberLiteral(_), TokenType::NumberLiteral(_)) => true,
            (TokenType::EOF, TokenType::EOF) => true,
            _ => false,
        }
    }
}

/// A token with the position where it starts.
#[derive(Debug, Clone)]
pub struct Token {
    pub token_type: TokenType,
    pub line: usize,
    pub column: usize,
}

/// Mathematical model of a token.
pub struct TokenSnap {
    pub kind: Tok,
    pub line: nat,
    pub column: nat,
}

impl View for Token {
    type V = TokenSnap;

    open spec fn view(&self) -> TokenSnap {
        TokenSnap { kind: self.token_type@, line: self.line as nat, column: self.column as nat }
    }
}

/// Mathematical model of the lexer: the full input and a cursor into it.
pub struct LexerState {
    pub input: Seq<char>,
    pub pos: nat,
    pub line: nat,
    pub column: nat,
}

impl LexerState {
    /// Cursor within bounds, position counters consistent with the cursor.
    /// The strict length bound keeps the line counter from overflowing.
    pub open spec fn wf(self) -> bool {
        &&& self.pos <= self.input.len()
        &&& 1 <= self.line
        &&& self.line <= self.pos + 1
        &&& self.column <= self.pos
        &&& self.input.len() < usize::MAX
    }
}

/// An ASCII decimal digit, exactly what `char::is_digit(10)` accepts.
pub open spec fn is_digit_char(c: char) -> bool {
    48 <= c as u32 && c as u32 <= 57
}

/// Cursor, line and column after skipping spaces, tabs and newlines:
/// a newline advances the line and resets the column.
pub open spec fn spec_skip_ws(input: Seq<char>, pos: nat, line: nat, col: nat) -> (nat, nat, nat)
    decreases input.len() - pos,
{
    if pos < input.len() && (input[pos as int] == ' ' || input[pos as int] == '\t') {
        spec_skip_ws(input, pos + 1, line, col + 1)
    } else if pos < input.len() && input[pos as int] == '\n' {
        spec_skip_ws(input, pos + 1, line + 1, 0)
    } else {
        (pos, line, col)
    }
}

/// End of the run of identifier characters (alphanumeric or underscore)
/// starting at `pos`.
pub open spec fn spec_scan_ident(input: Seq<char>, pos: nat) -> nat
    decreases input.len() - pos,
{
    if pos < input.len() && (is_alnum(input[pos as int]) || input[pos as int] == '_') {
        spec_scan_ident(input, pos + 1)
    } else {
        pos
    }
}

/// End of the run of digits and decimal points starting at `pos`.
pub open spec fn spec_scan_number(input: Seq<char>, pos: nat) -> nat
    decreases input.len() - pos,
{
    if pos < input.len() && (is_digit_char(input[pos as int]) || input[pos as int] == '.') {
        spec_scan_number(input, pos + 1)
    } else {
        pos
    }
}

/// What an escape sequence contributes to a string's value: `n`, `t`, `r`
/// map to their control characters, `\\` and `\"` to the bare character;
/// any other escaped character passes through literally, backslash and all
/// — which is how template placeholders like `\(name)` survive into the
/// literal.
pub open spec fn spec_escape_seq(c: char) -> Seq<char> {
    if c == 'n' {
        seq!['\n']
    } else if c == 't' {
        seq!['\t']
    } else if c == 'r' {
        seq!['\r']
    } else if c == '\\' {
        seq!['\\']
    } else if c == '"' {
        seq!['"']
    } else {
        seq!['\\', c]
    }
}

/// Scan of a string literal body from `pos` (just after the opening quote):
/// yields the accumulated value, the cursor after the literal, and the new
/// column. An unterminated literal consumes to end of input without erroring.
pub open spec fn spec_scan_string(input: Seq<char>, pos: nat, acc: Seq<char>, col: nat) -> (
    Seq<char>,
    nat,
    nat,
)
    decreases input.len() - pos,
{
    if pos >= input.len() {
        (acc, pos, col)
    } else if input[pos as int] == '"' {
        (acc, pos + 1, col + 1)
    } else if input[pos as int] == '\\' {
        if pos + 1 < input.len() {
            spec_scan_string(input, pos + 2, acc + spec_escape_seq(input[pos as int + 1]), col + 2)
        } else {
            (acc, pos + 1, col + 1)
        }
    } else {
        spec_scan_string(input, pos + 1, acc.push(input[pos as int]), col + 1)
    }
}

/// The token kind an identifier's text denotes: one of the fixed keywords,
/// matched case-sensitively, else an identifier carrying the text.
pub open spec fn spec_keyword(s: Seq<char>) -> Tok {
    if s == "service"@ {
        Tok::Service
    } else if s == "endpoint"@ {
        Tok::Endpoint
    } else if s == "class"@ {
        Tok::Class
    } else if s == "interface"@ {
        Tok::Interface
    } else if s == "async"@ {
        Tok::Async
    } else if s == "await"@ {
        Tok::Await
    } else if s == "cloud"@ {
        Tok::Cloud
    } else if s == "import"@ {
        Tok::Import
    } else if s == "export"@ {
        Tok::Export
    } else if s == "try"@ {
        Tok::Try
    } else if s == "catch"@ {
        Tok::Catch
    } else if s == "defer"@ {
        Tok::Defer
    } else if s == "return"@ {
        Tok::Return
    } else {
        Tok::Identifier(s)
    }
}

/// A single-character token at skipped position `p`: the cursor and column
/// advance by one; the token records the column where the character stood.
pub open spec fn spec_single(input: Seq<char>, p: nat, l: nat, c: nat, k: Tok) -> (
    TokenSnap,
    LexerState,
) {
    (TokenSnap { kind: k, line: l, column: c }, LexerState { input, pos: p + 1, line: l, column: c + 1 })
}

/// The next token of the input and the lexer state after it. This is the
/// whole lexer in one mathematical function: whitespace is skipped first;
/// at end of input the end marker is produced without moving; a `-` not
/// followed by `>` and any unrecognized character also produce the end
/// marker (the latter without advancing the column), deliberately keeping
/// the permissive fallbacks of the language.
pub open spec fn spec_next_token(st: LexerState) -> (TokenSnap, LexerState) {
    let (p, l, c) = spec_skip_ws(st.input, st.pos, st.line, st.column);
    let input = st.input;
    if p >= input.len() {
        (
            TokenSnap { kind: Tok::EOF, line: l, column: c },
            LexerState { input, pos: p, line: l, column: c },
        )
    } else {
        let ch = input[p as int];
        if ch == '{' {
            spec_single(input, p, l, c, Tok::LeftBrace)
        } else if ch == '}' {
            spec_single(input, p, l, c, Tok::RightBrace)
        } else if ch == '(' {
            spec_single(input, p, l, c, Tok::LeftParen)
        } else if ch == ')' {
            spec_single(input, p, l, c, Tok::RightParen)
        } else if ch == ':' {
            spec_single(input, p, l, c, Tok::Colon)
        } else if ch == ';' {
            spec_single(input, p, l, c, Tok::Semicolon)
        } else if ch == '@' {
            spec_single(input, p, l, c, Tok::At)
        } else if ch == '-' {
            if p + 1 < input.len() && input[p as int + 1] == '>' {
                (
                    TokenSnap { kind: Tok::Arrow, line: l, column: c },
                    LexerState { input, pos: p + 2, line: l, column: c + 2 },
                )
            } else {
                (
                    TokenSnap { kind: Tok::EOF, line: l, column: c },
                    LexerState { input, pos: p + 1, line: l, column: c + 1 },
                )
            }
        } else if ch == '"' {
            let (v, p2, c2) = spec_scan_string(input, p + 1, Seq::empty(), c + 1);
            (
                TokenSnap { kind: Tok::StringLiteral(v), line: l, column: c + 1 },
                LexerState { input, pos: p2, line: l, column: c2 },
            )
        } else if is_alpha(ch) {
            let e = spec_scan_ident(input, p + 1);
            (
                TokenSnap { kind: spec_keyword(input.subrange(p as int, e as int)), line: l, column: c },
                LexerState { input, pos: e, line: l, column: (c + e - p) as nat },
            )
        } else if is_digit_char(ch) {
            let e = spec_scan_number(input, p);
            (
                TokenSnap {
                    kind: Tok::NumberLiteral(input.subrange(p as int, e as int)),
                    line: l,
                    column: c,
                },
                LexerState { input, pos: e, line: l, column: (c + e - p) as nat },
            )
        } else {
            (
                TokenSnap { kind: Tok::EOF, line: l, column: c },
                LexerState { input, pos: p + 1, line: l, column: c },
            )
        }
    }
}

/// The cursor never moves backwards, and a token other than the end marker
/// is only produced by consuming at least one character.
pub proof fn lemma_next_token_advances(st: LexerState)
    requires
        st.wf(),
    ensures
        spec_next_token(st).1.pos >= st.pos,
        spec_next_token(st).1.pos <= st.input.len(),
        spec_next_token(st).1.wf(),
        spec_next_token(st).1.input == st.input,
        !(spec_next_token(st).0.kind is EOF) ==> spec_next_token(st).1.pos > st.pos,
{
    lemma_skip_ws_props(st.input, st.pos, st.line, st.column);
    let (p, l, c) = spec_skip_ws(st.input, st.pos, st.line, st.column);
    if p < st.input.len() {
        let ch = st.input[p as int];
        lemma_scan_ident_props(st.input, p + 1);
        lemma_scan_number_props(st.input, p + 1);
        if is_digit_char(ch) {
            assert(spec_scan_number(st.input, p) == spec_scan_number(st.input, p + 1));
        }
        if ch == '"' {
            lemma_scan_string_props(st.input, p + 1, Seq::empty(), c + 1);
        }
    }
}

/// Skipping whitespace moves the cursor forward, stays in bounds, and keeps
/// the counters consistent.
pub proof fn lemma_skip_ws_props(input: Seq<char>, pos: nat, line: nat, col: nat)
    requires
        pos <= input.len(),
        1 <= line,
        line <= pos + 1,
        col <= pos,
    ensures
        ({
            let (p, l, c) = spec_skip_ws(input, pos, line, col);
            &&& pos <= p <= input.len()
            &&& 1 <= l
            &&& l <= p + 1
            &&& c <= p
        }),
    decreases input.len() - pos,
{
    if pos < input.len() && (input[pos as int] == ' ' || input[pos as int] == '\t') {
        lemma_skip_ws_props(input, pos + 1, line, col + 1);
    } else if pos < input.len() && input[pos as int] == '\n' {
        lemma_skip_ws_props(input, pos + 1, line + 1, 0);
    }
}

/// The identifier scan moves forward and stays in bounds.
pub proof fn lemma_scan_ident_props(input: Seq<char>, pos: nat)
    requires
        pos <= input.len(),
    ensures
        pos <= spec_scan_ident(input, pos) <= input.len(),
    decreases input.len() - pos,
{
    if pos < input.len() && (is_alnum(input[pos as int]) || input[pos as int] == '_') {
        lemma_scan_ident_props(input, pos + 1);
    }
}

/// The number scan moves forward and stays in bounds.
pub proof fn lemma_scan_number_props(input: Seq<char>, pos: nat)
    requires
        pos <= input.len(),
    ensures
        pos <= spec_scan_number(input, pos) <= input.len(),
    decreases input.len() - pos,
{
    if pos < input.len() && (is_digit_char(input[pos as int]) || input[pos as int] == '.') {
        lemma_scan_number_props(input, pos + 1);
    }
}

/// The string scan moves forward, stays in bounds, and keeps the column
/// consistent with the cursor.
pub proof fn lemma_scan_string_props(input: Seq<char>, pos: nat, acc: Seq<char>, col: nat)
    requires
        pos <= input.len(),
        col <= pos,
    ensures
        ({
            let (v, p2, c2) = spec_scan_string(input, pos, acc, col);
            &&& pos <= p2 <= input.len()
            &&& c2 <= p2
        }),
    decreases input.len() - pos,
{
    if pos >= input.len() {
    } else if input[pos as int] == '"' {
    } else if input[pos as int] == '\\' {
        if pos + 1 < input.len() {
            lemma_scan_string_props(input, pos + 2, acc + spec_escape_seq(input[pos as int + 1]), col + 2);
        }
    } else {
        lemma_scan_string_props(input, pos + 1, acc.push(input[pos as int]), col + 1);
    }
}

/// The lexer: the input's characters and a cursor, with line and column
/// counters. Tokens are produced one at a time and never buffered.
pub struct Lexer {
    input: Vec<char>,
    pos: usize,
    line: usize,
    column: usize,
}

impl View for Lexer {
    type V = LexerState;

    closed spec fn view(&self) -> LexerState {
        LexerState {
            input: self.input@,
            pos: self.pos as nat,
            line: self.line as nat,
            column: self.column as nat,
        }
    }
}

impl Lexer {
    pub open spec fn wf(self) -> bool {
        self@.wf()
    }

    /// A lexer at the start of the given text: line 1, column 0.
    pub fn new(input: &str) -> (r: Lexer)
        requires
            input@.len() < usize::MAX,
        ensures
            r.wf(),
            r@ == (LexerState { input: input@, pos: 0 as nat, line: 1 as nat, column: 0 as nat }),
    {
        Lexer { input: chars_of(input), pos: 0, line: 1, column: 0 }
    }

    /// The next token of the input, advancing the cursor past it. After end
    /// of input this keeps returning the end marker.
    pub fn next_token(&mut self) -> (t: Token)
        requires
            old(self).wf(),
        ensures
            final(self).wf(),
            (t@, final(self)@) == spec_next_token(old(self)@),
    {
        proof {
            lemma_next_token_advances(old(self)@);
        }
        self.skip_whitespace();
        if self.pos < self.input.len() {
            let c = self.input[self.pos];
            if c == '{' {
                self.single_char_token(TokenType::LeftBrace)
            } else if c == '}' {
                self.single_char_token(TokenType::RightBrace)
            } else if c == '(' {
                self.single_char_token(TokenType::LeftParen)
            } else if c == ')' {
                self.single_char_token(TokenType::RightParen)
            } else if c == ':' {
                self.single_char_token(TokenType::Colon)
            } else if c == ';' {
                self.single_char_token(TokenType::Semicolon)
            } else if c == '@' {
                self.single_char_token(TokenType::At)
            } else if c == '-' {
                self.handle_arrow()
            } else if c == '"' {
                self.read_string()
            } else if char_is_alphabetic(c) {
                self.read_identifier()
            } else if (c as u32) >= 48 && (c as u32) <= 57 {
                self.read_number()
            } else {
                // Permissive fallback: an unrecognized character is consumed
                // and the end marker returned, the column left untouched.
                self.pos = self.pos + 1;
                Token { token_type: TokenType::EOF, line: self.line, column: self.column }
            }
        } else {
            Token { token_type: TokenType::EOF, line: self.line, column: self.column }
        }
    }

    fn skip_whitespace(&mut self)
        requires
            old(self).wf(),
        ensures
            final(self).wf(),
            final(self)@.input == old(self)@.input,
            (final(self)@.pos, final(self)@.line, final(self)@.column) == spec_skip_ws(
                old(self)@.input,
                old(self)@.pos,
                old(self)@.line,
                old(self)@.column,
            ),
    {
        loop
            invariant
                self.wf(),
                self@.input == old(self)@.input,
                spec_skip_ws(self@.input, self@.pos, self@.line, self@.column) == spec_skip_ws(
                    old(self)@.input,
                    old(self)@.pos,
                    old(self)@.line,
                    old(self)@.column,
                ),
            ensures
                self.wf(),
                self@.input == old(self)@.input,
                (self@.pos, self@.line, self@.column) == spec_skip_ws(
                    old(self)@.input,
                    old(self)@.pos,
                    old(self)@.line,
                    old(self)@.column,
                ),
            decreases self@.input.len() - self@.pos,
        {
            if self.pos < self.input.len() {
                let c = self.input[self.pos];
                if c == ' ' || c == '\t' {
                    self.pos = self.pos + 1;
                    self.column = self.column + 1;
                } else if c == '\n' {
                    self.pos = self.pos + 1;
                    self.line = self.line + 1;
                    self.column = 0;
                } else {
                    break;
                }
            } else {
                break;
            }
        }
    }

    fn single_char_token(&mut self, token_type: TokenType) -> (t: Token)
        requires
            old(self).wf(),
            old(self)@.pos < old(self)@.input.len(),
        ensures
            final(self).wf(),
            final(self)@.input == old(self)@.input,
            (t@, final(self)@) == spec_single(
                old(self)@.input,
                old(self)@.pos,
                old(self)@.line,
                old(self)@.column,
                token_type@,
            ),
    {
        let ghost k = token_type@;
        self.pos = self.pos + 1;
        self.column = self.column + 1;
        Token { token_type, line: self.line, column: self.column - 1 }
    }

    fn handle_arrow(&mut self) -> (t: Token)
        requires
            old(self).wf(),
            old(self)@.pos < old(self)@.input.len(),
        ensures
            final(self).wf(),
            final(self)@.input == old(self)@.input,
            ({
                let input = old(self)@.input;
                let p = old(self)@.pos;
                let l = old(self)@.line;
                let c = old(self)@.column;
                if p + 1 < input.len() && input[p as int + 1] == '>' {
                    (t@, final(self)@) == (
                        TokenSnap { kind: Tok::Arrow, line: l, column: c },
                        LexerState { input, pos: p + 2, line: l, column: c + 2 },
                    )
                } else {
                    (t@, final(self)@) == (
                        TokenSnap { kind: Tok::EOF, line: l, column: c },
                        LexerState { input, pos: p + 1, line: l, column: c + 1 },
                    )
                }
            }),
    {
        self.pos = self.pos + 1;
        self.column = self.column + 1;
        if self.pos < self.input.len() && self.input[self.pos] == '>' {
            self.pos = self.pos + 1;
            self.column = self.column + 1;
            Token { token_type: TokenType::Arrow, line: self.line, column: self.column - 2 }
        } else {
            // A lone `-` yields the end marker: the language has no minus
            // token, and this permissive fallback is kept deliberately.
            Token { token_type: TokenType::EOF, line: self.line, column: self.column - 1 }
        }
    }

    fn read_identifier(&mut self) -> (t: Token)
        requires
            old(self).wf(),
            old(self)@.pos < old(self)@.input.len(),
        ensures
            final(self).wf(),
            final(self)@.input == old(self)@.input,
            ({
                let input = old(self)@.input;
                let p = old(self)@.pos;
                let l = old(self)@.line;
                let c = old(self)@.column;
                let e = spec_scan_ident(input, p + 1);
                (t@, final(self)@) == (
                    TokenSnap { kind: spec_keyword(input.subrange(p as int, e as int)), line: l, column: c },
                    LexerState { input, pos: e, line: l, column: (c + e - p) as nat },
                )
            }),
    {
        let start_column = self.column;
        let ghost start = self@.pos;
        let ghost c0 = self@.column;
        let mut text: Vec<char> = Vec::new();
        text.push(self.input[self.pos]);
        self.pos = self.pos + 1;
        self.column = self.column + 1;
        proof {
            assert(text@ =~= self@.input.subrange(start as int, self@.pos as int));
        }
        loop
            invariant
                self.wf(),
                self@.input == old(self)@.input,
                self@.line == old(self)@.line,
                start + 1 <= self@.pos,
                self@.column == c0 + self@.pos - start,
                text@ == self@.input.subrange(start as int, self@.pos as int),
                spec_scan_ident(self@.input, self@.pos) == spec_scan_ident(self@.input, (start + 1) as nat),
            ensures
                self.wf(),
                self@.input == old(self)@.input,
                self@.line == old(self)@.line,
                self@.pos == spec_scan_ident(self@.input, (start + 1) as nat),
                self@.column == c0 + self@.pos - start,
                text@ == self@.input.subrange(start as int, self@.pos as int),
            decreases self@.input.len() - self@.pos,
        {
            if self.pos < self.input.len() {
                let ch = self.input[self.pos];
                if char_is_alphanumeric(ch) || ch == '_' {
                    text.push(ch);
                    self.pos = self.pos + 1;
                    self.column = self.column + 1;
                    proof {
                        assert(text@ =~= self@.input.subrange(start as int, self@.pos as int));
                    }
                } else {
                    break;
                }
            } else {
                break;
            }
        }
        let token_type = if chars_eq_str(&text, "service") {
            TokenType::Service
        } else if chars_eq_str(&text, "endpoint") {
            TokenType::Endpoint
        } else if chars_eq_str(&text, "class") {
            TokenType::Class
        } else if chars_eq_str(&text, "interface") {
            TokenType::Interface
        } else if chars_eq_str(&text, "async") {
            TokenType::Async
        } else if chars_eq_str(&text, "await") {
            TokenType::Await
        } else if chars_eq_str(&text, "cloud") {
            TokenType::Cloud
        } else if chars_eq_str(&text, "import") {
            TokenType::Import
        } else if chars_eq_str(&text, "export") {
            TokenType::Export
        } else if chars_eq_str(&text, "try") {
            TokenType::Try
        } else if chars_eq_str(&text, "catch") {
            TokenType::Catch
        } else if chars_eq_str(&text, "defer") {
            TokenType::Defer
        } else if chars_eq_str(&text, "return") {
            TokenType::Return
        } else {
            TokenType::Identifier(string_from_chars(&text))
        };
        Token { token_type, line: self.line, column: start_column }
    }

    fn read_string(&mut self) -> (t: Token)
        requires
            old(self).wf(),
            old(self)@.pos < old(self)@.input.len(),
        ensures
            final(self).wf(),
            final(self)@.input == old(self)@.input,
            ({
                let input = old(self)@.input;
                let p = old(self)@.pos;
                let l = old(self)@.line;
                let c = old(self)@.column;
                let (v, p2, c2) = spec_scan_string(input, p + 1, Seq::empty(), c + 1);
                (t@, final(self)@) == (
                    TokenSnap { kind: Tok::StringLiteral(v), line: l, column: c + 1 },
                    LexerState { input, pos: p2, line: l, column: c2 },
                )
            }),
    {
        // Skip the opening quote.
        self.pos = self.pos + 1;
        self.column = self.column + 1;
        let start_column = self.column;
        let ghost p1 = self@.pos;
        let ghost c1 = self@.column;
        let mut string: Vec<char> = Vec::new();
        loop
            invariant_except_break
                spec_scan_string(self@.input, self@.pos, string@, self@.column) == spec_scan_string(
                    self@.input,
                    p1,
                    Seq::empty(),
                    c1,
                ),
            invariant
                self.wf(),
                self@.input == old(self)@.input,
                self@.line == old(self)@.line,
            ensures
                self.wf(),
                self@.input == old(self)@.input,
                self@.line == old(self)@.line,
                (string@, self@.pos, self@.column) == spec_scan_string(
                    self@.input,
                    p1,
                    Seq::empty(),
                    c1,
                ),
            decreases self@.input.len() - self@.pos,
        {
            if self.pos < self.input.len() {
                let ch = self.input[self.pos];
                if ch == '"' {
                    self.pos = self.pos + 1;
                    self.column = self.column + 1;
                    break;
                } else if ch == '\\' {
                    self.pos = self.pos + 1;
                    self.column = self.column + 1;
                    if self.pos < self.input.len() {
                        let next = self.input[self.pos];
                        let ghost pre = string@;
                        if next == 'n' {
                            string.push('\n');
                        } else if next == 't' {
                            string.push('\t');
                        } else if next == 'r' {
                            string.push('\r');
                        } else if next == '\\' {
                            string.push('\\');
                        } else if next == '"' {
                            string.push('"');
                        } else {
                            string.push('\\');
                            string.push(next);
                        }
                        proof {
                            assert(string@ =~= pre + spec_escape_seq(next));
                        }
                        self.pos = self.pos + 1;
                        self.column = self.column + 1;
                    }
                } else {
                    string.push(ch);
                    self.pos = self.pos + 1;
                    self.column = self.column + 1;
                }
            } else {
                break;
            }
        }
        Token {
            token_type: TokenType::StringLiteral(string_from_chars(&string)),
            line: self.line,
            column: start_column,
        }
    }

    fn read_number(&mut self) -> (t: Token)
        requires
            old(self).wf(),
            old(self)@.pos < old(self)@.input.len(),
        ensures
            final(self).wf(),
            final(self)@.input == old(self)@.input,
            ({
                let input = old(self)@.input;
                let p = old(self)@.pos;
                let l = old(self)@.line;
                let c = old(self)@.column;
                let e = spec_scan_number(input, p);
                (t@, final(self)@) == (
                    TokenSnap { kind: Tok::NumberLiteral(input.subrange(p as int, e as int)), line: l, column: c },
                    LexerState { input, pos: e, line: l, column: (c + e - p) as nat },
                )
            }),
    {
        let start_column = self.column;
        let ghost start = self@.pos;
        let ghost c0 = self@.column;
        let mut number: Vec<char> = Vec::new();
        loop
            invariant
                self.wf(),
                self@.input == old(self)@.input,
                self@.line == old(self)@.line,
                start <= self@.pos,
                self@.column == c0 + self@.pos - start,
                number@ == self@.input.subrange(start as int, self@.pos as int),
                spec_scan_number(self@.input, self@.pos) == spec_scan_number(self@.input, start),
            ensures
                self.wf(),
                self@.input == old(self)@.input,
                self@.line == old(self)@.line,
                self@.pos == spec_scan_number(self@.input, start),
                self@.column == c0 + self@.pos - start,
                number@ == self@.input.subrange(start as int, self@.pos as int),
            decreases self@.input.len() - self@.pos,
        {
            if self.pos < self.input.len() {
                let ch = self.input[self.pos];
                if ((ch as u32) >= 48 && (ch as u32) <= 57) || ch == '.' {
                    number.push(ch);
                    self.pos = self.pos + 1;
                    self.column = self.column + 1;
                    proof {
                        assert(number@ =~= self@.input.subrange(start as int, self@.pos as int));
                    }
                } else {
                    break;
                }
            } else {
                break;
            }
        }
        Token {
            token_type: TokenType::NumberLiteral(string_from_chars(&number)),
            line: self.line,
            column: start_column,
        }
    }
}

} // verus!
