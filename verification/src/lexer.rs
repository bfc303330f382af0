//! The lexer: formula text to tokens.
//!
//! One left-to-right pass over the characters.  Whitespace (the ASCII
//! whitespace characters) is skipped; identifiers are ASCII letters,
//! digits and underscores.  Multi-character operators resolve greedily:
//! `==` `<=` `>=` `!=` `<<` `>>` `&&` `||` are single tokens, and the
//! doubling of `&` and `|` is the lexer's (the parser sees one two-byte
//! token).  A number is digits with at most one following `.` and more
//! digits; no sign is consumed, a leading `-` stays a separate operator
//! token for the parser to resolve.  A string runs to the next `"`, which
//! is optional at the end of the input.  A cell reference is a `#[...]`
//! or `[...]` span kept verbatim as the token text (`#` alone is a bare
//! cell-reference token).  Anything else is a one-character `Unknown`
//! token; the pass never stops early, and exactly one end-of-input token
//! closes every stream.  Tokens carry their half-open character range in
//! the source.

use vstd::prelude::*;

use crate::text::str_eq;

verus! {

/// The kind of a token.  Operator kinds carry the operator's text.
#[derive(Debug)]
pub enum TokenType {
    IntegerLiteral,
    FloatLiteral,
    StringLiteral,
    BooleanLiteral,
    CellReference,
    Identifier,
    Eq,
    BinaryOp(String),
    UnaryOp(String),
    ParenOpen,
    ParenClose,
    Comma,
    EOF,
    Unknown,
}

/// The mathematical value of a [`TokenType`].
pub enum TokenTypeV {
    IntegerLiteral,
    FloatLiteral,
    StringLiteral,
    BooleanLiteral,
    CellReference,
    Identifier,
    Eq,
    BinaryOp(Seq<char>),
    UnaryOp(Seq<char>),
    ParenOpen,
    ParenClose,
    Comma,
    EOF,
    Unknown,
}

impl DeepView for TokenType {
    type V = TokenTypeV;

    open spec fn deep_view(&self) -> TokenTypeV {
        match self {
            TokenType::IntegerLiteral => TokenTypeV::IntegerLiteral,
            TokenType::FloatLiteral => TokenTypeV::FloatLiteral,
            TokenType::StringLiteral => TokenTypeV::StringLiteral,
            TokenType::BooleanLiteral => TokenTypeV::BooleanLiteral,
            TokenType::CellReference => TokenTypeV::CellReference,
            TokenType::Identifier => TokenTypeV::Identifier,
            TokenType::Eq => TokenTypeV::Eq,
            TokenType::BinaryOp(s) => TokenTypeV::BinaryOp(s@),
            TokenType::UnaryOp(s) => TokenTypeV::UnaryOp(s@),
            TokenType::ParenOpen => TokenTypeV::ParenOpen,
            TokenType::ParenClose => TokenTypeV::ParenClose,
            TokenType::Comma => TokenTypeV::Comma,
            TokenType::EOF => TokenTypeV::EOF,
            TokenType::Unknown => TokenTypeV::Unknown,
        }
    }
}

/// One token: its kind, its text, and its half-open character range in
/// the source.
#[derive(Debug)]
pub struct Token {
    pub token_type: TokenType,
    pub text: String,
    pub start_index: usize,
    pub end_index: usize,
}

/// The mathematical value of a [`Token`].
pub struct TokenV {
    pub token_type: TokenTypeV,
    pub text: Seq<char>,
    pub start: int,
    pub end: int,
}

impl DeepView for Token {
    type V = TokenV;

    open spec fn deep_view(&self) -> TokenV {
        TokenV {
            token_type: self.token_type.deep_view(),
            text: self.text@,
            start: self.start_index as int,
            end: self.end_index as int,
        }
    }
}

impl Token {
    /// A token from its parts.
    pub fn new(token_type: TokenType, text: String, start_index: usize, end_index: usize) -> (r:
        Self)
        ensures
            r.deep_view() == (TokenV {
                token_type: token_type.deep_view(),
                text: text@,
                start: start_index as int,
                end: end_index as int,
            }),
    {
        Token { token_type, text, start_index, end_index }
    }
}

/// ASCII whitespace: space, tab, line feed, vertical tab, form feed,
/// carriage return.
pub open spec fn is_space(c: char) -> bool {
    c == ' ' || c == '\t' || c == '\n' || c == '\r' || c as u32 == 11 || c as u32 == 12
}

/// An ASCII decimal digit.
pub open spec fn is_digit(c: char) -> bool {
    '0' <= c && c <= '9'
}

/// An ASCII letter or underscore.
pub open spec fn is_alpha(c: char) -> bool {
    ('a' <= c && c <= 'z') || ('A' <= c && c <= 'Z') || c == '_'
}

/// An identifier character: an ASCII letter, digit or underscore.
pub open spec fn is_ident_char(c: char) -> bool {
    is_alpha(c) || is_digit(c)
}

/// The first position at or after `i` that does not hold a digit.
pub open spec fn scan_digits(s: Seq<char>, i: int) -> int
    decreases s.len() - i,
{
    if 0 <= i < s.len() && is_digit(s[i]) {
        scan_digits(s, i + 1)
    } else {
        i
    }
}

/// The first position at or after `i` that does not hold an identifier
/// character.
pub open spec fn scan_ident(s: Seq<char>, i: int) -> int
    decreases s.len() - i,
{
    if 0 <= i < s.len() && is_ident_char(s[i]) {
        scan_ident(s, i + 1)
    } else {
        i
    }
}

/// The first position at or after `i` holding `stop`, or the end.
pub open spec fn scan_until(s: Seq<char>, i: int, stop: char) -> int
    decreases s.len() - i,
{
    if 0 <= i < s.len() && s[i] != stop {
        scan_until(s, i + 1, stop)
    } else {
        i
    }
}

/// Scanning for digits moves forward.
pub proof fn lemma_scan_digits_ge(s: Seq<char>, i: int)
    ensures
        scan_digits(s, i) >= i,
        scan_digits(s, i) <= s.len() || scan_digits(s, i) == i,
    decreases s.len() - i,
{
    if 0 <= i < s.len() && is_digit(s[i]) {
        lemma_scan_digits_ge(s, i + 1);
    }
}

/// Scanning for identifier characters moves forward.
pub proof fn lemma_scan_ident_ge(s: Seq<char>, i: int)
    ensures
        scan_ident(s, i) >= i,
        scan_ident(s, i) <= s.len() || scan_ident(s, i) == i,
    decreases s.len() - i,
{
    if 0 <= i < s.len() && is_ident_char(s[i]) {
        lemma_scan_ident_ge(s, i + 1);
    }
}

/// Scanning for a stop character moves forward.
pub proof fn lemma_scan_until_ge(s: Seq<char>, i: int, stop: char)
    ensures
        scan_until(s, i, stop) >= i,
        scan_until(s, i, stop) <= s.len() || scan_until(s, i, stop) == i,
    decreases s.len() - i,
{
    if 0 <= i < s.len() && s[i] != stop {
        lemma_scan_until_ge(s, i + 1, stop);
    }
}

/// One token: its kind, its text, and its character span.
pub open spec fn token_v(
    s: Seq<char>,
    tt: TokenTypeV,
    text: Seq<char>,
    from: int,
    upto: int,
) -> TokenV {
    TokenV { token_type: tt, text: text, start: from, end: upto }
}

/// The token stream from position `pos` to the end of the input,
/// finishing with exactly one end-of-input token.
pub open spec fn lex_from(s: Seq<char>, pos: int) -> Seq<TokenV>
    decreases s.len() - pos, 0int,
    via lex_from_decreases
{
    if pos < 0 || pos >= s.len() {
        seq![
            TokenV {
                token_type: TokenTypeV::EOF,
                text: Seq::empty(),
                start: s.len() as int,
                end: s.len() as int,
            },
        ]
    } else {
        let c = s[pos];
        if is_space(c) {
            lex_from(s, pos + 1)
        } else if is_digit(c) {
            let d = scan_digits(s, pos);
            if d < s.len() && s[d] == '.' {
                let f = scan_digits(s, d + 1);
                seq![
                    token_v(s, TokenTypeV::FloatLiteral, s.subrange(pos, f), pos, f),
                ] + lex_from(s, f)
            } else {
                seq![
                    token_v(s, TokenTypeV::IntegerLiteral, s.subrange(pos, d), pos, d),
                ] + lex_from(s, d)
            }
        } else if c == '"' {
            let q = scan_until(s, pos + 1, '"');
            let e = if q < s.len() {
                q + 1
            } else {
                q
            };
            seq![
                token_v(s, TokenTypeV::StringLiteral, s.subrange(pos + 1, q), pos, e),
            ] + lex_from(s, e)
        } else if c == '#' && !(pos + 1 < s.len() && s[pos + 1] == '[') {
            seq![
                token_v(s, TokenTypeV::CellReference, s.subrange(pos, pos + 1), pos, pos + 1),
            ] + lex_from(s, pos + 1)
        } else if c == '#' || c == '[' {
            let open = if c == '#' {
                pos + 2
            } else {
                pos + 1
            };
            let b = scan_until(s, open, ']');
            let e = if b < s.len() {
                b + 1
            } else {
                b
            };
            seq![
                token_v(s, TokenTypeV::CellReference, s.subrange(pos, e), pos, e),
            ] + lex_from(s, e)
        } else if c == '=' {
            if pos + 1 < s.len() && s[pos + 1] == '=' {
                seq![
                    token_v(s, TokenTypeV::BinaryOp("=="@), s.subrange(pos, pos + 2), pos, pos + 2),
                ] + lex_from(s, pos + 2)
            } else {
                seq![
                    token_v(s, TokenTypeV::Eq, s.subrange(pos, pos + 1), pos, pos + 1),
                ] + lex_from(s, pos + 1)
            }
        } else if c == '<' || c == '>' || c == '!' {
            if pos + 1 < s.len() && s[pos + 1] == '=' {
                let t = s.subrange(pos, pos + 2);
                seq![
                    token_v(s, TokenTypeV::BinaryOp(t), t, pos, pos + 2),
                ] + lex_from(s, pos + 2)
            } else if c != '!' && pos + 1 < s.len() && s[pos + 1] == c {
                let t = s.subrange(pos, pos + 2);
                seq![
                    token_v(s, TokenTypeV::BinaryOp(t), t, pos, pos + 2),
                ] + lex_from(s, pos + 2)
            } else if c == '!' {
                let t = s.subrange(pos, pos + 1);
                seq![
                    token_v(s, TokenTypeV::UnaryOp(t), t, pos, pos + 1),
                ] + lex_from(s, pos + 1)
            } else {
                let t = s.subrange(pos, pos + 1);
                seq![
                    token_v(s, TokenTypeV::BinaryOp(t), t, pos, pos + 1),
                ] + lex_from(s, pos + 1)
            }
        } else if c == '&' || c == '|' {
            if pos + 1 < s.len() && s[pos + 1] == c {
                let t = s.subrange(pos, pos + 2);
                seq![
                    token_v(s, TokenTypeV::BinaryOp(t), t, pos, pos + 2),
                ] + lex_from(s, pos + 2)
            } else {
                let t = s.subrange(pos, pos + 1);
                seq![
                    token_v(s, TokenTypeV::BinaryOp(t), t, pos, pos + 1),
                ] + lex_from(s, pos + 1)
            }
        } else if c == '~' {
            let t = s.subrange(pos, pos + 1);
            seq![
                token_v(s, TokenTypeV::UnaryOp(t), t, pos, pos + 1),
            ] + lex_from(s, pos + 1)
        } else if c == '+' || c == '-' || c == '*' || c == '/' || c == '%' || c == '^' {
            let t = s.subrange(pos, pos + 1);
            seq![
                token_v(s, TokenTypeV::BinaryOp(t), t, pos, pos + 1),
            ] + lex_from(s, pos + 1)
        } else if c == '(' {
            seq![
                token_v(s, TokenTypeV::ParenOpen, s.subrange(pos, pos + 1), pos, pos + 1),
            ] + lex_from(s, pos + 1)
        } else if c == ')' {
            seq![
                token_v(s, TokenTypeV::ParenClose, s.subrange(pos, pos + 1), pos, pos + 1),
            ] + lex_from(s, pos + 1)
        } else if c == ',' {
            seq![
                token_v(s, TokenTypeV::Comma, s.subrange(pos, pos + 1), pos, pos + 1),
            ] + lex_from(s, pos + 1)
        } else if is_alpha(c) {
            let e = scan_ident(s, pos);
            let t = s.subrange(pos, e);
            let tt = if t == "true"@ || t == "false"@ {
                TokenTypeV::BooleanLiteral
            } else {
                TokenTypeV::Identifier
            };
            seq![token_v(s, tt, t, pos, e)] + lex_from(s, e)
        } else {
            seq![
                token_v(s, TokenTypeV::Unknown, s.subrange(pos, pos + 1), pos, pos + 1),
            ] + lex_from(s, pos + 1)
        }
    }
}

#[via_fn]
proof fn lex_from_decreases(s: Seq<char>, pos: int) {
    if 0 <= pos < s.len() {
        lemma_scan_digits_ge(s, pos);
        lemma_scan_digits_ge(s, pos + 1);
        if is_digit(s[pos]) {
            let d = scan_digits(s, pos);
            assert(d > pos);
            lemma_scan_digits_ge(s, d + 1);
        }
        lemma_scan_until_ge(s, pos + 1, '"');
        lemma_scan_until_ge(s, pos + 1, ']');
        lemma_scan_until_ge(s, pos + 2, ']');
        lemma_scan_ident_ge(s, pos + 1);
        if is_ident_char(s[pos]) {
            assert(scan_ident(s, pos) == scan_ident(s, pos + 1));
            assert(scan_ident(s, pos) > pos);
        }
    }
}

/// The whole token stream of a source text.
pub open spec fn lex_spec(s: Seq<char>) -> Seq<TokenV> {
    lex_from(s, 0)
}

} // verus!

verus! {

/// Runtime test for [`is_space`].
fn is_space_c(c: char) -> (r: bool)
    ensures
        r == is_space(c),
{
    c == ' ' || c == '\t' || c == '\n' || c == '\r' || c as u32 == 11 || c as u32 == 12
}

/// Runtime test for [`is_digit`].
fn is_digit_c(c: char) -> (r: bool)
    ensures
        r == is_digit(c),
{
    '0' <= c && c <= '9'
}

/// Runtime test for [`is_alpha`].
fn is_alpha_c(c: char) -> (r: bool)
    ensures
        r == is_alpha(c),
{
    ('a' <= c && c <= 'z') || ('A' <= c && c <= 'Z') || c == '_'
}

/// Runtime test for [`is_ident_char`].
fn is_ident_c(c: char) -> (r: bool)
    ensures
        r == is_ident_char(c),
{
    is_alpha_c(c) || is_digit_c(c)
}

/// The lexer's cursor over one source text.
pub struct Lexer {
    src: String,
    pos: usize,
}

impl Lexer {
    /// The source text being scanned.
    pub closed spec fn input(&self) -> Seq<char> {
        self.src@
    }

    /// The current character position.
    pub closed spec fn position(&self) -> int {
        self.pos as int
    }

    /// The cursor stays inside the source, whose length a machine word
    /// can hold.
    pub closed spec fn wf(&self) -> bool {
        &&& self.pos as int <= self.src@.len()
        &&& self.src@.len() <= usize::MAX
    }

    /// A fresh lexer at the start of the given text.
    pub fn new(input: &str) -> (r: Self)
        ensures
            r.input() == input@,
            r.position() == 0,
            r.wf(),
    {
        let l = Lexer { src: input.to_owned(), pos: 0 };
        let n = l.src.as_str().unicode_len();
        proof {
            assert(l.src@.len() == n as nat);
        }
        l
    }

    /// Steps past one character.
    fn advance(&mut self)
        requires
            old(self).wf(),
            old(self).pos < old(self).input().len(),
        ensures
            final(self).wf(),
            final(self).src == old(self).src,
            final(self).pos == old(self).pos + 1,
    {
        self.pos = self.pos + 1;
    }

    /// The character under the cursor.
    fn peek(&self) -> (r: char)
        requires
            self.wf(),
            self.pos < self.input().len(),
        ensures
            r == self.input()[self.position()],
    {
        self.src.as_str().get_char(self.pos)
    }

    /// Whether a character follows the cursor, and what it is.
    fn peek_next(&self) -> (r: Option<char>)
        requires
            self.wf(),
        ensures
            match r {
                Some(c) => self.position() + 1 < self.input().len() && c == self.input()[self.position() + 1],
                None => self.position() + 1 >= self.input().len(),
            },
    {
        if self.pos < usize::MAX && self.pos + 1 < self.src.as_str().unicode_len() {
            Some(self.src.as_str().get_char(self.pos + 1))
        } else {
            None
        }
    }

    /// The token text between a start position and the cursor.
    fn capture(&self, from: usize) -> (r: String)
        requires
            self.wf(),
            from <= self.pos,
        ensures
            r@ == self.input().subrange(from as int, self.position()),
    {
        self.src.as_str().substring_char(from, self.pos).to_owned()
    }

    /// Scans the whole text into its token stream; see [`lex_spec`].  The
    /// cursor ends at the end of the input, so a fresh lexer gives the
    /// full stream.
    pub fn tokenize(&mut self) -> (r: Vec<Token>)
        requires
            old(self).wf(),
        ensures
            r.deep_view() == lex_from(old(self).input(), old(self).position()),
    {
        let ghost s = self.src@;
        let ghost p0 = self.pos as int;
        proof {
            reveal_strlit("true");
            reveal_strlit("false");
            reveal_strlit("==");
        }
        let mut toks: Vec<Token> = Vec::new();
        let n = self.src.as_str().unicode_len();
        while self.pos < n
            invariant
                self.wf(),
                self.src@ == s,
                n == s.len(),
                lex_from(s, p0) == toks.deep_view() + lex_from(s, self.pos as int),
            decreases n - self.pos,
        {
            let ghost pos_at = self.pos as int;
            let ghost toks_at = toks.deep_view();
            let c = self.peek();
            if is_space_c(c) {
                self.advance();
                proof {
                    assert(lex_from(s, pos_at) == lex_from(s, self.pos as int));
                }
                continue ;
            }
            let start = self.pos;
                        let tok: Token;
            if is_digit_c(c) {
                while self.pos < n && is_digit_c(self.peek())
                    invariant
                        self.wf(),
                        self.src@ == s,
                        n == s.len(),
                        start <= self.pos,
                        scan_digits(s, start as int) == scan_digits(s, self.pos as int),
                    decreases n - self.pos,
                {
                    self.advance();
                }
                let is_float = self.pos < n && self.peek() == '.';
                if is_float {
                    self.advance();
                    let ghost d1 = self.pos as int;
                    while self.pos < n && is_digit_c(self.peek())
                        invariant
                            self.wf(),
                            self.src@ == s,
                            n == s.len(),
                            d1 <= self.pos as int,
                            scan_digits(s, d1) == scan_digits(s, self.pos as int),
                        decreases n - self.pos,
                    {
                        self.advance();
                    }
                    tok = Token::new(
                        TokenType::FloatLiteral,
                        self.capture(start),
                        start,
                        self.pos,
                    );
                } else {
                    tok = Token::new(
                        TokenType::IntegerLiteral,
                        self.capture(start),
                        start,
                        self.pos,
                    );
                }
            } else if c == '"' {
                self.advance();
                let ghost q0 = self.pos as int;
                while self.pos < n && self.peek() != '"'
                    invariant
                        self.wf(),
                        self.src@ == s,
                        n == s.len(),
                        q0 <= self.pos as int,
                        scan_until(s, q0, '"') == scan_until(s, self.pos as int, '"'),
                    decreases n - self.pos,
                {
                    self.advance();
                }
                let text = self.capture(start + 1);
                if self.pos < n {
                    self.advance();
                }
                tok = Token::new(TokenType::StringLiteral, text, start, self.pos);
            } else if c == '#' || c == '[' {
                let mut bracketed = c == '[';
                if c == '#' {
                    match self.peek_next() {
                        Some(c2) => {
                            if c2 == '[' {
                                bracketed = true;
                            }
                        },
                        None => {},
                    }
                }
                if !bracketed {
                    self.advance();
                    tok = Token::new(
                        TokenType::CellReference,
                        self.capture(start),
                        start,
                        self.pos,
                    );
                } else {
                    self.advance();
                    if c == '#' {
                        self.advance();
                    }
                    let ghost b0 = self.pos as int;
                    while self.pos < n && self.peek() != ']'
                        invariant
                            self.wf(),
                            self.src@ == s,
                            n == s.len(),
                            b0 <= self.pos as int,
                            scan_until(s, b0, ']') == scan_until(s, self.pos as int, ']'),
                        decreases n - self.pos,
                    {
                        self.advance();
                    }
                    if self.pos < n {
                        self.advance();
                    }
                    tok = Token::new(
                        TokenType::CellReference,
                        self.capture(start),
                        start,
                        self.pos,
                    );
                }
            } else if c == '=' {
                self.advance();
                let doubled = self.pos < n && self.peek() == '=';
                if doubled {
                    self.advance();
                    tok = Token::new(
                        TokenType::BinaryOp(self.capture(start)),
                        self.capture(start),
                        start,
                        self.pos,
                    );
                } else {
                    tok = Token::new(
                        TokenType::Eq,
                        self.capture(start),
                        start,
                        self.pos,
                    );
                }
            } else if c == '<' || c == '>' || c == '!' {
                self.advance();
                let has_eq = self.pos < n && self.peek() == '=';
                let has_double = self.pos < n && c != '!' && self.peek() == c;
                if has_eq || has_double {
                    self.advance();
                    tok = Token::new(
                        TokenType::BinaryOp(self.capture(start)),
                        self.capture(start),
                        start,
                        self.pos,
                    );
                } else if c == '!' {
                    tok = Token::new(
                        TokenType::UnaryOp(self.capture(start)),
                        self.capture(start),
                        start,
                        self.pos,
                    );
                } else {
                    tok = Token::new(
                        TokenType::BinaryOp(self.capture(start)),
                        self.capture(start),
                        start,
                        self.pos,
                    );
                }
            } else if c == '&' || c == '|' {
                self.advance();
                let doubled = self.pos < n && self.peek() == c;
                if doubled {
                    self.advance();
                }
                tok = Token::new(
                    TokenType::BinaryOp(self.capture(start)),
                    self.capture(start),
                    start,
                    self.pos,
                );
            } else if c == '~' {
                self.advance();
                tok = Token::new(
                    TokenType::UnaryOp(self.capture(start)),
                    self.capture(start),
                    start,
                    self.pos,
                );
            } else if c == '+' || c == '-' || c == '*' || c == '/' || c == '%' || c == '^' {
                self.advance();
                tok = Token::new(
                    TokenType::BinaryOp(self.capture(start)),
                    self.capture(start),
                    start,
                    self.pos,
                );
            } else if c == '(' {
                self.advance();
                tok = Token::new(
                    TokenType::ParenOpen,
                    self.capture(start),
                    start,
                    self.pos,
                );
            } else if c == ')' {
                self.advance();
                tok = Token::new(
                    TokenType::ParenClose,
                    self.capture(start),
                    start,
                    self.pos,
                );
            } else if c == ',' {
                self.advance();
                tok = Token::new(
                    TokenType::Comma,
                    self.capture(start),
                    start,
                    self.pos,
                );
            } else if is_alpha_c(c) {
                while self.pos < n && is_ident_c(self.peek())
                    invariant
                        self.wf(),
                        self.src@ == s,
                        n == s.len(),
                        start <= self.pos,
                        scan_ident(s, start as int) == scan_ident(s, self.pos as int),
                    decreases n - self.pos,
                {
                    self.advance();
                }
                let text = self.capture(start);
                let tt = if str_eq(text.as_str(), "true") || str_eq(text.as_str(), "false") {
                    TokenType::BooleanLiteral
                } else {
                    TokenType::Identifier
                };
                tok = Token::new(tt, text, start, self.pos);
            } else {
                self.advance();
                tok = Token::new(
                    TokenType::Unknown,
                    self.capture(start),
                    start,
                    self.pos,
                );
            }
            proof {
                reveal_strlit("true");
                reveal_strlit("false");
                reveal_strlit("==");
                if s[pos_at] == '=' && pos_at + 1 < s.len() && s[pos_at + 1] == '=' {
                    assert("=="@ =~= s.subrange(pos_at, pos_at + 2));
                }
                assert(lex_from(s, pos_at) =~= seq![tok.deep_view()] + lex_from(
                    s,
                    self.pos as int,
                ));
                assert(toks_at.push(tok.deep_view()) + lex_from(s, self.pos as int) =~= toks_at + (
                seq![tok.deep_view()] + lex_from(s, self.pos as int)));
            }
            toks.push(tok);
            proof {
                assert(toks.deep_view() =~= toks_at.push(tok.deep_view()));
            }
        }
        let eof = Token::new(TokenType::EOF, String::new(), self.pos, self.pos);
        proof {
            assert(lex_from(s, self.pos as int) =~= seq![eof.deep_view()]);
        }
        toks.push(eof);
        proof {
            assert(toks.deep_view() =~= lex_from(s, p0));
        }
        toks
    }
}

} // verus!
