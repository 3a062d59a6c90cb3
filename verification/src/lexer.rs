//! The lexer: source text to tokens.

use vstd::prelude::*;
use crate::text::{lemma_char_code_roundtrip, char_is_whitespace, is_whitespace, chars_of, string_of, char_from_u32, is_scalar_value};
use crate::token::{Token, TokenV};

verus! {

/// A place in the source: the line (counted from 0) and the column (the
/// number of characters since the start of the line, carriage returns not counted).
#[derive(Debug, PartialEq, Eq, Structural)]
pub struct Position {
    pub line: usize,
    pub col: usize,
}

/// Why the lexer rejected its input.
#[derive(Debug, PartialEq, Eq, Structural)]
pub enum LexError {
    MultipleDots { position: Position },
    UnexpectedChar { ch: char, position: Position },
    UnexpectedEof,
    UnexpectedEol { position: Position },
    IllegalEscapingSequence { ch: char, position: Position },
}

/// The lexer's state: the source as characters and the index of the next
/// character to read.
pub struct Lexer {
    pub source: Vec<char>,
    pub position: usize,
}

// ---------------------------------------------------------------------------
// The lexical grammar
// ---------------------------------------------------------------------------

/// The line and column of index `p` of `s`: the number of newlines before
/// `p`, and the number of characters other than `\r` since the last of them.
pub open spec fn line_col(s: Seq<char>, p: int) -> (int, int)
    decreases p,
{
    if p <= 0 {
        (0, 0)
    } else {
        let (line, col) = line_col(s, p - 1);
        if s[p - 1] == '\n' {
            (line + 1, 0)
        } else if s[p - 1] != '\r' {
            (line, col + 1)
        } else {
            (line, col)
        }
    }
}

/// The position of index `p` of `s`.
pub open spec fn position_at(s: Seq<char>, p: int) -> Position {
    let (line, col) = line_col(s, p);
    Position { line: line as usize, col: col as usize }
}

/// The end of the white space and `//` comments that start at `p`.
pub open spec fn trivia_end(s: Seq<char>, p: int) -> int
    decreases s.len() - p, 0int,
{
    if 0 <= p < s.len() && char_is_whitespace(s[p]) {
        trivia_end(s, p + 1)
    } else if 0 <= p && p + 1 < s.len() && s[p] == '/' && s[p + 1] == '/' {
        comment_end(s, p + 2)
    } else {
        p
    }
}

/// The end of the trivia that follows the rest of a line comment, from `p`.
pub open spec fn comment_end(s: Seq<char>, p: int) -> int
    decreases s.len() - p, 1int,
{
    if 0 <= p < s.len() && s[p] != '\n' {
        comment_end(s, p + 1)
    } else {
        trivia_end(s, p)
    }
}

/// What one step of the lexer gives: a token and the index after it, an
/// error and the index where the lexer stopped, or an abort (an input on
/// which the lexer gives up without an error value).
pub enum Scan {
    Token(TokenV, int),
    Error(LexError, int),
    Abort,
}

pub open spec fn is_digit(c: char) -> bool {
    '0' <= c <= '9'
}

pub open spec fn is_ident_start(c: char) -> bool {
    ('a' <= c <= 'z') || ('A' <= c <= 'Z') || c == '_'
}

pub open spec fn is_ident_char(c: char) -> bool {
    is_ident_start(c) || is_digit(c)
}

/// The value of a hexadecimal digit.
pub open spec fn hex_value(c: char) -> Option<u32> {
    if '0' <= c <= '9' {
        Some((c as u32 - '0' as u32) as u32)
    } else if 'a' <= c <= 'f' {
        Some((c as u32 - 'a' as u32 + 10) as u32)
    } else if 'A' <= c <= 'F' {
        Some((c as u32 - 'A' as u32 + 10) as u32)
    } else {
        None
    }
}

/// The character written by the four hexadecimal digits at `p` of a `\u`
/// escape, when there are four digits and they spell a scalar value.
pub open spec fn unicode_escape(s: Seq<char>, p: int) -> Option<char> {
    if 0 <= p && p + 4 <= s.len() {
        match (hex_value(s[p]), hex_value(s[p + 1]), hex_value(s[p + 2]), hex_value(s[p + 3])) {
            (Some(a), Some(b), Some(c), Some(d)) => {
                let v = ((a * 16 + b) * 16 + c) * 16 + d;
                if is_scalar_value(v as u32) {
                    Some(v as char)
                } else {
                    None
                }
            },
            _ => None,
        }
    } else {
        None
    }
}

/// The character that a simple escape `\c` stands for.
pub open spec fn simple_escape(c: char) -> Option<char> {
    if c == '"' {
        Some('"')
    } else if c == '\'' {
        Some('\'')
    } else if c == '\\' {
        Some('\\')
    } else if c == 'n' {
        Some('\n')
    } else if c == 't' {
        Some('\t')
    } else if c == 'r' {
        Some('\r')
    } else {
        None
    }
}

/// The rest of a string literal from `p`, closed by `quote`, with the text
/// `acc` read so far and `escaped` telling whether a backslash came just before.
pub open spec fn scan_string(s: Seq<char>, p: int, quote: char, acc: Seq<char>, escaped: bool) -> Scan
    decreases s.len() - p,
{
    if p < 0 || p >= s.len() {
        Scan::Error(LexError::UnexpectedEof, p)
    } else {
        let c = s[p];
        if escaped {
            if c == '\n' {
                scan_string(s, p + 1, quote, acc, false)
            } else if c == 'u' {
                match unicode_escape(s, p + 1) {
                    Some(u) => scan_string(s, p + 5, quote, acc.push(u), false),
                    None => Scan::Abort,
                }
            } else {
                match simple_escape(c) {
                    Some(e) => scan_string(s, p + 1, quote, acc.push(e), false),
                    None => Scan::Error(
                        LexError::IllegalEscapingSequence { ch: c, position: position_at(s, p) },
                        p,
                    ),
                }
            }
        } else if c == quote {
            Scan::Token(TokenV::String(acc), p + 1)
        } else if c == '\\' {
            scan_string(s, p + 1, quote, acc, true)
        } else if c == '\n' {
            Scan::Error(LexError::UnexpectedEol { position: position_at(s, p) }, p)
        } else {
            scan_string(s, p + 1, quote, acc.push(c), false)
        }
    }
}

/// The number written by a sequence of decimal digits.
pub open spec fn digits_value(t: Seq<char>) -> int
    decreases t.len(),
{
    if t.len() == 0 {
        0
    } else {
        digits_value(t.drop_last()) * 10 + (t.last() as int - '0' as int)
    }
}

/// The rest of a number literal that started at `start`, from `p`.
pub open spec fn scan_number(s: Seq<char>, start: int, p: int, is_float: bool) -> Scan
    decreases s.len() - p,
{
    if 0 <= p < s.len() && is_digit(s[p]) {
        scan_number(s, start, p + 1, is_float)
    } else if 0 <= p < s.len() && s[p] == '.' {
        if is_float {
            Scan::Error(LexError::MultipleDots { position: position_at(s, p) }, p)
        } else {
            scan_number(s, start, p + 1, true)
        }
    } else if is_float {
        Scan::Token(TokenV::Float(s.subrange(start, p)), p)
    } else {
        let v = digits_value(s.subrange(start, p));
        if v <= i64::MAX {
            Scan::Token(TokenV::Integer(v as i64), p)
        } else {
            Scan::Abort
        }
    }
}

/// The token that a word stands for: a keyword, or else an identifier.
pub open spec fn word_token(w: Seq<char>) -> TokenV {
    if w == seq!['l', 'e', 't'] {
        TokenV::Let
    } else if w == seq!['t', 'r', 'u', 'e'] {
        TokenV::True
    } else if w == seq!['f', 'a', 'l', 's', 'e'] {
        TokenV::False
    } else if w == seq!['i', 'f'] {
        TokenV::If
    } else if w == seq!['e', 'l', 's', 'e'] {
        TokenV::Else
    } else if w == seq!['r', 'e', 't', 'u', 'r', 'n'] {
        TokenV::Return
    } else if w == seq!['w', 'h', 'i', 'l', 'e'] {
        TokenV::While
    } else if w == seq!['f', 'n'] {
        TokenV::Fn
    } else if w == seq!['a', 'n', 'd'] {
        TokenV::And
    } else if w == seq!['o', 'r'] {
        TokenV::Or
    } else if w == seq!['n', 'o', 't'] {
        TokenV::Not
    } else {
        TokenV::Ident(w)
    }
}

/// The rest of a word that started at `start`, from `p`.
pub open spec fn scan_word(s: Seq<char>, start: int, p: int) -> Scan
    decreases s.len() - p,
{
    if 0 <= p < s.len() && is_ident_char(s[p]) {
        scan_word(s, start, p + 1)
    } else {
        Scan::Token(word_token(s.subrange(start, p)), p)
    }
}

/// A one-character operator that becomes `long` when `=` follows it.
pub open spec fn with_eq(s: Seq<char>, p: int, short: TokenV, long: TokenV) -> Scan {
    if 0 <= p < s.len() && s[p] == '=' {
        Scan::Token(long, p + 1)
    } else {
        Scan::Token(short, p)
    }
}

/// The next token of `s` from `pos`: trivia is skipped first; at the end of
/// the text the token is `Eof`.
pub open spec fn next_token_spec(s: Seq<char>, pos: int) -> Scan {
    let p0 = trivia_end(s, pos);
    if p0 < 0 || p0 >= s.len() {
        Scan::Token(TokenV::Eof, p0)
    } else {
        let c = s[p0];
        let p = p0 + 1;
        if c == '"' || c == '\'' {
            scan_string(s, p, c, seq![], false)
        } else if c == '+' {
            with_eq(s, p, TokenV::Plus, TokenV::PlusAssign)
        } else if c == '-' {
            with_eq(s, p, TokenV::Minus, TokenV::MinusAssign)
        } else if c == '*' {
            with_eq(s, p, TokenV::Star, TokenV::StarAssign)
        } else if c == '/' {
            with_eq(s, p, TokenV::Slash, TokenV::SlashAssign)
        } else if c == '(' {
            Scan::Token(TokenV::LParen, p)
        } else if c == ')' {
            Scan::Token(TokenV::RParen, p)
        } else if c == ',' {
            Scan::Token(TokenV::Comma, p)
        } else if c == '{' {
            Scan::Token(TokenV::LBrace, p)
        } else if c == '}' {
            Scan::Token(TokenV::RBrace, p)
        } else if c == ';' {
            Scan::Token(TokenV::Semicolon, p)
        } else if c == ':' {
            Scan::Token(TokenV::Colon, p)
        } else if c == '[' {
            Scan::Token(TokenV::LBracket, p)
        } else if c == ']' {
            Scan::Token(TokenV::RBracket, p)
        } else if c == '.' {
            if p < s.len() && s[p] == '.' {
                Scan::Token(TokenV::DotDot, p + 1)
            } else {
                Scan::Token(TokenV::Dot, p)
            }
        } else if c == '=' {
            with_eq(s, p, TokenV::Assign, TokenV::Eq)
        } else if c == '>' {
            with_eq(s, p, TokenV::Gt, TokenV::Gte)
        } else if c == '<' {
            with_eq(s, p, TokenV::Lt, TokenV::Lte)
        } else if c == '!' {
            with_eq(s, p, TokenV::Not, TokenV::NEq)
        } else if is_digit(c) {
            scan_number(s, p0, p, false)
        } else if is_ident_start(c) {
            scan_word(s, p0, p)
        } else {
            Scan::Error(LexError::UnexpectedChar { ch: c, position: position_at(s, p) }, p)
        }
    }
}

/// The outcome of lexing all of a text: the tokens (the last one `Eof`) and
/// the final index, an error and the index where the lexer stopped, or an abort.
pub enum LexRun {
    Done(Seq<TokenV>, int),
    Failed(LexError, int),
    Aborted,
}

/// Lexing `s` from `pos` up to and including the `Eof` token.
pub open spec fn lex_from(s: Seq<char>, pos: int) -> LexRun
    decreases s.len() - pos,
{
    match next_token_spec(s, pos) {
        Scan::Token(TokenV::Eof, p) => LexRun::Done(seq![TokenV::Eof], p),
        Scan::Token(t, p) => {
            if pos < p <= s.len() {
                match lex_from(s, p) {
                    LexRun::Done(ts, q) => LexRun::Done(seq![t] + ts, q),
                    other => other,
                }
            } else {
                LexRun::Aborted
            }
        },
        Scan::Error(e, p) => LexRun::Failed(e, p),
        Scan::Abort => LexRun::Aborted,
    }
}

/// Whether lexing `s` from `pos` aborts.
pub open spec fn lex_aborts(s: Seq<char>, pos: int) -> bool {
    lex_from(s, pos) is Aborted
}

// ---------------------------------------------------------------------------
// Proofs about the grammar
// ---------------------------------------------------------------------------

proof fn lemma_trivia_end_bounds(s: Seq<char>, p: int)
    ensures
        trivia_end(s, p) >= p,
        p <= s.len() ==> trivia_end(s, p) <= s.len(),
    decreases s.len() - p, 0int,
{
    if 0 <= p < s.len() && char_is_whitespace(s[p]) {
        lemma_trivia_end_bounds(s, p + 1);
    } else if 0 <= p && p + 1 < s.len() && s[p] == '/' && s[p + 1] == '/' {
        lemma_comment_end_bounds(s, p + 2);
    }
}

proof fn lemma_comment_end_bounds(s: Seq<char>, p: int)
    ensures
        comment_end(s, p) >= p,
        p <= s.len() ==> comment_end(s, p) <= s.len(),
    decreases s.len() - p, 1int,
{
    if 0 <= p < s.len() && s[p] != '\n' {
        lemma_comment_end_bounds(s, p + 1);
    } else {
        lemma_trivia_end_bounds(s, p);
    }
}

proof fn lemma_string_not_eof(s: Seq<char>, p: int, quote: char, acc: Seq<char>, escaped: bool)
    ensures
        !(scan_string(s, p, quote, acc, escaped) matches Scan::Token(TokenV::Eof, _)),
    decreases s.len() - p,
{
    if 0 <= p < s.len() {
        let c = s[p];
        if escaped {
            if c == '\n' {
                lemma_string_not_eof(s, p + 1, quote, acc, false);
            } else if c == 'u' {
                match unicode_escape(s, p + 1) {
                    Some(u) => lemma_string_not_eof(s, p + 5, quote, acc.push(u), false),
                    None => {},
                }
            } else {
                match simple_escape(c) {
                    Some(e) => lemma_string_not_eof(s, p + 1, quote, acc.push(e), false),
                    None => {},
                }
            }
        } else if c == quote {
        } else if c == '\\' {
            lemma_string_not_eof(s, p + 1, quote, acc, true);
        } else if c == '\n' {
        } else {
            lemma_string_not_eof(s, p + 1, quote, acc.push(c), false);
        }
    }
}

proof fn lemma_number_not_eof(s: Seq<char>, start: int, p: int, is_float: bool)
    ensures
        !(scan_number(s, start, p, is_float) matches Scan::Token(TokenV::Eof, _)),
    decreases s.len() - p,
{
    if 0 <= p < s.len() && is_digit(s[p]) {
        lemma_number_not_eof(s, start, p + 1, is_float);
    } else if 0 <= p < s.len() && s[p] == '.' && !is_float {
        lemma_number_not_eof(s, start, p + 1, true);
    }
}

proof fn lemma_word_not_eof(s: Seq<char>, start: int, p: int)
    ensures
        !(scan_word(s, start, p) matches Scan::Token(TokenV::Eof, _)),
    decreases s.len() - p,
{
    if 0 <= p < s.len() && is_ident_char(s[p]) {
        lemma_word_not_eof(s, start, p + 1);
    }
}

/// Lexing that succeeds from inside the text stops at its end.
proof fn lemma_lex_done_at_end(s: Seq<char>, pos: int)
    requires
        0 <= pos <= s.len(),
    ensures
        lex_from(s, pos) matches LexRun::Done(ts, q) ==> q == s.len(),
    decreases s.len() - pos,
{
    lemma_trivia_end_bounds(s, pos);
    let p0 = trivia_end(s, pos);
    if 0 <= p0 < s.len() {
        lemma_string_not_eof(s, p0 + 1, s[p0], seq![], false);
        lemma_number_not_eof(s, p0, p0 + 1, false);
        lemma_word_not_eof(s, p0, p0 + 1);
    }
    match next_token_spec(s, pos) {
        Scan::Token(TokenV::Eof, p) => {},
        Scan::Token(t, p) => {
            if pos < p <= s.len() {
                lemma_lex_done_at_end(s, p);
            }
        },
        _ => {},
    }
}

proof fn lemma_digits_value_nonneg(t: Seq<char>)
    requires
        forall|i: int| 0 <= i < t.len() ==> is_digit(#[trigger] t[i]),
    ensures
        digits_value(t) >= 0,
    decreases t.len(),
{
    if t.len() > 0 {
        assert forall|i: int| 0 <= i < t.drop_last().len() implies is_digit(#[trigger] t.drop_last()[i]) by {
            assert(t.drop_last()[i] == t[i]);
        }
        lemma_digits_value_nonneg(t.drop_last());
    }
}

proof fn lemma_line_col_bounds(s: Seq<char>, p: int)
    ensures
        0 <= line_col(s, p).0 <= if p < 0 { 0 } else { p },
        0 <= line_col(s, p).1 <= if p < 0 { 0 } else { p },
    decreases p,
{
    if p > 0 {
        lemma_line_col_bounds(s, p - 1);
    }
}

// ---------------------------------------------------------------------------
// The lexer
// ---------------------------------------------------------------------------

/// Why one lexing step did not give a token: an error, or an abort.
enum Fault {
    Error(LexError),
    Abort,
}

fn hex_digit(c: char) -> (r: Option<u32>)
    ensures
        r == hex_value(c),
{
    if '0' <= c && c <= '9' {
        Some((c as u32 - '0' as u32) as u32)
    } else if 'a' <= c && c <= 'f' {
        Some((c as u32 - 'a' as u32 + 10) as u32)
    } else if 'A' <= c && c <= 'F' {
        Some((c as u32 - 'A' as u32 + 10) as u32)
    } else {
        None
    }
}

fn simple_escape_char(c: char) -> (r: Option<char>)
    ensures
        r == simple_escape(c),
{
    if c == '"' {
        Some('"')
    } else if c == '\'' {
        Some('\'')
    } else if c == '\\' {
        Some('\\')
    } else if c == 'n' {
        Some('\n')
    } else if c == 't' {
        Some('\t')
    } else if c == 'r' {
        Some('\r')
    } else {
        None
    }
}

fn chars_eq(v: &Vec<char>, w: &[char]) -> (r: bool)
    ensures
        r == (v@ == w@),
{
    if v.len() != w.len() {
        return false;
    }
    let mut i: usize = 0;
    while i < v.len()
        invariant
            v.len() == w.len(),
            0 <= i <= v.len(),
            forall|j: int| 0 <= j < i ==> v@[j] == w@[j],
        decreases v.len() - i,
    {
        if v[i] != w[i] {
            return false;
        }
        i = i + 1;
    }
    assert(v@ == w@);
    true
}

fn word_to_token(w: Vec<char>) -> (t: Token)
    ensures
        t@ == word_token(w@),
{
    if chars_eq(&w, &['l', 'e', 't']) {
        Token::Let
    } else if chars_eq(&w, &['t', 'r', 'u', 'e']) {
        Token::True
    } else if chars_eq(&w, &['f', 'a', 'l', 's', 'e']) {
        Token::False
    } else if chars_eq(&w, &['i', 'f']) {
        Token::If
    } else if chars_eq(&w, &['e', 'l', 's', 'e']) {
        Token::Else
    } else if chars_eq(&w, &['r', 'e', 't', 'u', 'r', 'n']) {
        Token::Return
    } else if chars_eq(&w, &['w', 'h', 'i', 'l', 'e']) {
        Token::While
    } else if chars_eq(&w, &['f', 'n']) {
        Token::Fn
    } else if chars_eq(&w, &['a', 'n', 'd']) {
        Token::And
    } else if chars_eq(&w, &['o', 'r']) {
        Token::Or
    } else if chars_eq(&w, &['n', 'o', 't']) {
        Token::Not
    } else {
        Token::Ident(string_of(&w))
    }
}

impl Lexer {
    /// A lexer at the start of `source`.
    pub fn new(source: String) -> (r: Self)
        ensures
            r.source@ == source@,
            r.position == 0,
    {
        Self { source: chars_of(&source), position: 0 }
    }

    /// The position of the next character to read.
    pub fn get_position(&self) -> (r: Position)
        requires
            self.position <= self.source.len(),
        ensures
            r == position_at(self.source@, self.position as int),
    {
        let mut line: usize = 0;
        let mut col: usize = 0;
        let mut i: usize = 0;
        while i < self.position
            invariant
                i <= self.position <= self.source.len(),
                (line as int, col as int) == line_col(self.source@, i as int),
            decreases self.position - i,
        {
            proof {
                lemma_line_col_bounds(self.source@, i as int);
            }
            let ch = self.source[i];
            if ch == '\n' {
                col = 0;
                line = line + 1;
            } else if ch != '\r' {
                col = col + 1;
            }
            i = i + 1;
        }
        Position { line, col }
    }

    /// Moves past white space and line comments.
    pub fn skip_whitespace_and_comments(&mut self)
        requires
            old(self).position < usize::MAX,
            old(self).source.len() < usize::MAX,
        ensures
            final(self).source@ == old(self).source@,
            final(self).position == trivia_end(old(self).source@, old(self).position as int),
    {
        let ghost s = self.source@;
        let ghost start = self.position as int;
        loop
            invariant
                self.source@ == s,
                s.len() < usize::MAX,
                self.position >= start,
                self.position < usize::MAX,
                trivia_end(s, start) == trivia_end(s, self.position as int),
            ensures
                self.source@ == s,
                self.position == trivia_end(s, start),
            decreases usize::MAX - self.position,
        {
            let ghost round = self.position;
            while self.position < self.source.len() && is_whitespace(self.source[self.position])
                invariant
                    self.source@ == s,
                    s.len() < usize::MAX,
                    self.position >= round,
                    self.position < usize::MAX,
                    trivia_end(s, start) == trivia_end(s, self.position as int),
                decreases self.source.len() - self.position,
            {
                self.position = self.position + 1;
            }
            if self.position < self.source.len() && self.source.len() - self.position > 1 {
                let ch = self.source[self.position];
                let next_ch = self.source[self.position + 1];
                if ch == '/' && next_ch == '/' {
                    self.position = self.position + 2;
                    while self.position < self.source.len() && self.source[self.position] != '\n'
                        invariant
                            self.source@ == s,
                            s.len() < usize::MAX,
                            round < self.position <= s.len(),
                            trivia_end(s, start) == comment_end(s, self.position as int),
                        decreases self.source.len() - self.position,
                    {
                        self.position = self.position + 1;
                    }
                    continue;
                }
            }
            break;
        }
    }
}

fn sub_chars(v: &Vec<char>, from: usize, to: usize) -> (r: Vec<char>)
    requires
        from <= to <= v.len(),
    ensures
        r@ == v@.subrange(from as int, to as int),
{
    let mut r: Vec<char> = Vec::new();
    let mut i: usize = from;
    while i < to
        invariant
            from <= i <= to <= v.len(),
            r@ == v@.subrange(from as int, i as int),
        decreases to - i,
    {
        r.push(v[i]);
        i = i + 1;
        assert(v@.subrange(from as int, i as int) == v@.subrange(from as int, i - 1) + seq![v@[i - 1]]);
    }
    r
}

fn is_digit_char(c: char) -> (r: bool)
    ensures
        r == is_digit(c),
{
    '0' <= c && c <= '9'
}

fn is_ident_start_char(c: char) -> (r: bool)
    ensures
        r == is_ident_start(c),
{
    ('a' <= c && c <= 'z') || ('A' <= c && c <= 'Z') || c == '_'
}

fn is_ident_char_exec(c: char) -> (r: bool)
    ensures
        r == is_ident_char(c),
{
    is_ident_start_char(c) || is_digit_char(c)
}

/// What `next_token` promises, stated over the scan it performs.
spec fn step_matches(s: Seq<char>, scan: Scan, r: Result<Token, Fault>, final_pos: int) -> bool {
    match scan {
        Scan::Token(t, p) => r matches Ok(tok) && tok@ == t && final_pos == p,
        Scan::Error(e, p) => r matches Err(Fault::Error(e2)) && e2 == e && final_pos == p,
        Scan::Abort => r matches Err(Fault::Abort),
    }
}

impl Lexer {
    /// Reads a string literal whose opening quote `starting` was just read.
    fn lex_string(&mut self, starting: char) -> (r: Result<Token, Fault>)
        requires
            0 < old(self).position <= old(self).source.len() < usize::MAX,
        ensures
            old(self).position <= final(self).position <= final(self).source.len(),
            final(self).source@ == old(self).source@,
            step_matches(old(self).source@, scan_string(old(self).source@, old(self).position as int, starting, seq![], false), r, final(self).position as int),
    {
        let ghost s = self.source@;
        let ghost p1 = self.position as int;
        let mut escaped = false;
        let mut string: Vec<char> = Vec::new();
        while self.position < self.source.len()
            invariant
                self.source@ == s,
                s.len() < usize::MAX,
                s == old(self).source@,
                p1 == old(self).position,
                p1 <= self.position <= s.len(),
                scan_string(s, self.position as int, starting, string@, escaped) == scan_string(s, p1, starting, seq![], false),
            decreases self.source.len() - self.position,
        {
            let next_ch = self.source[self.position];
            if escaped {
                escaped = false;
                if next_ch == '\n' {
                    self.position = self.position + 1;
                    continue;
                }
                if next_ch == 'u' {
                    self.position = self.position + 1;
                    let pos = self.position;
                    if self.source.len() < 4 || pos > self.source.len() - 4 {
                        return Err(Fault::Abort);
                    }
                    let d0 = hex_digit(self.source[pos]);
                    let d1 = hex_digit(self.source[pos + 1]);
                    let d2 = hex_digit(self.source[pos + 2]);
                    let d3 = hex_digit(self.source[pos + 3]);
                    match (d0, d1, d2, d3) {
                        (Some(a), Some(b), Some(c), Some(d)) => {
                            let result: u32 = ((a * 16 + b) * 16 + c) * 16 + d;
                            match char_from_u32(result) {
                                Some(character) => {
                                    proof {
                                        lemma_char_code_roundtrip(character);
                                    }
                                    assert(character == (result as char));
                                    self.position = self.position + 4;
                                    string.push(character);
                                    continue;
                                },
                                None => {
                                    return Err(Fault::Abort);
                                },
                            }
                        },
                        _ => {
                            return Err(Fault::Abort);
                        },
                    }
                }
                match simple_escape_char(next_ch) {
                    Some(e) => {
                        self.position = self.position + 1;
                        string.push(e);
                    },
                    None => {
                        return Err(Fault::Error(LexError::IllegalEscapingSequence {
                            ch: next_ch,
                            position: self.get_position(),
                        }));
                    },
                }
            } else if next_ch == starting {
                self.position = self.position + 1;
                return Ok(Token::String(string_of(&string)));
            } else if next_ch == '\\' {
                escaped = true;
                self.position = self.position + 1;
            } else if next_ch == '\n' {
                return Err(Fault::Error(LexError::UnexpectedEol { position: self.get_position() }));
            } else {
                string.push(next_ch);
                self.position = self.position + 1;
            }
        }
        Err(Fault::Error(LexError::UnexpectedEof))
    }

    /// Reads the rest of a number literal whose first digit, at `start`, was just read.
    fn lex_number(&mut self, start: usize) -> (r: Result<Token, Fault>)
        requires
            old(self).position == start + 1,
            start < old(self).source.len() < usize::MAX,
            is_digit(old(self).source@[start as int]),
        ensures
            old(self).position <= final(self).position <= final(self).source.len(),
            final(self).source@ == old(self).source@,
            step_matches(old(self).source@, scan_number(old(self).source@, start as int, old(self).position as int, false), r, final(self).position as int),
    {
        let ghost s = self.source@;
        let ghost p1 = self.position as int;
        let mut is_float = false;
        let first = self.source[start];
        let mut value: u64 = (first as u32 - '0' as u32) as u64;
        let mut too_big = false;
        proof {
            let t = s.subrange(start as int, p1);
            assert(t.drop_last() =~= s.subrange(start as int, start as int));
            assert(digits_value(s.subrange(start as int, start as int)) == 0);
        }
        while self.position < self.source.len()
            && (is_digit_char(self.source[self.position]) || self.source[self.position] == '.')
            invariant
                self.source@ == s,
                s.len() < usize::MAX,
                s == old(self).source@,
                p1 == old(self).position,
                p1 == start + 1,
                p1 <= self.position <= s.len(),
                scan_number(s, start as int, self.position as int, is_float) == scan_number(s, start as int, p1, false),
                !is_float ==> (too_big <==> digits_value(s.subrange(start as int, self.position as int)) > i64::MAX),
                !is_float && !too_big ==> value == digits_value(s.subrange(start as int, self.position as int)),
                !is_float ==> forall|i: int| start <= i < self.position ==> is_digit(#[trigger] s[i]),
                value <= i64::MAX,
            decreases self.source.len() - self.position,
        {
            let next_ch = self.source[self.position];
            if is_digit_char(next_ch) {
                proof {
                    let t = s.subrange(start as int, self.position + 1);
                    assert(t.drop_last() =~= s.subrange(start as int, self.position as int));
                    if !is_float {
                        lemma_digits_value_nonneg(s.subrange(start as int, self.position as int));
                    }
                }
                if !too_big {
                    let d = (next_ch as u32 - '0' as u32) as u128;
                    let wide: u128 = (value as u128) * 10 + d;
                    if wide > i64::MAX as u128 {
                        too_big = true;
                    } else {
                        value = wide as u64;
                    }
                }
                self.position = self.position + 1;
            } else {
                if is_float {
                    return Err(Fault::Error(LexError::MultipleDots { position: self.get_position() }));
                }
                is_float = true;
                self.position = self.position + 1;
            }
        }
        if is_float {
            let text = sub_chars(&self.source, start, self.position);
            Ok(Token::Float(string_of(&text)))
        } else if too_big {
            Err(Fault::Abort)
        } else {
            Ok(Token::Integer(value as i64))
        }
    }

    /// Reads the rest of a word whose first character, at `start`, was just read.
    fn lex_word(&mut self, start: usize) -> (r: Result<Token, Fault>)
        requires
            old(self).position == start + 1,
            start < old(self).source.len() < usize::MAX,
        ensures
            old(self).position <= final(self).position <= final(self).source.len(),
            final(self).source@ == old(self).source@,
            step_matches(old(self).source@, scan_word(old(self).source@, start as int, old(self).position as int), r, final(self).position as int),
    {
        let ghost s = self.source@;
        let ghost p1 = self.position as int;
        while self.position < self.source.len() && is_ident_char_exec(self.source[self.position])
            invariant
                self.source@ == s,
                s.len() < usize::MAX,
                p1 <= self.position <= s.len(),
                scan_word(s, start as int, self.position as int) == scan_word(s, start as int, p1),
            decreases self.source.len() - self.position,
        {
            self.position = self.position + 1;
        }
        let w = sub_chars(&self.source, start, self.position);
        Ok(word_to_token(w))
    }

    /// Reads `short`, or `long` when `=` follows.
    fn lex_with_eq(&mut self, short: Token, long: Token) -> (r: Result<Token, Fault>)
        requires
            old(self).position <= old(self).source.len() < usize::MAX,
        ensures
            old(self).position <= final(self).position <= final(self).source.len(),
            final(self).source@ == old(self).source@,
            step_matches(old(self).source@, with_eq(old(self).source@, old(self).position as int, short@, long@), r, final(self).position as int),
    {
        if self.position < self.source.len() && self.source[self.position] == '=' {
            self.position = self.position + 1;
            Ok(long)
        } else {
            Ok(short)
        }
    }

    /// Reads the next token.
    fn next_token(&mut self) -> (r: Result<Token, Fault>)
        requires
            old(self).position < usize::MAX,
            old(self).source.len() < usize::MAX,
        ensures
            r matches Ok(t) ==> (t is Eof || old(self).position < final(self).position <= final(self).source.len()),
            final(self).source@ == old(self).source@,
            step_matches(old(self).source@, next_token_spec(old(self).source@, old(self).position as int), r, final(self).position as int),
    {
        proof {
            lemma_trivia_end_bounds(self.source@, self.position as int);
        }
        self.skip_whitespace_and_comments();
        if self.position >= self.source.len() {
            return Ok(Token::Eof);
        }
        let p0 = self.position;
        let ch = self.source[self.position];
        self.position = self.position + 1;
        if ch == '"' || ch == '\'' {
            self.lex_string(ch)
        } else if ch == '+' {
            self.lex_with_eq(Token::Plus, Token::PlusAssign)
        } else if ch == '-' {
            self.lex_with_eq(Token::Minus, Token::MinusAssign)
        } else if ch == '*' {
            self.lex_with_eq(Token::Star, Token::StarAssign)
        } else if ch == '/' {
            self.lex_with_eq(Token::Slash, Token::SlashAssign)
        } else if ch == '(' {
            Ok(Token::LParen)
        } else if ch == ')' {
            Ok(Token::RParen)
        } else if ch == ',' {
            Ok(Token::Comma)
        } else if ch == '{' {
            Ok(Token::LBrace)
        } else if ch == '}' {
            Ok(Token::RBrace)
        } else if ch == ';' {
            Ok(Token::Semicolon)
        } else if ch == ':' {
            Ok(Token::Colon)
        } else if ch == '[' {
            Ok(Token::LBracket)
        } else if ch == ']' {
            Ok(Token::RBracket)
        } else if ch == '.' {
            if self.position < self.source.len() && self.source[self.position] == '.' {
                self.position = self.position + 1;
                Ok(Token::DotDot)
            } else {
                Ok(Token::Dot)
            }
        } else if ch == '=' {
            self.lex_with_eq(Token::Assign, Token::Eq)
        } else if ch == '>' {
            self.lex_with_eq(Token::Gt, Token::Gte)
        } else if ch == '<' {
            self.lex_with_eq(Token::Lt, Token::Lte)
        } else if ch == '!' {
            self.lex_with_eq(Token::Not, Token::NEq)
        } else if is_digit_char(ch) {
            self.lex_number(p0)
        } else if is_ident_start_char(ch) {
            self.lex_word(p0)
        } else {
            Err(Fault::Error(LexError::UnexpectedChar { ch, position: self.get_position() }))
        }
    }
}

/// The outcome of lexing after `ts` were already read.
pub open spec fn after_tokens(ts: Seq<TokenV>, run: LexRun) -> LexRun {
    match run {
        LexRun::Done(rest, q) => LexRun::Done(ts + rest, q),
        other => other,
    }
}

/// A sequence of tokens viewed as values.
pub open spec fn tokens_view(v: Seq<Token>) -> Seq<TokenV> {
    v.map_values(|t: Token| t@)
}

impl Lexer {
    /// Lexes the rest of the source; an abort is reported as a fault.
    fn tokenize_run(&mut self) -> (r: Result<Vec<Token>, Fault>)
        requires
            old(self).position < usize::MAX,
            old(self).source.len() < usize::MAX,
        ensures
            final(self).source@ == old(self).source@,
            match lex_from(old(self).source@, old(self).position as int) {
                LexRun::Done(ts, q) => r matches Ok(v) && tokens_view(v@) == ts && final(self).position == q,
                LexRun::Failed(e, q) => r matches Err(Fault::Error(e2)) && e2 == e && final(self).position == q,
                LexRun::Aborted => r matches Err(Fault::Abort),
            },
    {
        let ghost s = self.source@;
        let ghost start = self.position as int;
        let mut tokens: Vec<Token> = Vec::new();
        assert(tokens_view(tokens@) =~= Seq::<TokenV>::empty());
        assert(after_tokens(Seq::<TokenV>::empty(), lex_from(s, start)) == lex_from(s, start)) by {
            match lex_from(s, start) {
                LexRun::Done(rest, q) => {
                    assert(Seq::<TokenV>::empty() + rest =~= rest);
                },
                _ => {},
            }
        }
        loop
            invariant_except_break
                self.position < usize::MAX,
                lex_from(s, start) == after_tokens(tokens_view(tokens@), lex_from(s, self.position as int)),
            invariant
                self.source@ == s,
                s == old(self).source@,
                start == old(self).position,
                s.len() < usize::MAX,
            ensures
                self.source@ == s,
                lex_from(s, start) == LexRun::Done(tokens_view(tokens@), self.position as int),
            decreases s.len() + 1 - self.position,
        {
            let ghost here = self.position as int;
            let token = match self.next_token() {
                Ok(t) => t,
                Err(f) => {
                    return Err(f);
                },
            };
            let is_eof = matches!(token, Token::Eof);
            let ghost before = tokens@;
            let ghost tv = token@;
            tokens.push(token);
            proof {
                assert(tokens_view(tokens@) =~= tokens_view(before) + seq![tv]);
                if is_eof {
                    assert(tokens_view(before) + seq![TokenV::Eof] =~= tokens_view(tokens@));
                } else {
                    match lex_from(s, self.position as int) {
                        LexRun::Done(rest, q) => {
                            assert(tokens_view(before) + (seq![tv] + rest) =~= tokens_view(tokens@) + rest);
                        },
                        _ => {},
                    }
                }
            }
            if is_eof {
                break;
            }
        }
        Ok(tokens)
    }
}

impl Lexer {
    /// Lexes the rest of the source into tokens, the last of which is `Eof`.
    ///
    /// The inputs on which lexing aborts (a `\\u` escape that is not four
    /// hexadecimal digits naming a scalar value, an integer literal above
    /// `i64::MAX`) are left out; `tokenize_checked` takes every input.
    pub fn tokenize(&mut self) -> (r: Result<Vec<Token>, LexError>)
        requires
            old(self).position < usize::MAX,
            old(self).source.len() < usize::MAX,
            !lex_aborts(old(self).source@, old(self).position as int),
        ensures
            final(self).source@ == old(self).source@,
            match lex_from(old(self).source@, old(self).position as int) {
                LexRun::Done(ts, q) => r matches Ok(v) && tokens_view(v@) == ts && final(self).position == q,
                LexRun::Failed(e, q) => r == Err::<Vec<Token>, LexError>(e) && final(self).position == q,
                LexRun::Aborted => false,
            },
            r matches Ok(v) ==> tokens_view(v@).len() > 0 && tokens_view(v@).last() is Eof,
            r is Ok && old(self).position <= old(self).source.len() ==> final(self).position == final(self).source.len(),
    {
        proof {
            crate::laws::law_lexing_ends_with_eof(self.source@, self.position as int);
            if self.position <= self.source.len() {
                lemma_lex_done_at_end(self.source@, self.position as int);
            }
        }
        match self.tokenize_run() {
            Ok(v) => Ok(v),
            Err(Fault::Error(e)) => Err(e),
            Err(Fault::Abort) => Err(LexError::UnexpectedEof),
        }
    }

    /// Lexes the rest of the source like `tokenize`, and gives `None` on the
    /// inputs on which lexing aborts.
    pub fn tokenize_checked(&mut self) -> (r: Option<Result<Vec<Token>, LexError>>)
        requires
            old(self).position < usize::MAX,
            old(self).source.len() < usize::MAX,
        ensures
            final(self).source@ == old(self).source@,
            match lex_from(old(self).source@, old(self).position as int) {
                LexRun::Done(ts, q) => r matches Some(Ok(v)) && tokens_view(v@) == ts && final(self).position == q,
                LexRun::Failed(e, q) => r == Some(Err::<Vec<Token>, LexError>(e)) && final(self).position == q,
                LexRun::Aborted => r is None,
            },
            r matches Some(Ok(v)) ==> tokens_view(v@).len() > 0 && tokens_view(v@).last() is Eof,
            r matches Some(Ok(_)) && old(self).position <= old(self).source.len() ==> final(self).position == final(self).source.len(),
    {
        proof {
            crate::laws::law_lexing_ends_with_eof(self.source@, self.position as int);
            if self.position <= self.source.len() {
                lemma_lex_done_at_end(self.source@, self.position as int);
            }
        }
        match self.tokenize_run() {
            Ok(v) => Some(Ok(v)),
            Err(Fault::Error(e)) => Some(Err(e)),
            Err(Fault::Abort) => None,
        }
    }
}

} // verus!
