//! The lexer: characters to tokens, each with the region of the source it
//! came from.
use vstd::prelude::*;
use crate::text::{
    char_is_alphanumeric, char_is_whitespace, chars_of, digit_value, digits_value, is_alnum,
    is_digit, is_digit_char, is_space, string_from_chars,
};

verus! {

/// The kind of a token, without its payload.
#[derive(Debug, Clone, Copy, PartialEq, Eq, Structural)]
pub enum TokenKind {
    KeywordFun,
    KeywordTrue,
    KeywordFalse,
    KeywordNull,
    KeywordVar,
    KeywordIf,
    KeywordElif,
    KeywordElse,
    KeywordWhile,
    KeywordFor,
    KeywordLoop,
    KeywordContinue,
    KeywordBreak,
    EqualSign,
    CloseParenthesis,
    OpenParenthesis,
    OpenBrace,
    CloseBrace,
    PlusSign,
    MinusSign,
    DivisionSign,
    MultiplicationSign,
    ExponentSign,
    ModuloSign,
    EndOfFile,
    Identifier,
    String,
    Int,
    IsLessThan,
    IsLessThanOrEqual,
    IsGreaterThan,
    IsGreaterThanOrEqual,
    IsEqual,
    IsNotEqual,
    And,
    Or,
}

#[derive(Debug, Clone)]
pub enum TokenValue {
    KeywordFun,
    KeywordTrue,
    KeywordFalse,
    KeywordNull,
    KeywordVar,
    KeywordIf,
    KeywordElif,
    KeywordElse,
    KeywordWhile,
    KeywordFor,
    KeywordLoop,
    KeywordContinue,
    KeywordBreak,
    EqualSign,
    CloseParenthesis,
    OpenParenthesis,
    OpenBrace,
    CloseBrace,
    PlusSign,
    MinusSign,
    DivisionSign,
    MultiplicationSign,
    ExponentSign,
    ModuloSign,
    EndOfFile,
    Identifier(String),
    String(String),
    Int(i64),
    IsLessThan,
    IsLessThanOrEqual,
    IsGreaterThan,
    IsGreaterThanOrEqual,
    IsEqual,
    IsNotEqual,
    And,
    Or,
}

#[derive(Debug, Clone)]
pub struct Token {
    pub value: TokenValue,
    pub region: Region,
}

/// A one-based row and column in the source.
#[derive(Debug, Clone, Copy, PartialEq, Eq, Structural)]
pub struct Location {
    pub row: usize,
    pub col: usize,
}

#[derive(Debug, Clone, Copy, PartialEq, Eq, Structural)]
pub struct Region {
    pub start: Location,
    pub end: Location,
}

#[derive(Debug, Clone, Copy, PartialEq, Eq, Structural)]
pub enum LexerError {
    UnexpectedCharacter { location: Location, char: char },
    /// A character other than a digit where a digit was required; integer
    /// literals here are read only while digits follow, so `tokenize` never
    /// reports it.
    NotDigit { location: Location, char: char },
    /// An integer literal whose value does not fit in 64 bits.
    IntegerTooLarge { location: Location },
}

/// A token as a mathematical object: its kind, the text of an identifier or
/// string literal, the value of an integer literal, and its region.
pub struct TokV {
    pub kind: TokenKind,
    pub text: Seq<char>,
    pub int: i64,
    pub region: Region,
}

pub struct Lexer {
    source: Vec<char>,
    c: usize,
}

// ---------------------------------------------------------------------------
// The rules of tokenization.

/// The location of the character at index `t`.
pub open spec fn location(src: Seq<char>, t: int) -> Location
    decreases t,
{
    if t <= 0 {
        Location { row: 1, col: 1 }
    } else {
        let p = location(src, t - 1);
        if src[t - 1] == '\n' {
            Location { row: (p.row + 1) as usize, col: 1 }
        } else {
            Location { row: p.row, col: (p.col + 1) as usize }
        }
    }
}

/// An index past the end of the source stands for its last character.
pub open spec fn clamp_index(src: Seq<char>, index: int) -> int {
    if index > src.len() {
        if src.len() == 0 {
            0
        } else {
            src.len() - 1
        }
    } else {
        index
    }
}

pub open spec fn location_at(src: Seq<char>, index: int) -> Location {
    location(src, clamp_index(src, index))
}

pub open spec fn region_of(src: Seq<char>, from: int, to: int) -> Region {
    Region { start: location_at(src, from), end: location_at(src, to) }
}

pub open spec fn next_or_space(src: Seq<char>, c: int) -> char {
    if 0 <= c + 1 < src.len() {
        src[c + 1]
    } else {
        ' '
    }
}

/// An operator or punctuation token at `c`, with its width in characters.
pub open spec fn punct(src: Seq<char>, c: int) -> Option<(TokenKind, int)> {
    let ch = src[c];
    let nx = next_or_space(src, c);
    if ch == '(' {
        Some((TokenKind::OpenParenthesis, 1))
    } else if ch == ')' {
        Some((TokenKind::CloseParenthesis, 1))
    } else if ch == '{' {
        Some((TokenKind::OpenBrace, 1))
    } else if ch == '}' {
        Some((TokenKind::CloseBrace, 1))
    } else if ch == '+' {
        Some((TokenKind::PlusSign, 1))
    } else if ch == '-' {
        Some((TokenKind::MinusSign, 1))
    } else if ch == '/' {
        Some((TokenKind::DivisionSign, 1))
    } else if ch == '%' {
        Some((TokenKind::ModuloSign, 1))
    } else if ch == '*' {
        if nx == '*' {
            Some((TokenKind::ExponentSign, 2))
        } else {
            Some((TokenKind::MultiplicationSign, 1))
        }
    } else if ch == '&' {
        if nx == '&' {
            Some((TokenKind::And, 2))
        } else {
            None
        }
    } else if ch == '|' {
        if nx == '|' {
            Some((TokenKind::Or, 2))
        } else {
            None
        }
    } else if ch == '!' {
        if nx == '=' {
            Some((TokenKind::IsNotEqual, 2))
        } else {
            None
        }
    } else if ch == '=' {
        if nx == '=' {
            Some((TokenKind::IsEqual, 2))
        } else {
            Some((TokenKind::EqualSign, 1))
        }
    } else if ch == '<' {
        if nx == '=' {
            Some((TokenKind::IsLessThanOrEqual, 2))
        } else {
            Some((TokenKind::IsLessThan, 1))
        }
    } else if ch == '>' {
        if nx == '=' {
            Some((TokenKind::IsGreaterThanOrEqual, 2))
        } else {
            Some((TokenKind::IsGreaterThan, 1))
        }
    } else {
        None
    }
}

/// The first index from `j` on that holds `stop`, or the length.
pub open spec fn scan_to(src: Seq<char>, j: int, stop: char) -> int
    decreases src.len() - j,
{
    if j < 0 || j >= src.len() || src[j] == stop {
        j
    } else {
        scan_to(src, j + 1, stop)
    }
}

/// The first index from `j` on where "]#" starts, or the length.
pub open spec fn scan_block_end(src: Seq<char>, j: int) -> int
    decreases src.len() - j,
{
    if j < 0 || j >= src.len() || (src[j] == ']' && next_or_space(src, j) == '#') {
        j
    } else {
        scan_block_end(src, j + 1)
    }
}

/// The end of the run of digits that starts at `j`.
pub open spec fn scan_digits(src: Seq<char>, j: int) -> int
    decreases src.len() - j,
{
    if j < 0 || j >= src.len() || !is_digit(src[j]) {
        j
    } else {
        scan_digits(src, j + 1)
    }
}

pub open spec fn is_word_char(c: char) -> bool {
    is_alnum(c) && !is_space(c)
}

/// The end of the run of letters and digits that starts at `j`.
pub open spec fn scan_word(src: Seq<char>, j: int) -> int
    decreases src.len() - j,
{
    if j < 0 || j >= src.len() || !is_word_char(src[j]) {
        j
    } else {
        scan_word(src, j + 1)
    }
}

/// Where scanning resumes after the comment that starts with '#' at `c`.
pub open spec fn comment_end(src: Seq<char>, c: int) -> int {
    if c + 1 < src.len() && src[c + 1] == '[' {
        scan_block_end(src, c + 1) + 2
    } else {
        scan_to(src, c + 1, '\n') + 1
    }
}

pub open spec fn keyword(w: Seq<char>) -> Option<TokenKind> {
    if w == seq!['f', 'u', 'n'] {
        Some(TokenKind::KeywordFun)
    } else if w == seq!['t', 'r', 'u', 'e'] {
        Some(TokenKind::KeywordTrue)
    } else if w == seq!['f', 'a', 'l', 's', 'e'] {
        Some(TokenKind::KeywordFalse)
    } else if w == seq!['n', 'u', 'l', 'l'] {
        Some(TokenKind::KeywordNull)
    } else if w == seq!['v', 'a', 'r'] {
        Some(TokenKind::KeywordVar)
    } else if w == seq!['i', 'f'] {
        Some(TokenKind::KeywordIf)
    } else if w == seq!['e', 'l', 'i', 'f'] {
        Some(TokenKind::KeywordElif)
    } else if w == seq!['e', 'l', 's', 'e'] {
        Some(TokenKind::KeywordElse)
    } else if w == seq!['w', 'h', 'i', 'l', 'e'] {
        Some(TokenKind::KeywordWhile)
    } else if w == seq!['f', 'o', 'r'] {
        Some(TokenKind::KeywordFor)
    } else if w == seq!['l', 'o', 'o', 'p'] {
        Some(TokenKind::KeywordLoop)
    } else if w == seq!['c', 'o', 'n', 't', 'i', 'n', 'u', 'e'] {
        Some(TokenKind::KeywordContinue)
    } else if w == seq!['b', 'r', 'e', 'a', 'k'] {
        Some(TokenKind::KeywordBreak)
    } else {
        None
    }
}

pub open spec fn plain_token(kind: TokenKind, region: Region) -> TokV {
    TokV { kind, text: Seq::empty(), int: 0, region }
}

/// What the lexer does at index `c`: skip to an index, emit a token and
/// go on at an index, or fail.
pub enum Step {
    Skip(int),
    Emit(TokV, int),
    Fail(LexerError),
}

pub open spec fn lex_step(src: Seq<char>, c: int) -> Step {
    let ch = src[c];
    match punct(src, c) {
        Some((k, w)) => Step::Emit(plain_token(k, region_of(src, c, c + w - 1)), c + w),
        None => {
            if is_space(ch) {
                Step::Skip(c + 1)
            } else if ch == '#' {
                Step::Skip(comment_end(src, c))
            } else if ch == '"' {
                let j = scan_to(src, c + 1, '"');
                Step::Emit(
                    TokV {
                        kind: TokenKind::String,
                        text: src.subrange(c + 1, j),
                        int: 0,
                        region: region_of(src, c, j + 1),
                    },
                    j + 1,
                )
            } else if is_digit(ch) {
                let j = scan_digits(src, c);
                let v = digits_value(src.subrange(c, j));
                if v > i64::MAX {
                    Step::Fail(LexerError::IntegerTooLarge { location: location_at(src, c) })
                } else {
                    Step::Emit(
                        TokV { kind: TokenKind::Int, text: Seq::empty(), int: v as i64, region: region_of(src, c, j) },
                        j,
                    )
                }
            } else if is_word_char(ch) {
                let j = scan_word(src, c);
                let w = src.subrange(c, j);
                match keyword(w) {
                    Some(k) => Step::Emit(plain_token(k, region_of(src, c, j)), j),
                    None => Step::Emit(
                        TokV { kind: TokenKind::Identifier, text: w, int: 0, region: region_of(src, c, j) },
                        j,
                    ),
                }
            } else {
                Step::Fail(LexerError::UnexpectedCharacter { location: location_at(src, c), char: ch })
            }
        },
    }
}

pub open spec fn eof_token(src: Seq<char>) -> TokV {
    plain_token(TokenKind::EndOfFile, region_of(src, usize::MAX as int, usize::MAX as int))
}

/// The tokens of the source from index `c` on, ended by the end-of-file token.
pub open spec fn lex_from(src: Seq<char>, c: nat) -> Result<Seq<TokV>, LexerError>
    decreases src.len() + 3 - c,
    via lex_from_decreases
{
    if c >= src.len() {
        Ok(seq![eof_token(src)])
    } else {
        match lex_step(src, c as int) {
            Step::Skip(n) => lex_from(src, n as nat),
            Step::Emit(t, n) => match lex_from(src, n as nat) {
                Ok(ts) => Ok(seq![t] + ts),
                Err(e) => Err(e),
            },
            Step::Fail(e) => Err(e),
        }
    }
}

/// The tokens of a whole source.
pub open spec fn lex(src: Seq<char>) -> Result<Seq<TokV>, LexerError> {
    lex_from(src, 0)
}

proof fn lemma_scans_advance(src: Seq<char>, j: int, stop: char)
    ensures
        scan_to(src, j, stop) >= j,
        scan_block_end(src, j) >= j,
        scan_digits(src, j) >= j,
        scan_word(src, j) >= j,
        0 <= j <= src.len() ==> scan_to(src, j, stop) <= src.len(),
        0 <= j <= src.len() ==> scan_block_end(src, j) <= src.len(),
        0 <= j <= src.len() ==> scan_digits(src, j) <= src.len(),
        0 <= j <= src.len() ==> scan_word(src, j) <= src.len(),
    decreases src.len() - j,
{
    if 0 <= j < src.len() {
        lemma_scans_advance(src, j + 1, stop);
    }
}

#[via_fn]
proof fn lex_from_decreases(src: Seq<char>, c: nat) {
    if c < src.len() {
        lemma_scans_advance(src, c as int, '"');
        lemma_scans_advance(src, c as int + 1, '"');
        lemma_scans_advance(src, c as int + 1, '\n');
        match lex_step(src, c as int) {
            Step::Skip(n) => assert(c < n <= src.len() + 2),
            Step::Emit(t, n) => assert(c < n <= src.len() + 2),
            Step::Fail(e) => {},
        }
    }
}

// ---------------------------------------------------------------------------
// Tokens and their views.

/// The kind, text and integer of a token value.
pub open spec fn token_value_view(v: TokenValue) -> (TokenKind, Seq<char>, i64) {
    match v {
        TokenValue::KeywordFun => (TokenKind::KeywordFun, Seq::empty(), 0),
        TokenValue::KeywordTrue => (TokenKind::KeywordTrue, Seq::empty(), 0),
        TokenValue::KeywordFalse => (TokenKind::KeywordFalse, Seq::empty(), 0),
        TokenValue::KeywordNull => (TokenKind::KeywordNull, Seq::empty(), 0),
        TokenValue::KeywordVar => (TokenKind::KeywordVar, Seq::empty(), 0),
        TokenValue::KeywordIf => (TokenKind::KeywordIf, Seq::empty(), 0),
        TokenValue::KeywordElif => (TokenKind::KeywordElif, Seq::empty(), 0),
        TokenValue::KeywordElse => (TokenKind::KeywordElse, Seq::empty(), 0),
        TokenValue::KeywordWhile => (TokenKind::KeywordWhile, Seq::empty(), 0),
        TokenValue::KeywordFor => (TokenKind::KeywordFor, Seq::empty(), 0),
        TokenValue::KeywordLoop => (TokenKind::KeywordLoop, Seq::empty(), 0),
        TokenValue::KeywordContinue => (TokenKind::KeywordContinue, Seq::empty(), 0),
        TokenValue::KeywordBreak => (TokenKind::KeywordBreak, Seq::empty(), 0),
        TokenValue::EqualSign => (TokenKind::EqualSign, Seq::empty(), 0),
        TokenValue::CloseParenthesis => (TokenKind::CloseParenthesis, Seq::empty(), 0),
        TokenValue::OpenParenthesis => (TokenKind::OpenParenthesis, Seq::empty(), 0),
        TokenValue::OpenBrace => (TokenKind::OpenBrace, Seq::empty(), 0),
        TokenValue::CloseBrace => (TokenKind::CloseBrace, Seq::empty(), 0),
        TokenValue::PlusSign => (TokenKind::PlusSign, Seq::empty(), 0),
        TokenValue::MinusSign => (TokenKind::MinusSign, Seq::empty(), 0),
        TokenValue::DivisionSign => (TokenKind::DivisionSign, Seq::empty(), 0),
        TokenValue::MultiplicationSign => (TokenKind::MultiplicationSign, Seq::empty(), 0),
        TokenValue::ExponentSign => (TokenKind::ExponentSign, Seq::empty(), 0),
        TokenValue::ModuloSign => (TokenKind::ModuloSign, Seq::empty(), 0),
        TokenValue::EndOfFile => (TokenKind::EndOfFile, Seq::empty(), 0),
        TokenValue::Identifier(s) => (TokenKind::Identifier, s@, 0),
        TokenValue::String(s) => (TokenKind::String, s@, 0),
        TokenValue::Int(n) => (TokenKind::Int, Seq::empty(), n),
        TokenValue::IsLessThan => (TokenKind::IsLessThan, Seq::empty(), 0),
        TokenValue::IsLessThanOrEqual => (TokenKind::IsLessThanOrEqual, Seq::empty(), 0),
        TokenValue::IsGreaterThan => (TokenKind::IsGreaterThan, Seq::empty(), 0),
        TokenValue::IsGreaterThanOrEqual => (TokenKind::IsGreaterThanOrEqual, Seq::empty(), 0),
        TokenValue::IsEqual => (TokenKind::IsEqual, Seq::empty(), 0),
        TokenValue::IsNotEqual => (TokenKind::IsNotEqual, Seq::empty(), 0),
        TokenValue::And => (TokenKind::And, Seq::empty(), 0),
        TokenValue::Or => (TokenKind::Or, Seq::empty(), 0),
    }
}

pub open spec fn token_view(t: Token) -> TokV {
    let (kind, text, number) = token_value_view(t.value);
    TokV { kind, text, int: number, region: t.region }
}

impl View for Token {
    type V = TokV;

    open spec fn view(&self) -> TokV {
        token_view(*self)
    }
}

pub open spec fn tokens_view(ts: Seq<Token>) -> Seq<TokV> {
    ts.map_values(|t: Token| token_view(t))
}

pub open spec fn has_payload(k: TokenKind) -> bool {
    k == TokenKind::Identifier || k == TokenKind::String || k == TokenKind::Int
}

impl TokenValue {
    /// The kind of this token value.
    pub fn kind(&self) -> (r: TokenKind)
        ensures
            r == token_value_view(*self).0,
    {
        match self {
            TokenValue::KeywordFun => TokenKind::KeywordFun,
            TokenValue::KeywordTrue => TokenKind::KeywordTrue,
            TokenValue::KeywordFalse => TokenKind::KeywordFalse,
            TokenValue::KeywordNull => TokenKind::KeywordNull,
            TokenValue::KeywordVar => TokenKind::KeywordVar,
            TokenValue::KeywordIf => TokenKind::KeywordIf,
            TokenValue::KeywordElif => TokenKind::KeywordElif,
            TokenValue::KeywordElse => TokenKind::KeywordElse,
            TokenValue::KeywordWhile => TokenKind::KeywordWhile,
            TokenValue::KeywordFor => TokenKind::KeywordFor,
            TokenValue::KeywordLoop => TokenKind::KeywordLoop,
            TokenValue::KeywordContinue => TokenKind::KeywordContinue,
            TokenValue::KeywordBreak => TokenKind::KeywordBreak,
            TokenValue::EqualSign => TokenKind::EqualSign,
            TokenValue::CloseParenthesis => TokenKind::CloseParenthesis,
            TokenValue::OpenParenthesis => TokenKind::OpenParenthesis,
            TokenValue::OpenBrace => TokenKind::OpenBrace,
            TokenValue::CloseBrace => TokenKind::CloseBrace,
            TokenValue::PlusSign => TokenKind::PlusSign,
            TokenValue::MinusSign => TokenKind::MinusSign,
            TokenValue::DivisionSign => TokenKind::DivisionSign,
            TokenValue::MultiplicationSign => TokenKind::MultiplicationSign,
            TokenValue::ExponentSign => TokenKind::ExponentSign,
            TokenValue::ModuloSign => TokenKind::ModuloSign,
            TokenValue::EndOfFile => TokenKind::EndOfFile,
            TokenValue::Identifier(_) => TokenKind::Identifier,
            TokenValue::String(_) => TokenKind::String,
            TokenValue::Int(_) => TokenKind::Int,
            TokenValue::IsLessThan => TokenKind::IsLessThan,
            TokenValue::IsLessThanOrEqual => TokenKind::IsLessThanOrEqual,
            TokenValue::IsGreaterThan => TokenKind::IsGreaterThan,
            TokenValue::IsGreaterThanOrEqual => TokenKind::IsGreaterThanOrEqual,
            TokenValue::IsEqual => TokenKind::IsEqual,
            TokenValue::IsNotEqual => TokenKind::IsNotEqual,
            TokenValue::And => TokenKind::And,
            TokenValue::Or => TokenKind::Or,
        }
    }

    /// The token value of a kind that carries no payload.
    pub fn from_kind(k: TokenKind) -> (r: TokenValue)
        requires
            !has_payload(k),
        ensures
            token_value_view(r) == (k, Seq::<char>::empty(), 0i64),
    {
        match k {
            TokenKind::KeywordFun => TokenValue::KeywordFun,
            TokenKind::KeywordTrue => TokenValue::KeywordTrue,
            TokenKind::KeywordFalse => TokenValue::KeywordFalse,
            TokenKind::KeywordNull => TokenValue::KeywordNull,
            TokenKind::KeywordVar => TokenValue::KeywordVar,
            TokenKind::KeywordIf => TokenValue::KeywordIf,
            TokenKind::KeywordElif => TokenValue::KeywordElif,
            TokenKind::KeywordElse => TokenValue::KeywordElse,
            TokenKind::KeywordWhile => TokenValue::KeywordWhile,
            TokenKind::KeywordFor => TokenValue::KeywordFor,
            TokenKind::KeywordLoop => TokenValue::KeywordLoop,
            TokenKind::KeywordContinue => TokenValue::KeywordContinue,
            TokenKind::KeywordBreak => TokenValue::KeywordBreak,
            TokenKind::EqualSign => TokenValue::EqualSign,
            TokenKind::CloseParenthesis => TokenValue::CloseParenthesis,
            TokenKind::OpenParenthesis => TokenValue::OpenParenthesis,
            TokenKind::OpenBrace => TokenValue::OpenBrace,
            TokenKind::CloseBrace => TokenValue::CloseBrace,
            TokenKind::PlusSign => TokenValue::PlusSign,
            TokenKind::MinusSign => TokenValue::MinusSign,
            TokenKind::DivisionSign => TokenValue::DivisionSign,
            TokenKind::MultiplicationSign => TokenValue::MultiplicationSign,
            TokenKind::ExponentSign => TokenValue::ExponentSign,
            TokenKind::ModuloSign => TokenValue::ModuloSign,
            TokenKind::EndOfFile => TokenValue::EndOfFile,
            TokenKind::Identifier => TokenValue::EndOfFile,
            TokenKind::String => TokenValue::EndOfFile,
            TokenKind::Int => TokenValue::EndOfFile,
            TokenKind::IsLessThan => TokenValue::IsLessThan,
            TokenKind::IsLessThanOrEqual => TokenValue::IsLessThanOrEqual,
            TokenKind::IsGreaterThan => TokenValue::IsGreaterThan,
            TokenKind::IsGreaterThanOrEqual => TokenValue::IsGreaterThanOrEqual,
            TokenKind::IsEqual => TokenValue::IsEqual,
            TokenKind::IsNotEqual => TokenValue::IsNotEqual,
            TokenKind::And => TokenValue::And,
            TokenKind::Or => TokenValue::Or,
        }
    }
}

/// The keyword spelled by `src[from..to]`, if any.
fn keyword_of(src: &Vec<char>, from: usize, to: usize) -> (r: Option<TokenKind>)
    requires
        from <= to <= src@.len(),
    ensures
        r == keyword(src@.subrange(from as int, to as int)),
{
    let ghost w = src@.subrange(from as int, to as int);
    let n = to - from;
    assert(w.len() == n);
    assert(forall|i: int| 0 <= i < w.len() ==> #[trigger] w[i] == src@[from + i]);
    if n == 3 && src[from] == 'f' && src[from + 1] == 'u' && src[from + 2] == 'n' {
        assert(w =~= seq!['f', 'u', 'n']);
        return Some(TokenKind::KeywordFun);
    }
    if n == 4 && src[from] == 't' && src[from + 1] == 'r' && src[from + 2] == 'u' && src[from + 3] == 'e' {
        assert(w =~= seq!['t', 'r', 'u', 'e']);
        return Some(TokenKind::KeywordTrue);
    }
    if n == 5 && src[from] == 'f' && src[from + 1] == 'a' && src[from + 2] == 'l' && src[from + 3] == 's' && src[from + 4] == 'e' {
        assert(w =~= seq!['f', 'a', 'l', 's', 'e']);
        return Some(TokenKind::KeywordFalse);
    }
    if n == 4 && src[from] == 'n' && src[from + 1] == 'u' && src[from + 2] == 'l' && src[from + 3] == 'l' {
        assert(w =~= seq!['n', 'u', 'l', 'l']);
        return Some(TokenKind::KeywordNull);
    }
    if n == 3 && src[from] == 'v' && src[from + 1] == 'a' && src[from + 2] == 'r' {
        assert(w =~= seq!['v', 'a', 'r']);
        return Some(TokenKind::KeywordVar);
    }
    if n == 2 && src[from] == 'i' && src[from + 1] == 'f' {
        assert(w =~= seq!['i', 'f']);
        return Some(TokenKind::KeywordIf);
    }
    if n == 4 && src[from] == 'e' && src[from + 1] == 'l' && src[from + 2] == 'i' && src[from + 3] == 'f' {
        assert(w =~= seq!['e', 'l', 'i', 'f']);
        return Some(TokenKind::KeywordElif);
    }
    if n == 4 && src[from] == 'e' && src[from + 1] == 'l' && src[from + 2] == 's' && src[from + 3] == 'e' {
        assert(w =~= seq!['e', 'l', 's', 'e']);
        return Some(TokenKind::KeywordElse);
    }
    if n == 5 && src[from] == 'w' && src[from + 1] == 'h' && src[from + 2] == 'i' && src[from + 3] == 'l' && src[from + 4] == 'e' {
        assert(w =~= seq!['w', 'h', 'i', 'l', 'e']);
        return Some(TokenKind::KeywordWhile);
    }
    if n == 3 && src[from] == 'f' && src[from + 1] == 'o' && src[from + 2] == 'r' {
        assert(w =~= seq!['f', 'o', 'r']);
        return Some(TokenKind::KeywordFor);
    }
    if n == 4 && src[from] == 'l' && src[from + 1] == 'o' && src[from + 2] == 'o' && src[from + 3] == 'p' {
        assert(w =~= seq!['l', 'o', 'o', 'p']);
        return Some(TokenKind::KeywordLoop);
    }
    if n == 8 && src[from] == 'c' && src[from + 1] == 'o' && src[from + 2] == 'n' && src[from + 3] == 't' && src[from + 4] == 'i' && src[from + 5] == 'n' && src[from + 6] == 'u' && src[from + 7] == 'e' {
        assert(w =~= seq!['c', 'o', 'n', 't', 'i', 'n', 'u', 'e']);
        return Some(TokenKind::KeywordContinue);
    }
    if n == 5 && src[from] == 'b' && src[from + 1] == 'r' && src[from + 2] == 'e' && src[from + 3] == 'a' && src[from + 4] == 'k' {
        assert(w =~= seq!['b', 'r', 'e', 'a', 'k']);
        return Some(TokenKind::KeywordBreak);
    }
    None
}

proof fn lemma_location_bounds(src: Seq<char>, t: int)
    requires
        t <= isize::MAX,
    ensures
        1 <= location(src, t).row <= if t <= 0 { 1 } else { t + 1 },
        1 <= location(src, t).col <= if t <= 0 { 1 } else { t + 1 },
    decreases t,
{
    if t > 0 {
        lemma_location_bounds(src, t - 1);
    }
}

impl Token {
    pub fn new(region: Region, value: TokenValue) -> (r: Token)
        ensures
            r.region == region,
            token_value_view(r.value) == token_value_view(value),
    {
        Token { value, region }
    }
}

impl Location {
    /// The location of the character at `index`; an index past the end
    /// stands for the last character.
    pub fn from_index(source: &Vec<char>, index: usize) -> (r: Location)
        requires
            source@.len() <= isize::MAX,
        ensures
            r == location_at(source@, index as int),
    {
        let mut here = Location { row: 1, col: 1 };
        let target: usize = if index > source.len() {
            if source.len() == 0 {
                0
            } else {
                source.len() - 1
            }
        } else {
            index
        };
        let mut i: usize = 0;
        while i < target
            invariant
                target <= source@.len() <= isize::MAX,
                target == clamp_index(source@, index as int),
                i <= target,
                here == location(source@, i as int),
            decreases target - i,
        {
            proof {
                lemma_location_bounds(source@, i as int);
            }
            if source[i] == '\n' {
                here.row = here.row + 1;
                here.col = 1;
            } else {
                here.col = here.col + 1;
            }
            i = i + 1;
        }
        here
    }
}

pub open spec fn prepend(ts: Seq<TokV>, r: Result<Seq<TokV>, LexerError>) -> Result<
    Seq<TokV>,
    LexerError,
> {
    match r {
        Ok(rest) => Ok(ts + rest),
        Err(e) => Err(e),
    }
}

pub open spec fn tokens_result(r: Result<Vec<Token>, LexerError>) -> Result<Seq<TokV>, LexerError> {
    match r {
        Ok(v) => Ok(tokens_view(v@)),
        Err(e) => Err(e),
    }
}

proof fn lemma_prepend_one(ts: Seq<TokV>, t: TokV, r: Result<Seq<TokV>, LexerError>)
    ensures
        prepend(
            ts,
            match r {
                Ok(rest) => Ok(seq![t] + rest),
                Err(e) => Err(e),
            },
        ) == prepend(ts.push(t), r),
{
    match r {
        Ok(rest) => {
            assert(ts + (seq![t] + rest) =~= ts.push(t) + rest);
        },
        Err(e) => {},
    }
}

impl Lexer {
    pub closed spec fn source_view(&self) -> Seq<char> {
        self.source@
    }

    pub closed spec fn cursor(&self) -> int {
        self.c as int
    }

    pub fn new(source: &str) -> (r: Lexer)
        ensures
            r.source_view() == source@,
            r.cursor() == 0,
    {
        Lexer { source: chars_of(source), c: 0 }
    }

    fn current_location(&self) -> (r: Location)
        requires
            self.source@.len() <= isize::MAX,
        ensures
            r == location_at(self.source@, self.c as int),
    {
        Location::from_index(&self.source, self.c)
    }

    fn advance(&mut self)
        requires
            old(self).c < usize::MAX,
        ensures
            final(self).c == old(self).c + 1,
            final(self).source == old(self).source,
    {
        self.c = self.c + 1;
    }

    fn current(&self) -> (r: char)
        requires
            self.c < self.source@.len(),
        ensures
            r == self.source@[self.c as int],
    {
        self.source[self.c]
    }

    fn next_or_space(&self) -> (r: char)
        requires
            self.c < self.source@.len(),
        ensures
            r == next_or_space(self.source@, self.c as int),
    {
        if self.source.len() - self.c > 1 {
            self.source[self.c + 1]
        } else {
            ' '
        }
    }

    /// The operator or punctuation token at the cursor, with its width.
    fn punct(&self) -> (r: Option<(TokenKind, usize)>)
        requires
            self.c < self.source@.len(),
        ensures
            match punct(self.source@, self.c as int) {
                Some((k, w)) => r == Some((k, w as usize)),
                None => r is None,
            },
    {
        let ch = self.current();
        let nx = self.next_or_space();
        if ch == '(' {
            Some((TokenKind::OpenParenthesis, 1))
        } else if ch == ')' {
            Some((TokenKind::CloseParenthesis, 1))
        } else if ch == '{' {
            Some((TokenKind::OpenBrace, 1))
        } else if ch == '}' {
            Some((TokenKind::CloseBrace, 1))
        } else if ch == '+' {
            Some((TokenKind::PlusSign, 1))
        } else if ch == '-' {
            Some((TokenKind::MinusSign, 1))
        } else if ch == '/' {
            Some((TokenKind::DivisionSign, 1))
        } else if ch == '%' {
            Some((TokenKind::ModuloSign, 1))
        } else if ch == '*' {
            if nx == '*' {
                Some((TokenKind::ExponentSign, 2))
            } else {
                Some((TokenKind::MultiplicationSign, 1))
            }
        } else if ch == '&' {
            if nx == '&' {
                Some((TokenKind::And, 2))
            } else {
                None
            }
        } else if ch == '|' {
            if nx == '|' {
                Some((TokenKind::Or, 2))
            } else {
                None
            }
        } else if ch == '!' {
            if nx == '=' {
                Some((TokenKind::IsNotEqual, 2))
            } else {
                None
            }
        } else if ch == '=' {
            if nx == '=' {
                Some((TokenKind::IsEqual, 2))
            } else {
                Some((TokenKind::EqualSign, 1))
            }
        } else if ch == '<' {
            if nx == '=' {
                Some((TokenKind::IsLessThanOrEqual, 2))
            } else {
                Some((TokenKind::IsLessThan, 1))
            }
        } else if ch == '>' {
            if nx == '=' {
                Some((TokenKind::IsGreaterThanOrEqual, 2))
            } else {
                Some((TokenKind::IsGreaterThan, 1))
            }
        } else {
            None
        }
    }

    fn scan_to(&self, from: usize, stop: char) -> (r: usize)
        requires
            from <= self.source@.len(),
        ensures
            r == scan_to(self.source@, from as int, stop),
    {
        let mut j = from;
        while j < self.source.len() && self.source[j] != stop
            invariant
                from <= j <= self.source@.len(),
                scan_to(self.source@, j as int, stop) == scan_to(self.source@, from as int, stop),
            decreases self.source@.len() - j,
        {
            j = j + 1;
        }
        j
    }

    fn scan_block_end(&self, from: usize) -> (r: usize)
        requires
            from <= self.source@.len(),
        ensures
            r == scan_block_end(self.source@, from as int),
    {
        let mut j = from;
        while j < self.source.len() && !(self.source[j] == ']' && (j + 1 < self.source.len()
            && self.source[j + 1] == '#'))
            invariant
                from <= j <= self.source@.len(),
                scan_block_end(self.source@, j as int) == scan_block_end(self.source@, from as int),
            decreases self.source@.len() - j,
        {
            j = j + 1;
        }
        j
    }

    fn scan_word(&self, from: usize) -> (r: usize)
        requires
            from <= self.source@.len(),
        ensures
            r == scan_word(self.source@, from as int),
    {
        let mut j = from;
        while j < self.source.len() && char_is_alphanumeric(self.source[j]) && !char_is_whitespace(
            self.source[j],
        )
            invariant
                from <= j <= self.source@.len(),
                scan_word(self.source@, j as int) == scan_word(self.source@, from as int),
            decreases self.source@.len() - j,
        {
            j = j + 1;
        }
        j
    }

    /// The end of the run of digits at `from`, its value, and whether that
    /// value exceeds `i64::MAX`.
    fn scan_int(&self, from: usize) -> (r: (usize, i64, bool))
        requires
            from <= self.source@.len(),
        ensures
            r.0 == scan_digits(self.source@, from as int),
            r.2 == (digits_value(self.source@.subrange(from as int, r.0 as int)) > i64::MAX),
            !r.2 ==> r.1 == digits_value(self.source@.subrange(from as int, r.0 as int)),
    {
        let ghost src = self.source@;
        let mut j = from;
        let mut value: i64 = 0;
        let mut overflow = false;
        assert(src.subrange(from as int, from as int) =~= Seq::<char>::empty());
        while j < self.source.len() && is_digit_char(self.source[j])
            invariant
                src == self.source@,
                from <= j <= src.len(),
                scan_digits(src, j as int) == scan_digits(src, from as int),
                digits_value(src.subrange(from as int, j as int)) >= 0,
                overflow == (digits_value(src.subrange(from as int, j as int)) > i64::MAX),
                !overflow ==> value == digits_value(src.subrange(from as int, j as int)),
            decreases src.len() - j,
        {
            let ch = self.source[j];
            let d: i64 = (ch as u32 - 48) as i64;
            proof {
                assert(src.subrange(from as int, j + 1).drop_last() =~= src.subrange(
                    from as int,
                    j as int,
                ));
                assert(digit_value(ch) == d);
            }
            if !overflow {
                if value < 922337203685477580 || (value == 922337203685477580 && d <= 7) {
                    value = value * 10 + d;
                } else {
                    overflow = true;
                }
            }
            j = j + 1;
        }
        (j, value, overflow)
    }

    pub fn tokenize(&mut self) -> (r: Result<Vec<Token>, LexerError>)
        requires
            old(self).source_view().len() <= isize::MAX,
        ensures
            final(self).source_view() == old(self).source_view(),
            tokens_result(r) == lex(old(self).source_view()),
    {
        let ghost src = self.source@;
        let mut result: Vec<Token> = Vec::new();
        self.c = 0;
        assert(tokens_view(result@) =~= Seq::<TokV>::empty());
        assert(prepend(Seq::empty(), lex(src)) == lex(src)) by {
            match lex(src) {
                Ok(rest) => assert(Seq::<TokV>::empty() + rest =~= rest),
                Err(e) => {},
            }
        }
        while self.c < self.source.len()
            invariant
                self.source@ == src,
                src == old(self).source@,
                src.len() <= isize::MAX,
                self.c <= src.len() + 2,
                lex(src) == prepend(tokens_view(result@), lex_from(src, self.c as nat)),
            decreases src.len() + 3 - self.c,
        {
            let start = self.c;
            proof {
                lemma_scans_advance(src, start as int, '"');
                lemma_scans_advance(src, start + 1, '"');
                lemma_scans_advance(src, start + 1, '\n');
            }
            let ghost before = tokens_view(result@);
            match self.punct() {
                Some((kind, width)) => {
                    let region = Region {
                        start: self.current_location(),
                        end: Location::from_index(&self.source, start + width - 1),
                    };
                    let token = Token::new(region, TokenValue::from_kind(kind));
                    result.push(token);
                    proof {
                        assert(tokens_view(result@) =~= before.push(token_view(token)));
                        lemma_prepend_one(before, token_view(token), lex_from(src, (start + width) as nat));
                    }
                    self.c = start + width;
                    continue;
                },
                None => {},
            }
            let ch = self.current();
            if char_is_whitespace(ch) {
                self.advance();
                continue;
            }
            if ch == '#' {
                if start + 1 < self.source.len() && self.source[start + 1] == '[' {
                    self.c = self.scan_block_end(start + 1) + 2;
                } else {
                    self.c = self.scan_to(start + 1, '\n') + 1;
                }
                continue;
            }
            if ch == '"' {
                let j = self.scan_to(start + 1, '"');
                let text = string_from_chars(&self.source, start + 1, j);
                let region = Region {
                    start: self.current_location(),
                    end: Location::from_index(&self.source, j + 1),
                };
                let token = Token::new(region, TokenValue::String(text));
                result.push(token);
                proof {
                    assert(tokens_view(result@) =~= before.push(token_view(token)));
                    lemma_prepend_one(before, token_view(token), lex_from(src, (j + 1) as nat));
                }
                self.c = j + 1;
                continue;
            }
            if is_digit_char(ch) {
                let (j, value, overflow) = self.scan_int(start);
                if overflow {
                    return Err(LexerError::IntegerTooLarge { location: self.current_location() });
                }
                let region = Region {
                    start: self.current_location(),
                    end: Location::from_index(&self.source, j),
                };
                let token = Token::new(region, TokenValue::Int(value));
                result.push(token);
                proof {
                    assert(tokens_view(result@) =~= before.push(token_view(token)));
                    lemma_prepend_one(before, token_view(token), lex_from(src, j as nat));
                }
                self.c = j;
                continue;
            }
            if char_is_alphanumeric(ch) && !char_is_whitespace(ch) {
                let j = self.scan_word(start);
                let region = Region {
                    start: self.current_location(),
                    end: Location::from_index(&self.source, j),
                };
                let value = match keyword_of(&self.source, start, j) {
                    Some(k) => TokenValue::from_kind(k),
                    None => TokenValue::Identifier(string_from_chars(&self.source, start, j)),
                };
                let token = Token::new(region, value);
                result.push(token);
                proof {
                    assert(tokens_view(result@) =~= before.push(token_view(token)));
                    lemma_prepend_one(before, token_view(token), lex_from(src, j as nat));
                }
                self.c = j;
                continue;
            }
            return Err(
                LexerError::UnexpectedCharacter { location: self.current_location(), char: ch },
            );
        }
        let eof = Location::from_index(&self.source, usize::MAX);
        let token = Token::new(Region { start: eof, end: eof }, TokenValue::EndOfFile);
        let ghost before = tokens_view(result@);
        result.push(token);
        proof {
            assert(tokens_view(result@) =~= before.push(token_view(token)));
            assert(before + seq![eof_token(src)] =~= before.push(token_view(token)));
        }
        Ok(result)
    }
}


/// No operator token is the end of the file.
pub proof fn lemma_operator_not_end(level: nat, k: TokenKind)
    ensures
        crate::parser::operator_at(level, k) is Some ==> k != TokenKind::EndOfFile,
{
}

} // verus!

verus! {

/// Tokenization, where it succeeds, ends with the end-of-file token.
pub proof fn lemma_lex_well_ended(src: Seq<char>, c: nat)
    ensures
        lex_from(src, c) matches Ok(ts) ==> ts.len() >= 1 && ts[ts.len() - 1].kind
            == TokenKind::EndOfFile,
    decreases src.len() + 3 - c,
{
    if c < src.len() {
        lemma_scans_advance(src, c as int, '"');
        lemma_scans_advance(src, c as int + 1, '"');
        lemma_scans_advance(src, c as int + 1, '\n');
        match lex_step(src, c as int) {
            Step::Skip(n) => lemma_lex_well_ended(src, n as nat),
            Step::Emit(t, n) => {
                lemma_lex_well_ended(src, n as nat);
                if let Ok(ts) = lex_from(src, n as nat) {
                    assert((seq![t] + ts)[(seq![t] + ts).len() - 1] == ts[ts.len() - 1]);
                }
            },
            Step::Fail(e) => {},
        }
    }
}

} // verus!
