//! Tokens and the byte-level tokenizer.
//!
//! `Token::parse` consumes one token from the remaining input, trying a
//! fixed priority-ordered list of match attempts; when none matches it
//! folds a maximal run of unrecognized bytes into a single `Unexpected`
//! token. Each attempt has a spec-level twin (`spec_parse_*`) that states
//! exactly which token is produced and how many bytes are consumed.

use vstd::prelude::*;

verus! {

/// One lexical token. `Int` carries the parsed value; `Str`, `Char` and
/// `Ident` carry no payload: their text is recovered from the span.
#[derive(Debug, Clone, Copy, PartialEq, Eq, Structural)]
pub enum Token {
    WhiteSpace,
    End,
    Ident,
    Char,
    Str,
    Int(i32),
    Bool(bool),
    AndOp,
    OrOp,
    RangeOp,
    NewLine,
    Symbol(u8),
    // Keywords
    Fun,
    If,
    Else,
    For,
    In,
    While,
    Var,
    Val,
    Return,
    Break,
    Unexpected,
}

/// The fixed punctuation set recognized as one-byte `Symbol` tokens.
pub open spec fn spec_is_symbol_byte(b: u8) -> bool {
    ||| b == 40 // (
    ||| b == 41 // )
    ||| b == 123 // {
    ||| b == 125 // }
    ||| b == 91 // [
    ||| b == 93 // ]
    ||| b == 44 // ,
    ||| b == 58 // :
    ||| b == 43 // +
    ||| b == 45 // -
    ||| b == 42 // *
    ||| b == 47 // /
    ||| b == 37 // %
    ||| b == 60 // <
    ||| b == 62 // >
    ||| b == 61 // =
    ||| b == 33 // !
}

pub open spec fn spec_is_digit(b: u8) -> bool {
    48 <= b <= 57
}

pub open spec fn spec_is_lower(b: u8) -> bool {
    97 <= b <= 122
}

pub open spec fn spec_is_upper(b: u8) -> bool {
    65 <= b <= 90
}

pub open spec fn spec_is_alpha(b: u8) -> bool {
    spec_is_lower(b) || spec_is_upper(b)
}

pub open spec fn spec_is_alnum(b: u8) -> bool {
    spec_is_alpha(b) || spec_is_digit(b)
}

pub open spec fn spec_is_hex_digit(b: u8) -> bool {
    spec_is_digit(b) || (97 <= b <= 102) || (65 <= b <= 70)
}

fn is_symbol_byte(b: u8) -> (r: bool)
    ensures
        r == spec_is_symbol_byte(b),
{
    b == 40 || b == 41 || b == 123 || b == 125 || b == 91 || b == 93 || b == 44
        || b == 58 || b == 43 || b == 45 || b == 42 || b == 47 || b == 37
        || b == 60 || b == 62 || b == 61 || b == 33
}

fn is_digit(b: u8) -> (r: bool)
    ensures
        r == spec_is_digit(b),
{
    48 <= b && b <= 57
}

fn is_alpha(b: u8) -> (r: bool)
    ensures
        r == spec_is_alpha(b),
{
    (97 <= b && b <= 122) || (65 <= b && b <= 90)
}

fn is_alnum(b: u8) -> (r: bool)
    ensures
        r == spec_is_alnum(b),
{
    is_alpha(b) || is_digit(b)
}

fn is_hex_digit(b: u8) -> (r: bool)
    ensures
        r == spec_is_hex_digit(b),
{
    is_digit(b) || (97 <= b && b <= 102) || (65 <= b && b <= 70)
}

/// A one-byte punctuation token.
pub open spec fn spec_parse_symbol(s: Seq<u8>, i: int) -> Option<(Token, int)> {
    if i < s.len() && spec_is_symbol_byte(s[i]) {
        Some((Token::Symbol(s[i]), i + 1))
    } else {
        None
    }
}

pub fn parse_symbol(s: &[u8], i: usize) -> (r: Option<(Token, usize)>)
    requires
        i <= s@.len(),
    ensures
        match r {
            Some((t, j)) => spec_parse_symbol(s@, i as int) == Some((t, j as int)) && i < j <= s@.len(),
            None => spec_parse_symbol(s@, i as int) is None,
        },
{
    if i < s.len() && is_symbol_byte(s[i]) {
        Some((Token::Symbol(s[i]), i + 1))
    } else {
        None
    }
}

/// The length of the maximal run of ASCII spaces starting at `i`.
pub open spec fn spec_space_run(s: Seq<u8>, i: int) -> int
    decreases s.len() - i,
{
    if 0 <= i < s.len() && s[i] == 32 {
        1 + spec_space_run(s, i + 1)
    } else {
        0
    }
}

/// A non-empty run of ASCII spaces, consumed and later skipped.
pub open spec fn spec_parse_white_space(s: Seq<u8>, i: int) -> Option<(Token, int)> {
    if spec_space_run(s, i) == 0 {
        None
    } else {
        Some((Token::WhiteSpace, i + spec_space_run(s, i)))
    }
}

pub fn parse_white_space(s: &[u8], i: usize) -> (r: Option<(Token, usize)>)
    requires
        i <= s@.len(),
    ensures
        match r {
            Some((t, j)) => spec_parse_white_space(s@, i as int) == Some((t, j as int)) && i < j
                <= s@.len(),
            None => spec_parse_white_space(s@, i as int) is None,
        },
{
    let mut j: usize = i;
    while j < s.len() && s[j] == 32
        invariant
            i <= j <= s@.len(),
            spec_space_run(s@, i as int) == (j - i) + spec_space_run(s@, j as int),
        decreases s@.len() - j,
    {
        j += 1;
    }
    if j == i {
        None
    } else {
        Some((Token::WhiteSpace, j))
    }
}

/// A line break: `\r\n`, or a single `\r` or `\n`.
pub open spec fn spec_parse_new_line(s: Seq<u8>, i: int) -> Option<(Token, int)> {
    if i < s.len() && i + 1 < s.len() && s[i] == 13 && s[i + 1] == 10 {
        Some((Token::NewLine, i + 2))
    } else if i < s.len() && (s[i] == 13 || s[i] == 10) {
        Some((Token::NewLine, i + 1))
    } else {
        None
    }
}

pub fn parse_new_line(s: &[u8], i: usize) -> (r: Option<(Token, usize)>)
    requires
        i <= s@.len(),
    ensures
        match r {
            Some((t, j)) => spec_parse_new_line(s@, i as int) == Some((t, j as int)) && i < j
                <= s@.len(),
            None => spec_parse_new_line(s@, i as int) is None,
        },
{
    if i < s.len() && i + 1 < s.len() && s[i] == 13 && s[i + 1] == 10 {
        Some((Token::NewLine, i + 2))
    } else if i < s.len() && (s[i] == 13 || s[i] == 10) {
        Some((Token::NewLine, i + 1))
    } else {
        None
    }
}

/// `&&` or `||`.
pub open spec fn spec_parse_bool_op(s: Seq<u8>, i: int) -> Option<(Token, int)> {
    if i < s.len() && i + 1 < s.len() && s[i] == 38 && s[i + 1] == 38 {
        Some((Token::AndOp, i + 2))
    } else if i < s.len() && i + 1 < s.len() && s[i] == 124 && s[i + 1] == 124 {
        Some((Token::OrOp, i + 2))
    } else {
        None
    }
}

pub fn parse_bool_op(s: &[u8], i: usize) -> (r: Option<(Token, usize)>)
    requires
        i <= s@.len(),
    ensures
        match r {
            Some((t, j)) => spec_parse_bool_op(s@, i as int) == Some((t, j as int)) && i < j
                <= s@.len(),
            None => spec_parse_bool_op(s@, i as int) is None,
        },
{
    if i < s.len() && i + 1 < s.len() && s[i] == 38 && s[i + 1] == 38 {
        Some((Token::AndOp, i + 2))
    } else if i < s.len() && i + 1 < s.len() && s[i] == 124 && s[i + 1] == 124 {
        Some((Token::OrOp, i + 2))
    } else {
        None
    }
}

/// `..`.
pub open spec fn spec_parse_range_op(s: Seq<u8>, i: int) -> Option<(Token, int)> {
    if i + 1 < s.len() && s[i] == 46 && s[i + 1] == 46 {
        Some((Token::RangeOp, i + 2))
    } else {
        None
    }
}

pub fn parse_range_op(s: &[u8], i: usize) -> (r: Option<(Token, usize)>)
    requires
        i <= s@.len(),
    ensures
        match r {
            Some((t, j)) => spec_parse_range_op(s@, i as int) == Some((t, j as int)) && i < j
                <= s@.len(),
            None => spec_parse_range_op(s@, i as int) is None,
        },
{
    if i < s.len() && i + 1 < s.len() && s[i] == 46 && s[i + 1] == 46 {
        Some((Token::RangeOp, i + 2))
    } else {
        None
    }
}

/// The length of the maximal run of ASCII letters starting at `i`.
pub open spec fn spec_alpha_run(s: Seq<u8>, i: int) -> int
    decreases s.len() - i,
{
    if 0 <= i < s.len() && spec_is_alpha(s[i]) {
        1 + spec_alpha_run(s, i + 1)
    } else {
        0
    }
}

/// The length of the maximal run of ASCII letters and digits starting at `i`.
pub open spec fn spec_alnum_run(s: Seq<u8>, i: int) -> int
    decreases s.len() - i,
{
    if 0 <= i < s.len() && spec_is_alnum(s[i]) {
        1 + spec_alnum_run(s, i + 1)
    } else {
        0
    }
}

/// The length of the maximal run of hex digits and `x` bytes starting at `i`:
/// the greedy scan used before integer parsing.
pub open spec fn spec_hexx_run(s: Seq<u8>, i: int) -> int
    decreases s.len() - i,
{
    if 0 <= i < s.len() && (spec_is_hex_digit(s[i]) || s[i] == 120) {
        1 + spec_hexx_run(s, i + 1)
    } else {
        0
    }
}

fn alpha_run(s: &[u8], i: usize) -> (j: usize)
    requires
        i <= s@.len(),
    ensures
        i <= j <= s@.len(),
        j - i == spec_alpha_run(s@, i as int),
{
    let mut j: usize = i;
    while j < s.len() && is_alpha(s[j])
        invariant
            i <= j <= s@.len(),
            spec_alpha_run(s@, i as int) == (j - i) + spec_alpha_run(s@, j as int),
        decreases s@.len() - j,
    {
        j += 1;
    }
    j
}

fn alnum_run(s: &[u8], i: usize) -> (j: usize)
    requires
        i <= s@.len(),
    ensures
        i <= j <= s@.len(),
        j - i == spec_alnum_run(s@, i as int),
{
    let mut j: usize = i;
    while j < s.len() && is_alnum(s[j])
        invariant
            i <= j <= s@.len(),
            spec_alnum_run(s@, i as int) == (j - i) + spec_alnum_run(s@, j as int),
        decreases s@.len() - j,
    {
        j += 1;
    }
    j
}

fn hexx_run(s: &[u8], i: usize) -> (j: usize)
    requires
        i <= s@.len(),
    ensures
        i <= j <= s@.len(),
        j - i == spec_hexx_run(s@, i as int),
{
    let mut j: usize = i;
    while j < s.len() && (is_hex_digit(s[j]) || s[j] == 120)
        invariant
            i <= j <= s@.len(),
            spec_hexx_run(s@, i as int) == (j - i) + spec_hexx_run(s@, j as int),
        decreases s@.len() - j,
    {
        j += 1;
    }
    j
}

/// Which keyword the letter run `[i, i + n)` spells, if any.
pub open spec fn spec_keyword_at(s: Seq<u8>, i: int, n: int) -> Option<Token> {
    if n == 3 && s[i] == 102 && s[i + 1] == 117 && s[i + 2] == 110 {
        Some(Token::Fun)  // fun
    } else if n == 2 && s[i] == 105 && s[i + 1] == 102 {
        Some(Token::If)  // if
    } else if n == 4 && s[i] == 101 && s[i + 1] == 108 && s[i + 2] == 115 && s[i + 3] == 101 {
        Some(Token::Else)  // else
    } else if n == 3 && s[i] == 102 && s[i + 1] == 111 && s[i + 2] == 114 {
        Some(Token::For)  // for
    } else if n == 2 && s[i] == 105 && s[i + 1] == 110 {
        Some(Token::In)  // in
    } else if n == 5 && s[i] == 119 && s[i + 1] == 104 && s[i + 2] == 105 && s[i + 3] == 108
        && s[i + 4] == 101 {
        Some(Token::While)  // while
    } else if n == 3 && s[i] == 118 && s[i + 1] == 97 && s[i + 2] == 114 {
        Some(Token::Var)  // var
    } else if n == 3 && s[i] == 118 && s[i + 1] == 97 && s[i + 2] == 108 {
        Some(Token::Val)  // val
    } else if n == 6 && s[i] == 114 && s[i + 1] == 101 && s[i + 2] == 116 && s[i + 3] == 117
        && s[i + 4] == 114 && s[i + 5] == 110 {
        Some(Token::Return)  // return
    } else if n == 5 && s[i] == 98 && s[i + 1] == 114 && s[i + 2] == 101 && s[i + 3] == 97
        && s[i + 4] == 107 {
        Some(Token::Break)  // break
    } else {
        None
    }
}

/// A keyword: the maximal letter run, when it spells one.
pub open spec fn spec_parse_kw(s: Seq<u8>, i: int) -> Option<(Token, int)> {
    let n = spec_alpha_run(s, i);
    match spec_keyword_at(s, i, n) {
        Some(t) => Some((t, i + n)),
        None => None,
    }
}

pub fn parse_kw(s: &[u8], i: usize) -> (r: Option<(Token, usize)>)
    requires
        i <= s@.len(),
    ensures
        match r {
            Some((t, j)) => spec_parse_kw(s@, i as int) == Some((t, j as int)) && i < j <= s@.len(),
            None => spec_parse_kw(s@, i as int) is None,
        },
{
    let j = alpha_run(s, i);
    let n = j - i;
    let t = if n == 3 && s[i] == 102 && s[i + 1] == 117 && s[i + 2] == 110 {
        Token::Fun
    } else if n == 2 && s[i] == 105 && s[i + 1] == 102 {
        Token::If
    } else if n == 4 && s[i] == 101 && s[i + 1] == 108 && s[i + 2] == 115 && s[i + 3] == 101 {
        Token::Else
    } else if n == 3 && s[i] == 102 && s[i + 1] == 111 && s[i + 2] == 114 {
        Token::For
    } else if n == 2 && s[i] == 105 && s[i + 1] == 110 {
        Token::In
    } else if n == 5 && s[i] == 119 && s[i + 1] == 104 && s[i + 2] == 105 && s[i + 3] == 108
        && s[i + 4] == 101 {
        Token::While
    } else if n == 3 && s[i] == 118 && s[i + 1] == 97 && s[i + 2] == 114 {
        Token::Var
    } else if n == 3 && s[i] == 118 && s[i + 1] == 97 && s[i + 2] == 108 {
        Token::Val
    } else if n == 6 && s[i] == 114 && s[i + 1] == 101 && s[i + 2] == 116 && s[i + 3] == 117
        && s[i + 4] == 114 && s[i + 5] == 110 {
        Token::Return
    } else if n == 5 && s[i] == 98 && s[i + 1] == 114 && s[i + 2] == 101 && s[i + 3] == 97
        && s[i + 4] == 107 {
        Token::Break
    } else {
        return None;
    };
    Some((t, j))
}

/// An identifier: a maximal alphanumeric run that does not start with a digit.
pub open spec fn spec_parse_ident(s: Seq<u8>, i: int) -> Option<(Token, int)> {
    let n = spec_alnum_run(s, i);
    if n == 0 {
        None
    } else if spec_is_digit(s[i]) {
        None
    } else {
        Some((Token::Ident, i + n))
    }
}

pub fn parse_ident(s: &[u8], i: usize) -> (r: Option<(Token, usize)>)
    requires
        i <= s@.len(),
    ensures
        match r {
            Some((t, j)) => spec_parse_ident(s@, i as int) == Some((t, j as int)) && i < j
                <= s@.len(),
            None => spec_parse_ident(s@, i as int) is None,
        },
{
    let j = alnum_run(s, i);
    if j == i {
        None
    } else if is_digit(s[i]) {
        None
    } else {
        Some((Token::Ident, j))
    }
}

/// A boolean literal: the prefix `true` or `false`, with no boundary check.
pub open spec fn spec_parse_bool(s: Seq<u8>, i: int) -> Option<(Token, int)> {
    if i + 4 <= s.len() && s[i] == 116 && s[i + 1] == 114 && s[i + 2] == 117 && s[i + 3] == 101 {
        Some((Token::Bool(true), i + 4))  // true
    } else if i + 5 <= s.len() && s[i] == 102 && s[i + 1] == 97 && s[i + 2] == 108 && s[i + 3]
        == 115 && s[i + 4] == 101 {
        Some((Token::Bool(false), i + 5))  // false
    } else {
        None
    }
}

pub fn parse_bool(s: &[u8], i: usize) -> (r: Option<(Token, usize)>)
    requires
        i <= s@.len(),
    ensures
        match r {
            Some((t, j)) => spec_parse_bool(s@, i as int) == Some((t, j as int)) && i < j
                <= s@.len(),
            None => spec_parse_bool(s@, i as int) is None,
        },
{
    if s.len() - i >= 4 && s[i] == 116 && s[i + 1] == 114 && s[i + 2] == 117 && s[i + 3] == 101 {
        Some((Token::Bool(true), i + 4))
    } else if s.len() - i >= 5 && s[i] == 102 && s[i + 1] == 97 && s[i + 2] == 108 && s[i + 3]
        == 115 && s[i + 4] == 101 {
        Some((Token::Bool(false), i + 5))
    } else {
        None
    }
}

/// The first position `k >= i` where bytes `a, b` stand adjacent.
pub open spec fn spec_find2(s: Seq<u8>, i: int, a: u8, b: u8) -> Option<int>
    decreases s.len() - i,
{
    if i + 1 >= s.len() {
        None
    } else if s[i] == a && s[i + 1] == b {
        Some(i)
    } else {
        spec_find2(s, i + 1, a, b)
    }
}

/// The first position `k >= i` holding byte `a`.
pub open spec fn spec_find1(s: Seq<u8>, i: int, a: u8) -> Option<int>
    decreases s.len() - i,
{
    if i >= s.len() {
        None
    } else if s[i] == a {
        Some(i)
    } else {
        spec_find1(s, i + 1, a)
    }
}

fn find2(s: &[u8], i: usize, a: u8, b: u8) -> (r: Option<usize>)
    requires
        i <= s@.len(),
    ensures
        match r {
            Some(k) => spec_find2(s@, i as int, a, b) == Some(k as int) && i <= k && k + 1
                < s@.len(),
            None => spec_find2(s@, i as int, a, b) is None,
        },
    decreases s@.len() - i,
{
    if i >= s.len() || i + 1 >= s.len() {
        None
    } else if s[i] == a && s[i + 1] == b {
        Some(i)
    } else {
        find2(s, i + 1, a, b)
    }
}

fn find1(s: &[u8], i: usize, a: u8) -> (r: Option<usize>)
    requires
        i <= s@.len(),
    ensures
        match r {
            Some(k) => spec_find1(s@, i as int, a) == Some(k as int) && i <= k && k < s@.len(),
            None => spec_find1(s@, i as int, a) is None,
        },
    decreases s@.len() - i,
{
    if i >= s.len() {
        None
    } else if s[i] == a {
        Some(i)
    } else {
        find1(s, i + 1, a)
    }
}

/// A comment. A block comment up to the matching `*/` becomes white space;
/// an unterminated one swallows the rest as `Unexpected`. A line comment
/// becomes a `NewLine` token (line ends are structurally significant), or
/// `End` when no line break follows.
pub open spec fn spec_parse_comment(s: Seq<u8>, i: int) -> Option<(Token, int)> {
    if i + 2 <= s.len() && s[i] == 47 && s[i + 1] == 42 {
        // the search may overlap the opening `/*`, as in `/*/`
        match spec_find2(s, i, 42, 47) {
            Some(k) => Some((Token::WhiteSpace, k + 2)),
            None => Some((Token::Unexpected, s.len() as int)),
        }
    } else if i + 2 <= s.len() && s[i] == 47 && s[i + 1] == 47 {
        // a lone `\r` ends the line only when no `\n` follows anywhere
        match spec_find1(s, i, 10) {
            Some(k) => Some((Token::NewLine, k + 1)),
            None => match spec_find1(s, i, 13) {
                Some(k) => Some((Token::NewLine, k + 1)),
                None => Some((Token::End, s.len() as int)),
            },
        }
    } else {
        None
    }
}

pub fn parse_comment(s: &[u8], i: usize) -> (r: Option<(Token, usize)>)
    requires
        i <= s@.len(),
    ensures
        match r {
            Some((t, j)) => spec_parse_comment(s@, i as int) == Some((t, j as int)) && i <= j
                <= s@.len() && (t != Token::End ==> i < j),
            None => spec_parse_comment(s@, i as int) is None,
        },
{
    if s.len() - i >= 2 && s[i] == 47 && s[i + 1] == 42 {
        match find2(s, i, 42, 47) {
            Some(k) => Some((Token::WhiteSpace, k + 2)),
            None => Some((Token::Unexpected, s.len())),
        }
    } else if s.len() - i >= 2 && s[i] == 47 && s[i + 1] == 47 {
        match find1(s, i, 10) {
            Some(k) => Some((Token::NewLine, k + 1)),
            None => match find1(s, i, 13) {
                Some(k) => Some((Token::NewLine, k + 1)),
                None => Some((Token::End, s.len())),
            },
        }
    } else {
        None
    }
}

/// Escapes accepted inside a character literal: `t b n r ' \`.
pub open spec fn spec_is_char_escape(b: u8) -> bool {
    b == 116 || b == 98 || b == 110 || b == 114 || b == 39 || b == 92
}

/// Escapes accepted inside a string literal: `t b n r " \ $`.
pub open spec fn spec_is_str_escape(b: u8) -> bool {
    b == 116 || b == 98 || b == 110 || b == 114 || b == 34 || b == 92 || b == 36
}

fn is_char_escape(b: u8) -> (r: bool)
    ensures
        r == spec_is_char_escape(b),
{
    b == 116 || b == 98 || b == 110 || b == 114 || b == 39 || b == 92
}

fn is_str_escape(b: u8) -> (r: bool)
    ensures
        r == spec_is_str_escape(b),
{
    b == 116 || b == 98 || b == 110 || b == 114 || b == 34 || b == 92 || b == 36
}

/// Walks a character literal from `j` (just past the opening quote).
/// `None` marks a bad escape; otherwise the flag tells whether the closing
/// quote was found and the position is one past the last byte scanned.
/// Bytes outside ASCII are carried along without ending the literal.
pub open spec fn spec_char_scan(s: Seq<u8>, j: int, esc: bool) -> Option<(bool, int)>
    decreases s.len() - j,
{
    if j < 0 || j >= s.len() {
        Some((false, if j < 0 { 0 } else { j }))
    } else {
        let c = s[j];
        if c < 128 {
            if esc {
                if spec_is_char_escape(c) {
                    spec_char_scan(s, j + 1, false)
                } else {
                    None
                }
            } else if c == 92 {
                spec_char_scan(s, j + 1, true)
            } else if c == 39 {
                Some((true, j + 1))
            } else {
                spec_char_scan(s, j + 1, false)
            }
        } else {
            spec_char_scan(s, j + 1, esc)
        }
    }
}

fn char_scan(s: &[u8], j: usize, esc: bool) -> (r: Option<(bool, usize)>)
    requires
        j <= s@.len(),
    ensures
        match r {
            Some((closed, e)) => spec_char_scan(s@, j as int, esc) == Some((closed, e as int))
                && j <= e <= s@.len() && (closed ==> j < e),
            None => spec_char_scan(s@, j as int, esc) is None,
        },
    decreases s@.len() - j,
{
    if j >= s.len() {
        Some((false, j))
    } else {
        let c = s[j];
        if c < 128 {
            if esc {
                if is_char_escape(c) {
                    char_scan(s, j + 1, false)
                } else {
                    None
                }
            } else if c == 92 {
                char_scan(s, j + 1, true)
            } else if c == 39 {
                Some((true, j + 1))
            } else {
                char_scan(s, j + 1, false)
            }
        } else {
            char_scan(s, j + 1, esc)
        }
    }
}

/// A character literal. A bad escape is no match at all (the bytes then
/// fold into an `Unexpected` run); a literal whose closing quote is never
/// found is `Unexpected` for the remainder of the input.
pub open spec fn spec_parse_char(s: Seq<u8>, i: int) -> Option<(Token, int)> {
    if i < s.len() && s[i] == 39 {
        match spec_char_scan(s, i + 1, false) {
            Some((closed, e)) => if closed {
                Some((Token::Char, e))
            } else {
                Some((Token::Unexpected, s.len() as int))
            },
            None => None,
        }
    } else {
        None
    }
}

pub fn parse_char(s: &[u8], i: usize) -> (r: Option<(Token, usize)>)
    requires
        i <= s@.len(),
    ensures
        match r {
            Some((t, j)) => spec_parse_char(s@, i as int) == Some((t, j as int)) && i < j
                <= s@.len(),
            None => spec_parse_char(s@, i as int) is None,
        },
{
    if i < s.len() && s[i] == 39 {
        match char_scan(s, i + 1, false) {
            Some((closed, e)) => if closed {
                Some((Token::Char, e))
            } else {
                Some((Token::Unexpected, s.len()))
            },
            None => None,
        }
    } else {
        None
    }
}

/// What a walk over a string literal's bytes found.
pub struct StrScan {
    /// One past the last byte scanned.
    pub end: int,
    /// Whether an unescaped closing quote was reached.
    pub closed: bool,
    /// Whether some escape was not a recognized one.
    pub fail: bool,
    /// Whether every byte scanned was ASCII.
    pub ascii: bool,
}

/// Walks a string literal from `j` (just past the opening quote).
pub open spec fn spec_str_scan(s: Seq<u8>, j: int, esc: bool) -> StrScan
    decreases s.len() - j,
{
    if j < 0 || j >= s.len() {
        StrScan { end: if j < 0 { 0 } else { j }, closed: false, fail: false, ascii: true }
    } else {
        let c = s[j];
        if c < 128 {
            if esc {
                let r = spec_str_scan(s, j + 1, false);
                StrScan { end: r.end, closed: r.closed, fail: r.fail || !spec_is_str_escape(c), ascii: r.ascii }
            } else if c == 92 {
                spec_str_scan(s, j + 1, true)
            } else if c == 34 {
                StrScan { end: j + 1, closed: true, fail: false, ascii: true }
            } else {
                spec_str_scan(s, j + 1, false)
            }
        } else {
            let r = spec_str_scan(s, j + 1, esc);
            StrScan { end: r.end, closed: r.closed, fail: r.fail, ascii: false }
        }
    }
}

fn str_scan(s: &[u8], j: usize, esc: bool) -> (r: (usize, bool, bool, bool))
    requires
        j <= s@.len(),
    ensures
        ({
            let m = spec_str_scan(s@, j as int, esc);
            m.end == r.0 as int && m.closed == r.1 && m.fail == r.2 && m.ascii == r.3 && j <= r.0
                <= s@.len()
        }),
    decreases s@.len() - j,
{
    if j >= s.len() {
        (j, false, false, true)
    } else {
        let c = s[j];
        if c < 128 {
            if esc {
                let r = str_scan(s, j + 1, false);
                (r.0, r.1, r.2 || !is_str_escape(c), r.3)
            } else if c == 92 {
                str_scan(s, j + 1, true)
            } else if c == 34 {
                (j + 1, true, false, true)
            } else {
                str_scan(s, j + 1, false)
            }
        } else {
            let r = str_scan(s, j + 1, esc);
            (r.0, r.1, r.2, false)
        }
    }
}

/// A string literal. A bad escape yields `Unexpected` for the whole
/// literal; an unterminated literal is `Unexpected` for the remainder; a
/// literal holding a byte outside ASCII is `Unexpected` as well.
pub open spec fn spec_parse_str(s: Seq<u8>, i: int) -> Option<(Token, int)> {
    if i < s.len() && s[i] == 34 {
        let m = spec_str_scan(s, i + 1, false);
        if !m.fail && m.closed && m.ascii {
            Some((Token::Str, m.end))
        } else {
            Some((Token::Unexpected, m.end))
        }
    } else {
        None
    }
}

pub fn parse_str(s: &[u8], i: usize) -> (r: Option<(Token, usize)>)
    requires
        i <= s@.len(),
    ensures
        match r {
            Some((t, j)) => spec_parse_str(s@, i as int) == Some((t, j as int)) && i < j
                <= s@.len(),
            None => spec_parse_str(s@, i as int) is None,
        },
{
    if i < s.len() && s[i] == 34 {
        let (end, closed, fail, ascii) = str_scan(s, i + 1, false);
        if !fail && closed && ascii {
            Some((Token::Str, end))
        } else {
            Some((Token::Unexpected, end))
        }
    } else {
        None
    }
}

/// The numeric value of one ASCII digit in any radix up to 16; bytes that
/// are no such digit get the out-of-range value 99.
pub open spec fn spec_digit_val(b: u8) -> int {
    if 48 <= b <= 57 {
        b - 48
    } else if 97 <= b <= 102 {
        b - 87
    } else if 65 <= b <= 70 {
        b - 55
    } else {
        99
    }
}

/// The value of a digit string read most-significant first.
pub open spec fn spec_digits_val(w: Seq<u8>, radix: int) -> int
    decreases w.len(),
{
    if w.len() == 0 {
        0
    } else {
        spec_digits_val(w.drop_last(), radix) * radix + spec_digit_val(w.last())
    }
}

pub open spec fn spec_digits_valid(w: Seq<u8>, radix: int) -> bool {
    forall|k: int| 0 <= k < w.len() ==> spec_digit_val(w[k]) < radix
}

/// What `i32` value a digit string denotes: every byte must be a digit of
/// the radix, the string must be non-empty, and the value must fit.
pub open spec fn spec_radix_val(w: Seq<u8>, radix: int) -> Option<i32> {
    if w.len() == 0 || !spec_digits_valid(w, radix) {
        None
    } else if spec_digits_val(w, radix) > i32::MAX {
        None
    } else {
        Some(spec_digits_val(w, radix) as i32)
    }
}

fn digit_val(b: u8) -> (d: u8)
    ensures
        d as int == spec_digit_val(b),
{
    if 48 <= b && b <= 57 {
        b - 48
    } else if 97 <= b && b <= 102 {
        b - 87
    } else if 65 <= b && b <= 70 {
        b - 55
    } else {
        99
    }
}

pub proof fn lemma_digits_val_nonneg(w: Seq<u8>, radix: int)
    requires
        radix >= 0,
    ensures
        spec_digits_val(w, radix) >= 0,
    decreases w.len(),
{
    if w.len() > 0 {
        lemma_digits_val_nonneg(w.drop_last(), radix);
        assert(spec_digit_val(w.last()) >= 0);
        assert(spec_digits_val(w.drop_last(), radix) * radix >= 0) by (nonlinear_arith)
            requires
                spec_digits_val(w.drop_last(), radix) >= 0,
                radix >= 0,
        ;
    }
}

/// An integer literal. The greedy scan takes the maximal run of hex digits
/// and `x` bytes; `0x` and `0b` prefixes choose the radix, else decimal. A
/// run that denotes no `i32` value, or one followed directly by more
/// alphanumeric bytes, is `Unexpected`.
pub open spec fn spec_parse_int(s: Seq<u8>, i: int) -> Option<(Token, int)> {
    let n = spec_hexx_run(s, i);
    if n == 0 {
        None
    } else {
        let after = i + n;
        let m = spec_alnum_run(s, after);
        let v = if n >= 2 && s[i] == 48 && s[i + 1] == 120 {
            spec_radix_val(s.subrange(i + 2, after), 16)
        } else if n >= 2 && s[i] == 48 && s[i + 1] == 98 {
            spec_radix_val(s.subrange(i + 2, after), 2)
        } else {
            spec_radix_val(s.subrange(i, after), 10)
        };
        let tok = match v {
            Some(x) => Token::Int(x),
            None => Token::Unexpected,
        };
        if m == 0 {
            Some((tok, after))
        } else {
            Some((Token::Unexpected, after + m))
        }
    }
}

pub fn parse_int(s: &[u8], i: usize) -> (r: Option<(Token, usize)>)
    requires
        i <= s@.len(),
    ensures
        match r {
            Some((t, j)) => spec_parse_int(s@, i as int) == Some((t, j as int)) && i < j
                <= s@.len(),
            None => spec_parse_int(s@, i as int) is None,
        },
{
    let after = hexx_run(s, i);
    if after == i {
        return None;
    }
    let m_end = alnum_run(s, after);

    let (dlo, radix): (usize, u64) = if after - i >= 2 && s[i] == 48 && s[i + 1] == 120 {
        (i + 2, 16)
    } else if after - i >= 2 && s[i] == 48 && s[i + 1] == 98 {
        (i + 2, 2)
    } else {
        (i, 10)
    };
    let ghost w = s@.subrange(dlo as int, after as int);

    let mut acc: u64 = 0;
    let mut overflow = false;
    let mut valid = true;
    let mut k: usize = dlo;
    while k < after
        invariant
            dlo <= k <= after <= s@.len(),
            radix == 16 || radix == 10 || radix == 2,
            w == s@.subrange(dlo as int, after as int),
            valid == spec_digits_valid(w.subrange(0, k - dlo), radix as int),
            valid ==> (overflow <==> spec_digits_val(w.subrange(0, k - dlo), radix as int)
                > i32::MAX),
            valid && !overflow ==> acc == spec_digits_val(w.subrange(0, k - dlo), radix as int)
                && acc <= i32::MAX as u64,
        decreases after - k,
    {
        let ghost pre = w.subrange(0, k - dlo);
        let ghost post = w.subrange(0, k + 1 - dlo);
        proof {
            assert(post.drop_last() =~= pre);
            assert(post.last() == w[k - dlo]);
            assert(w[k - dlo] == s@[k as int]);
        }
        let d = digit_val(s[k]);
        if (d as u64) >= radix {
            valid = false;
            proof {
                assert(spec_digit_val(post[k - dlo]) >= radix);
            }
        } else if valid {
            if !overflow {
                let next = acc * radix + (d as u64);
                if next > 0x7fffffff {
                    overflow = true;
                } else {
                    acc = next;
                }
            } else {
                proof {
                    lemma_digits_val_nonneg(pre, radix as int);
                    assert(spec_digits_val(pre, radix as int) * (radix as int) + spec_digit_val(
                        w[k - dlo],
                    ) > i32::MAX) by (nonlinear_arith)
                        requires
                            spec_digits_val(pre, radix as int) > i32::MAX,
                            radix >= 2,
                            spec_digit_val(w[k - dlo]) >= 0,
                    ;
                }
            }
        }
        k += 1;
    }
    proof {
        assert(w.subrange(0, after - dlo) =~= w);
    }

    let tok = if dlo < after && valid && !overflow {
        Token::Int(acc as i32)
    } else {
        Token::Unexpected
    };
    if m_end == after {
        Some((tok, after))
    } else {
        Some((Token::Unexpected, m_end))
    }
}

/// One token, by the fixed priority order of match attempts. When nothing
/// matches, a maximal contiguous run of such positions folds into a single
/// `Unexpected` token. Exhausted input is the `End` pseudo-token.
pub open spec fn spec_token_parse(s: Seq<u8>, i: int) -> (Token, int)
    decreases s.len() - i, 0int,
{
    if i >= s.len() {
        (Token::End, i)
    } else {
        match spec_parse_comment(s, i) {
            Some(r) => r,
            None => match spec_parse_symbol(s, i) {
                Some(r) => r,
                None => match spec_parse_kw(s, i) {
                    Some(r) => r,
                    None => match spec_parse_bool(s, i) {
                        Some(r) => r,
                        None => match spec_parse_char(s, i) {
                            Some(r) => r,
                            None => match spec_parse_ident(s, i) {
                                Some(r) => r,
                                None => match spec_parse_int(s, i) {
                                    Some(r) => r,
                                    None => match spec_parse_new_line(s, i) {
                                        Some(r) => r,
                                        None => match spec_parse_bool_op(s, i) {
                                            Some(r) => r,
                                            None => match spec_parse_range_op(s, i) {
                                                Some(r) => r,
                                                None => match spec_parse_str(s, i) {
                                                    Some(r) => r,
                                                    None => match spec_parse_white_space(s, i) {
                                                        Some(r) => r,
                                                        None => (
                                                            Token::Unexpected,
                                                            spec_unexpected_end(s, i + 1),
                                                        ),
                                                    },
                                                },
                                            },
                                        },
                                    },
                                },
                            },
                        },
                    },
                },
            },
        }
    }
}

/// The end of a run of positions at which token parsing keeps yielding
/// `Unexpected`: consecutive bad bytes collapse into one token.
pub open spec fn spec_unexpected_end(s: Seq<u8>, k: int) -> int
    decreases s.len() - k, 1int,
{
    if k >= s.len() {
        k
    } else if spec_token_parse(s, k).0 == Token::Unexpected {
        spec_unexpected_end(s, k + 1)
    } else {
        k
    }
}

impl Token {
    /// Consumes one token starting at `i`, returning it with the position
    /// one past its final byte.
    pub fn parse(s: &[u8], i: usize) -> (r: (Token, usize))
        requires
            i <= s@.len(),
        ensures
            spec_token_parse(s@, i as int) == (r.0, r.1 as int),
            i <= r.1 <= s@.len(),
            r.0 != Token::End ==> i < r.1,
        decreases s@.len() - i, 0int,
    {
        if i >= s.len() {
            return (Token::End, i);
        }
        if let Some(r) = parse_comment(s, i) {
            return r;
        }
        if let Some(r) = parse_symbol(s, i) {
            return r;
        }
        if let Some(r) = parse_kw(s, i) {
            return r;
        }
        if let Some(r) = parse_bool(s, i) {
            return r;
        }
        if let Some(r) = parse_char(s, i) {
            return r;
        }
        if let Some(r) = parse_ident(s, i) {
            return r;
        }
        if let Some(r) = parse_int(s, i) {
            return r;
        }
        if let Some(r) = parse_new_line(s, i) {
            return r;
        }
        if let Some(r) = parse_bool_op(s, i) {
            return r;
        }
        if let Some(r) = parse_range_op(s, i) {
            return r;
        }
        if let Some(r) = parse_str(s, i) {
            return r;
        }
        if let Some(r) = parse_white_space(s, i) {
            return r;
        }

        let mut n: usize = i + 1;
        let mut done = false;
        while !done && n < s.len()
            invariant
                i + 1 <= n <= s@.len(),
                spec_unexpected_end(s@, i + 1) == spec_unexpected_end(s@, n as int),
                done ==> spec_token_parse(s@, n as int).0 != Token::Unexpected,
            decreases s@.len() - n, if done { 0int } else { 1int },
        {
            let (t, _) = Self::parse(s, n);
            if t == Token::Unexpected {
                n += 1;
            } else {
                done = true;
            }
        }
        (Token::Unexpected, n)
    }
}

} // verus!
