//! Tokens of the expression language (inside `{{ }}` and after `@if`,
//! `@for`, ...), and the scanner that reads one token.
//!
//! Each token is the longest match at its position: a float literal is
//! `digits.digits` with an optional exponent, an integer literal is a
//! run of digits that fits in an `i64`, strings are quoted with `"` or
//! `'` (a backslash escapes the next character, which may not be a line
//! feed), identifiers are `[a-zA-Z_$][a-zA-Z0-9_$]*` unless they spell a
//! keyword, and operators take their longest spelling (`<=` over `<`).

use vstd::prelude::*;

use crate::text::{string_of, unescape_chars, unescaped};

verus! {

/// An expression-mode token.
#[derive(Debug, Clone, PartialEq)]
pub enum Token {
    /// A float literal, kept as its source text.
    Float(String),
    Int(i64),
    String(String),
    True,
    False,
    Null,
    Of,
    Track,
    Ident(String),
    Plus,
    Minus,
    Star,
    Slash,
    Percent,
    EqEq,
    BangEq,
    Lt,
    Le,
    Gt,
    Ge,
    AmpAmp,
    PipePipe,
    Bang,
    FatArrow,
    LParen,
    RParen,
    LBracket,
    RBracket,
    LBrace,
    RBrace,
    Dot,
    Comma,
    Pipe,
    Colon,
    Semi,
}

/// The model of a `Token`.
pub enum Tok {
    Float(Seq<char>),
    Int(i64),
    Str(Seq<char>),
    True,
    False,
    Null,
    Of,
    Track,
    Ident(Seq<char>),
    Plus,
    Minus,
    Star,
    Slash,
    Percent,
    EqEq,
    BangEq,
    Lt,
    Le,
    Gt,
    Ge,
    AmpAmp,
    PipePipe,
    Bang,
    FatArrow,
    LParen,
    RParen,
    LBracket,
    RBracket,
    LBrace,
    RBrace,
    Dot,
    Comma,
    Pipe,
    Colon,
    Semi,
}

impl View for Token {
    type V = Tok;

    open spec fn view(&self) -> Tok {
        match self {
            Token::Float(s) => Tok::Float(s@),
            Token::Int(i) => Tok::Int(*i),
            Token::String(s) => Tok::Str(s@),
            Token::True => Tok::True,
            Token::False => Tok::False,
            Token::Null => Tok::Null,
            Token::Of => Tok::Of,
            Token::Track => Tok::Track,
            Token::Ident(s) => Tok::Ident(s@),
            Token::Plus => Tok::Plus,
            Token::Minus => Tok::Minus,
            Token::Star => Tok::Star,
            Token::Slash => Tok::Slash,
            Token::Percent => Tok::Percent,
            Token::EqEq => Tok::EqEq,
            Token::BangEq => Tok::BangEq,
            Token::Lt => Tok::Lt,
            Token::Le => Tok::Le,
            Token::Gt => Tok::Gt,
            Token::Ge => Tok::Ge,
            Token::AmpAmp => Tok::AmpAmp,
            Token::PipePipe => Tok::PipePipe,
            Token::Bang => Tok::Bang,
            Token::FatArrow => Tok::FatArrow,
            Token::LParen => Tok::LParen,
            Token::RParen => Tok::RParen,
            Token::LBracket => Tok::LBracket,
            Token::RBracket => Tok::RBracket,
            Token::LBrace => Tok::LBrace,
            Token::RBrace => Tok::RBrace,
            Token::Dot => Tok::Dot,
            Token::Comma => Tok::Comma,
            Token::Pipe => Tok::Pipe,
            Token::Colon => Tok::Colon,
            Token::Semi => Tok::Semi,
        }
    }
}

pub open spec fn is_digit(c: char) -> bool {
    '0' <= c && c <= '9'
}

pub open spec fn is_ident_start(c: char) -> bool {
    ('a' <= c && c <= 'z') || ('A' <= c && c <= 'Z') || c == '_' || c == '$'
}

pub open spec fn is_ident_char(c: char) -> bool {
    is_ident_start(c) || is_digit(c)
}

/// The end of the run of digits that starts at `i`.
pub open spec fn digits_end(s: Seq<char>, i: int) -> int
    decreases s.len() - i,
{
    if 0 <= i < s.len() && is_digit(s[i]) {
        digits_end(s, i + 1)
    } else {
        i
    }
}

/// The end of the run of identifier characters that starts at `i`.
pub open spec fn ident_end(s: Seq<char>, i: int) -> int
    decreases s.len() - i,
{
    if 0 <= i < s.len() && is_ident_char(s[i]) {
        ident_end(s, i + 1)
    } else {
        i
    }
}

/// The number that a run of decimal digits spells.
pub open spec fn digits_value(d: Seq<char>) -> nat
    decreases d.len(),
{
    if d.len() == 0 {
        0
    } else {
        digits_value(d.drop_last()) * 10 + (d.last() as u32 - 48) as nat
    }
}

/// Where a float literal whose integer digits end at `j` ends, if a
/// fraction follows: `.digits`, then optionally `e`/`E`, an optional
/// sign, and digits.
pub open spec fn float_end(s: Seq<char>, j: int) -> Option<int> {
    if j + 1 < s.len() && s[j] == '.' && is_digit(s[j + 1]) {
        let k = digits_end(s, j + 1);
        if k < s.len() && (s[k] == 'e' || s[k] == 'E') {
            let m = if k + 1 < s.len() && (s[k + 1] == '+' || s[k + 1] == '-') {
                k + 2
            } else {
                k + 1
            };
            if m < s.len() && is_digit(s[m]) {
                Some(digits_end(s, m))
            } else {
                Some(k)
            }
        } else {
            Some(k)
        }
    } else {
        None
    }
}

/// The index of the quote `q` that closes a string literal whose body
/// starts at `i`, if the literal is closed. A backslash takes the next
/// character with it, which may not be a line feed.
pub open spec fn quote_end(s: Seq<char>, i: int, q: char) -> Option<int>
    decreases s.len() - i,
{
    if i < 0 || i >= s.len() {
        None
    } else if s[i] == q {
        Some(i)
    } else if s[i] == '\\' {
        if i + 1 < s.len() && s[i + 1] != '\n' {
            quote_end(s, i + 2, q)
        } else {
            None
        }
    } else {
        quote_end(s, i + 1, q)
    }
}

/// The keyword token an identifier spells, if any.
pub open spec fn keyword(w: Seq<char>) -> Option<Tok> {
    if w == "true"@ {
        Some(Tok::True)
    } else if w == "false"@ {
        Some(Tok::False)
    } else if w == "null"@ {
        Some(Tok::Null)
    } else if w == "of"@ {
        Some(Tok::Of)
    } else if w == "track"@ {
        Some(Tok::Track)
    } else {
        None
    }
}

/// The operator or punctuation token at `i` and where it ends.
pub open spec fn symbol_at(s: Seq<char>, i: int) -> Option<(Tok, int)> {
    let c = s[i];
    let next = if i + 1 < s.len() {
        s[i + 1]
    } else {
        ' '
    };
    if c == '+' {
        Some((Tok::Plus, i + 1))
    } else if c == '-' {
        Some((Tok::Minus, i + 1))
    } else if c == '*' {
        Some((Tok::Star, i + 1))
    } else if c == '/' {
        Some((Tok::Slash, i + 1))
    } else if c == '%' {
        Some((Tok::Percent, i + 1))
    } else if c == '=' {
        if next == '=' {
            Some((Tok::EqEq, i + 2))
        } else if next == '>' {
            Some((Tok::FatArrow, i + 2))
        } else {
            None
        }
    } else if c == '!' {
        if next == '=' {
            Some((Tok::BangEq, i + 2))
        } else {
            Some((Tok::Bang, i + 1))
        }
    } else if c == '<' {
        if next == '=' {
            Some((Tok::Le, i + 2))
        } else {
            Some((Tok::Lt, i + 1))
        }
    } else if c == '>' {
        if next == '=' {
            Some((Tok::Ge, i + 2))
        } else {
            Some((Tok::Gt, i + 1))
        }
    } else if c == '&' {
        if next == '&' {
            Some((Tok::AmpAmp, i + 2))
        } else {
            None
        }
    } else if c == '|' {
        if next == '|' {
            Some((Tok::PipePipe, i + 2))
        } else {
            Some((Tok::Pipe, i + 1))
        }
    } else if c == '(' {
        Some((Tok::LParen, i + 1))
    } else if c == ')' {
        Some((Tok::RParen, i + 1))
    } else if c == '[' {
        Some((Tok::LBracket, i + 1))
    } else if c == ']' {
        Some((Tok::RBracket, i + 1))
    } else if c == '{' {
        Some((Tok::LBrace, i + 1))
    } else if c == '}' {
        Some((Tok::RBrace, i + 1))
    } else if c == '.' {
        Some((Tok::Dot, i + 1))
    } else if c == ',' {
        Some((Tok::Comma, i + 1))
    } else if c == ':' {
        Some((Tok::Colon, i + 1))
    } else if c == ';' {
        Some((Tok::Semi, i + 1))
    } else {
        None
    }
}

/// The token that starts at `i` (`0 <= i < s.len()`) and where it ends,
/// or `None` where no token starts there.
pub open spec fn token_at(s: Seq<char>, i: int) -> Option<(Tok, int)> {
    let c = s[i];
    if is_digit(c) {
        let j = digits_end(s, i);
        match float_end(s, j) {
            Some(e) => Some((Tok::Float(s.subrange(i, e)), e)),
            None => {
                let n = digits_value(s.subrange(i, j));
                if n <= i64::MAX {
                    Some((Tok::Int(n as i64), j))
                } else {
                    None
                }
            },
        }
    } else if c == '"' || c == '\'' {
        match quote_end(s, i + 1, c) {
            Some(k) => Some((Tok::Str(unescaped(s.subrange(i + 1, k))), k + 1)),
            None => None,
        }
    } else if is_ident_start(c) {
        let j = ident_end(s, i);
        let w = s.subrange(i, j);
        match keyword(w) {
            Some(t) => Some((t, j)),
            None => Some((Tok::Ident(w), j)),
        }
    } else {
        symbol_at(s, i)
    }
}

pub fn is_digit_exec(c: char) -> (b: bool)
    ensures
        b == is_digit(c),
{
    '0' <= c && c <= '9'
}

pub fn is_ident_start_exec(c: char) -> (b: bool)
    ensures
        b == is_ident_start(c),
{
    ('a' <= c && c <= 'z') || ('A' <= c && c <= 'Z') || c == '_' || c == '$'
}

pub fn is_ident_char_exec(c: char) -> (b: bool)
    ensures
        b == is_ident_char(c),
{
    is_ident_start_exec(c) || is_digit_exec(c)
}

fn digits_end_exec(v: &Vec<char>, i: usize) -> (j: usize)
    requires
        i <= v@.len(),
    ensures
        j == digits_end(v@, i as int),
        i <= j <= v@.len(),
{
    let mut j = i;
    while j < v.len() && is_digit_exec(v[j])
        invariant
            i <= j <= v@.len(),
            digits_end(v@, i as int) == digits_end(v@, j as int),
        decreases v@.len() - j,
    {
        j += 1;
    }
    j
}

fn ident_end_exec(v: &Vec<char>, i: usize) -> (j: usize)
    requires
        i <= v@.len(),
    ensures
        j == ident_end(v@, i as int),
        i <= j <= v@.len(),
{
    let mut j = i;
    while j < v.len() && is_ident_char_exec(v[j])
        invariant
            i <= j <= v@.len(),
            ident_end(v@, i as int) == ident_end(v@, j as int),
        decreases v@.len() - j,
    {
        j += 1;
    }
    j
}

proof fn lemma_ident_end_bounds(s: Seq<char>, i: int)
    requires
        0 <= i <= s.len(),
    ensures
        i <= ident_end(s, i) <= s.len(),
        i < s.len() && is_ident_char(s[i]) ==> i < ident_end(s, i),
    decreases s.len() - i,
{
    if i < s.len() && is_ident_char(s[i]) {
        lemma_ident_end_bounds(s, i + 1);
    }
}

proof fn lemma_digits_end_bounds(s: Seq<char>, i: int)
    requires
        0 <= i <= s.len(),
    ensures
        i <= digits_end(s, i) <= s.len(),
        i < s.len() && is_digit(s[i]) ==> i < digits_end(s, i),
        forall|k: int| i <= k < digits_end(s, i) ==> is_digit(#[trigger] s[k]),
    decreases s.len() - i,
{
    if i < s.len() && is_digit(s[i]) {
        lemma_digits_end_bounds(s, i + 1);
    }
}

/// The value of the digits `v[i..j]`, or `None` where it exceeds `i64::MAX`.
fn digits_value_exec(v: &Vec<char>, i: usize, j: usize) -> (r: Option<i64>)
    requires
        i <= j <= v@.len(),
        forall|k: int| i <= k < j ==> is_digit(#[trigger] v@[k]),
    ensures
        match r {
            Some(n) => n == digits_value(v@.subrange(i as int, j as int)),
            None => digits_value(v@.subrange(i as int, j as int)) > i64::MAX,
        },
{
    let mut acc: i64 = 0;
    let mut k = i;
    while k < j
        invariant
            i <= k <= j <= v@.len(),
            forall|m: int| i <= m < j ==> is_digit(#[trigger] v@[m]),
            acc == digits_value(v@.subrange(i as int, k as int)),
        decreases j - k,
    {
        let d = (v[k] as u32 - 48) as i64;
        assert(is_digit(v@[k as int]));
        proof {
            let d2 = v@.subrange(i as int, k + 1);
            assert(d2.drop_last() == v@.subrange(i as int, k as int));
            assert(d2.last() == v@[k as int]);
        }
        if acc > (i64::MAX - d) / 10 {
            proof {
                lemma_digits_value_grows(v@, i as int, k + 1, j as int);
            }
            return None;
        }
        acc = acc * 10 + d;
        k += 1;
    }
    Some(acc)
}

proof fn lemma_digits_value_grows(s: Seq<char>, i: int, k: int, j: int)
    requires
        0 <= i <= k <= j <= s.len(),
        forall|m: int| i <= m < j ==> is_digit(#[trigger] s[m]),
    ensures
        digits_value(s.subrange(i, k)) <= digits_value(s.subrange(i, j)),
    decreases j - k,
{
    if k < j {
        lemma_digits_value_grows(s, i, k + 1, j);
        let d2 = s.subrange(i, k + 1);
        assert(d2.drop_last() == s.subrange(i, k));
        assert(is_digit(s[k]));
    }
}

fn quote_end_exec(v: &Vec<char>, i: usize, q: char) -> (r: Option<usize>)
    requires
        i <= v@.len(),
    ensures
        match r {
            Some(k) => quote_end(v@, i as int, q) == Some(k as int) && i <= k < v@.len(),
            None => quote_end(v@, i as int, q) is None,
        },
{
    let mut k = i;
    while k < v.len()
        invariant
            i <= k <= v@.len() + 1,
            quote_end(v@, i as int, q) == quote_end(v@, k as int, q),
        decreases v@.len() + 1 - k,
    {
        let c = v[k];
        if c == q {
            return Some(k);
        }
        if c == '\\' {
            if k + 1 < v.len() && v[k + 1] != '\n' {
                k += 2;
            } else {
                return None;
            }
        } else {
            k += 1;
        }
    }
    None
}

fn keyword_exec(v: &Vec<char>, i: usize, j: usize) -> (r: Option<Token>)
    requires
        i <= j <= v@.len(),
    ensures
        match r {
            Some(t) => keyword(v@.subrange(i as int, j as int)) == Some(t@),
            None => keyword(v@.subrange(i as int, j as int)) is None,
        },
{
    let ghost w = v@.subrange(i as int, j as int);
    proof {
        reveal_strlit("true");
        reveal_strlit("false");
        reveal_strlit("null");
        reveal_strlit("of");
        reveal_strlit("track");
    }
    let n = j - i;
    if n == 4 && v[i] == 't' && v[i + 1] == 'r' && v[i + 2] == 'u' && v[i + 3] == 'e' {
        assert(w =~= "true"@);
        return Some(Token::True);
    }
    if n == 5 && v[i] == 'f' && v[i + 1] == 'a' && v[i + 2] == 'l' && v[i + 3] == 's' && v[i + 4]
        == 'e' {
        assert(w =~= "false"@);
        return Some(Token::False);
    }
    if n == 4 && v[i] == 'n' && v[i + 1] == 'u' && v[i + 2] == 'l' && v[i + 3] == 'l' {
        assert(w =~= "null"@);
        assert(w[0] != "true"@[0]);
        assert(w[0] != "false"@[0]);
        return Some(Token::Null);
    }
    if n == 2 && v[i] == 'o' && v[i + 1] == 'f' {
        assert(w =~= "of"@);
        assert(w.len() != "true"@.len());
        assert(w.len() != "false"@.len());
        assert(w.len() != "null"@.len());
        return Some(Token::Of);
    }
    if n == 5 && v[i] == 't' && v[i + 1] == 'r' && v[i + 2] == 'a' && v[i + 3] == 'c' && v[i + 4]
        == 'k' {
        assert(w =~= "track"@);
        assert(w.len() != "true"@.len());
        assert(w[1] != "false"@[1]);
        assert(w.len() != "null"@.len());
        assert(w.len() != "of"@.len());
        return Some(Token::Track);
    }
    proof {
        assert(w.len() == n);
        assert(forall|k: int| 0 <= k < n ==> w[k] == v@[i + k]);
        if w == "true"@ {
            assert(w[0] == 't' && w[1] == 'r' && w[2] == 'u' && w[3] == 'e');
            assert(false);
        }
        if w == "false"@ {
            assert(w[0] == 'f' && w[1] == 'a' && w[2] == 'l' && w[3] == 's' && w[4] == 'e');
            assert(false);
        }
        if w == "null"@ {
            assert(w[0] == 'n' && w[1] == 'u' && w[2] == 'l' && w[3] == 'l');
            assert(false);
        }
        if w == "of"@ {
            assert(w[0] == 'o' && w[1] == 'f');
            assert(false);
        }
        if w == "track"@ {
            assert(w[0] == 't' && w[1] == 'r' && w[2] == 'a' && w[3] == 'c' && w[4] == 'k');
            assert(false);
        }
    }
    None
}

fn symbol_exec(v: &Vec<char>, i: usize) -> (r: Option<(Token, usize)>)
    requires
        i < v@.len(),
    ensures
        match r {
            Some((t, e)) => symbol_at(v@, i as int) == Some((t@, e as int)) && i < e <= v@.len(),
            None => symbol_at(v@, i as int) is None,
        },
{
    let c = v[i];
    let next = if v.len() - i > 1 {
        v[i + 1]
    } else {
        ' '
    };
    if c == '+' {
        Some((Token::Plus, i + 1))
    } else if c == '-' {
        Some((Token::Minus, i + 1))
    } else if c == '*' {
        Some((Token::Star, i + 1))
    } else if c == '/' {
        Some((Token::Slash, i + 1))
    } else if c == '%' {
        Some((Token::Percent, i + 1))
    } else if c == '=' {
        if next == '=' {
            Some((Token::EqEq, i + 2))
        } else if next == '>' {
            Some((Token::FatArrow, i + 2))
        } else {
            None
        }
    } else if c == '!' {
        if next == '=' {
            Some((Token::BangEq, i + 2))
        } else {
            Some((Token::Bang, i + 1))
        }
    } else if c == '<' {
        if next == '=' {
            Some((Token::Le, i + 2))
        } else {
            Some((Token::Lt, i + 1))
        }
    } else if c == '>' {
        if next == '=' {
            Some((Token::Ge, i + 2))
        } else {
            Some((Token::Gt, i + 1))
        }
    } else if c == '&' {
        if next == '&' {
            Some((Token::AmpAmp, i + 2))
        } else {
            None
        }
    } else if c == '|' {
        if next == '|' {
            Some((Token::PipePipe, i + 2))
        } else {
            Some((Token::Pipe, i + 1))
        }
    } else if c == '(' {
        Some((Token::LParen, i + 1))
    } else if c == ')' {
        Some((Token::RParen, i + 1))
    } else if c == '[' {
        Some((Token::LBracket, i + 1))
    } else if c == ']' {
        Some((Token::RBracket, i + 1))
    } else if c == '{' {
        Some((Token::LBrace, i + 1))
    } else if c == '}' {
        Some((Token::RBrace, i + 1))
    } else if c == '.' {
        Some((Token::Dot, i + 1))
    } else if c == ',' {
        Some((Token::Comma, i + 1))
    } else if c == ':' {
        Some((Token::Colon, i + 1))
    } else if c == ';' {
        Some((Token::Semi, i + 1))
    } else {
        None
    }
}

/// Scans the token that starts at `i` (see `token_at`).
pub fn scan_token(v: &Vec<char>, i: usize) -> (r: Option<(Token, usize)>)
    requires
        i < v@.len(),
        v@.len() < usize::MAX,
    ensures
        match r {
            Some((t, e)) => token_at(v@, i as int) == Some((t@, e as int)) && i < e <= v@.len(),
            None => token_at(v@, i as int) is None,
        },
{
    let c = v[i];
    if is_digit_exec(c) {
        let j = digits_end_exec(v, i);
        proof {
            lemma_digits_end_bounds(v@, i as int);
        }
        if v.len() - j > 1 && v[j] == '.' && is_digit_exec(v[j + 1]) {
            let k = digits_end_exec(v, j + 1);
            let mut e = k;
            if k < v.len() && (v[k] == 'e' || v[k] == 'E') {
                let m = if v.len() - k > 1 && (v[k + 1] == '+' || v[k + 1] == '-') {
                    k + 2
                } else {
                    k + 1
                };
                if m < v.len() && is_digit_exec(v[m]) {
                    e = digits_end_exec(v, m);
                }
            }
            let text = string_of(v, i, e);
            return Some((Token::Float(text), e));
        }
        match digits_value_exec(v, i, j) {
            Some(n) => Some((Token::Int(n), j)),
            None => None,
        }
    } else if c == '"' || c == '\'' {
        match quote_end_exec(v, i + 1, c) {
            Some(k) => {
                let body = unescape_chars(v, i + 1, k);
                Some((Token::String(body), k + 1))
            },
            None => None,
        }
    } else if is_ident_start_exec(c) {
        let j = ident_end_exec(v, i);
        proof {
            lemma_ident_end_bounds(v@, i as int);
        }
        match keyword_exec(v, i, j) {
            Some(t) => Some((t, j)),
            None => Some((Token::Ident(string_of(v, i, j)), j)),
        }
    } else {
        symbol_exec(v, i)
    }
}

} // verus!
