//! Character-level helpers shared by the lexer, the evaluator and the
//! error messages: conversions between `str`/`String` and `Vec<char>`,
//! decimal formatting of integers, and escape-sequence decoding.

use vstd::prelude::*;
use vstd::utf8::{decode_utf8, encode_scalar, encode_utf8};
use vstd::string::*;

verus! {

broadcast use vstd::string::group_string_axioms;

/// The characters of `s`, in order.
pub fn chars_of(s: &str) -> (v: Vec<char>)
    ensures
        v@ == s@,
{
    let mut v: Vec<char> = Vec::new();
    for c in it: s.chars()
        invariant
            v@ == it.seq().take(it.index() as int),
            it.seq() == s@,
    {
        v.push(c);
    }
    v
}

/// The UTF-8 encoding of `s`.
pub closed spec fn bytes(s: Seq<char>) -> Seq<u8> {
    encode_utf8(s)
}

/// The number of bytes in the UTF-8 encoding of the first `i` characters
/// of `s`: the byte position of character `i`.
pub open spec fn bpos(s: Seq<char>, i: int) -> int {
    bytes(s.take(i)).len() as int
}

/// The number of bytes in the UTF-8 encoding of `s`.
pub open spec fn blen(s: Seq<char>) -> int {
    bytes(s).len() as int
}

/// `bytes` is the UTF-8 encoding, which decodes back to the characters.
pub proof fn lemma_bytes(s: Seq<char>)
    ensures
        bytes(s) == encode_utf8(s),
        decode_utf8(bytes(s)) == s,
{
    vstd::utf8::encode_utf8_decode_utf8(s);
}

/// The number of bytes in the UTF-8 encoding of `c`.
pub open spec fn width(c: char) -> int {
    encode_scalar(c as u32).len() as int
}

/// Encoding a concatenation concatenates the encodings.
pub proof fn lemma_encode_append(a: Seq<char>, b: Seq<char>)
    ensures
        encode_utf8(a + b) == encode_utf8(a) + encode_utf8(b),
    decreases a.len(),
{
    if a.len() == 0 {
        assert(a + b =~= b);
        assert(encode_utf8(a) =~= Seq::<u8>::empty());
        assert(encode_utf8(a) + encode_utf8(b) =~= encode_utf8(b));
    } else {
        lemma_encode_append(a.drop_first(), b);
        assert((a + b).drop_first() =~= a.drop_first() + b);
        assert((a + b)[0] == a[0]);
        assert(encode_utf8(a + b) =~= encode_utf8(a) + encode_utf8(b));
    }
}

/// A character takes one to four bytes.
pub proof fn lemma_width(c: char)
    ensures
        1 <= width(c) <= 4,
{
}

/// Character `i + 1` lies `width(s[i])` bytes after character `i`.
pub proof fn lemma_bpos_step(s: Seq<char>, i: int)
    requires
        0 <= i < s.len(),
    ensures
        bpos(s, i + 1) == bpos(s, i) + width(s[i]),
        bpos(s, 0) == 0,
{
    assert(s.take(i + 1) =~= s.take(i) + seq![s[i]]);
    lemma_encode_append(s.take(i), seq![s[i]]);
    let one = seq![s[i]];
    assert(one.drop_first() =~= Seq::<char>::empty());
    assert(encode_utf8(one.drop_first()) =~= Seq::<u8>::empty());
    assert(one[0] == s[i]);
    assert(encode_utf8(one) == encode_scalar(s[i] as u32) + encode_utf8(one.drop_first()));
    assert(encode_utf8(one) =~= encode_scalar(s[i] as u32));
    assert(s.take(0) =~= Seq::<char>::empty());
}

/// Byte positions grow by at least one per character, and end at the
/// encoding's length.
pub proof fn lemma_bpos_mono(s: Seq<char>, i: int, j: int)
    requires
        0 <= i <= j <= s.len(),
    ensures
        bpos(s, i) + (j - i) <= bpos(s, j),
        0 <= bpos(s, i),
        bpos(s, s.len() as int) == blen(s),
    decreases j - i,
{
    assert(s.take(s.len() as int) =~= s);
    if i < j {
        lemma_bpos_mono(s, i, j - 1);
        lemma_bpos_step(s, j - 1);
        lemma_width(s[j - 1]);
    }
}

/// Byte positions from character `i` on lie at least one byte per
/// character after that of `i`.
pub proof fn lemma_bpos_from(s: Seq<char>, i: int)
    requires
        0 <= i <= s.len(),
    ensures
        forall|j: int| i <= j <= s.len() ==> bpos(s, i) + (j - i) <= #[trigger] bpos(s, j),
        bpos(s, s.len() as int) == blen(s),
        bpos(s, 0) == 0,
{
    assert(s.take(0) =~= Seq::<char>::empty());
    assert(bytes(s.take(0)) =~= Seq::<u8>::empty());
    assert forall|j: int| i <= j <= s.len() implies bpos(s, i) + (j - i) <= #[trigger] bpos(s, j) by {
        lemma_bpos_mono(s, i, j);
    }
    lemma_bpos_mono(s, i, i);
}

/// The bytes of the characters `s[a..b]` are the bytes of `s` from the
/// byte position of `a` to that of `b`.
pub proof fn lemma_bytes_sub(s: Seq<char>, a: int, b: int)
    requires
        0 <= a <= b <= s.len(),
    ensures
        bytes(s.subrange(a, b)) == bytes(s).subrange(bpos(s, a), bpos(s, b)),
{
    let x = s.take(a);
    let y = s.subrange(a, b);
    let z = s.skip(b);
    assert(s =~= x + y + z);
    assert(s.take(b) =~= x + y);
    lemma_encode_append(x, y);
    lemma_encode_append(x + y, z);
    assert(encode_utf8(s).subrange(bpos(s, a), bpos(s, b)) =~= encode_utf8(y));
}

/// The number of bytes in the UTF-8 encoding of `c`.
pub fn char_width(c: char) -> (w: usize)
    ensures
        w == width(c),
{
    let v = c as u32;
    if v <= 0x7f {
        1
    } else if v <= 0x7ff {
        2
    } else if v <= 0xffff {
        3
    } else {
        4
    }
}

/// Appends one character to a `String` by std's `String::push`; the
/// contract claims that the string afterwards is the one before with `c`
/// added at the end.
#[verifier::external_body]
pub(crate) fn push_char(s: &mut String, c: char)
    ensures
        final(s)@ == old(s)@.push(c),
{
    s.push(c);
}

/// How Rust's `Debug` writes a character inside a quoted string: `"`, `\`,
/// newline, carriage return, tab and NUL escaped with a backslash, every
/// other character as itself.
pub open spec fn debug_char(c: char) -> Seq<char> {
    if c == '"' {
        seq!['\\', '"']
    } else if c == '\\' {
        seq!['\\', '\\']
    } else if c == '\n' {
        seq!['\\', 'n']
    } else if c == '\r' {
        seq!['\\', 'r']
    } else if c == '\t' {
        seq!['\\', 't']
    } else if c == '\0' {
        seq!['\\', '0']
    } else {
        seq![c]
    }
}

/// The characters of `s`, each as `debug_char` writes it.
pub open spec fn debug_body(s: Seq<char>) -> Seq<char>
    decreases s.len(),
{
    if s.len() == 0 {
        Seq::empty()
    } else {
        debug_body(s.drop_last()) + debug_char(s.last())
    }
}

/// `s` in double quotes, escaped as Rust's `Debug` writes a string.
pub open spec fn debug_quoted(s: Seq<char>) -> Seq<char> {
    seq!['"'] + debug_body(s) + seq!['"']
}

/// Appends `t` as `debug_quoted` writes it.
pub fn push_debug_quoted(s: &mut String, t: &str)
    ensures
        final(s)@ == old(s)@ + debug_quoted(t@),
{
    let v = chars_of(t);
    push_char(s, '"');
    let mut i: usize = 0;
    while i < v.len()
        invariant
            v@ == t@,
            i <= v@.len(),
            s@ == old(s)@ + seq!['"'] + debug_body(v@.subrange(0, i as int)),
        decreases v@.len() - i,
    {
        let c = v[i];
        let ghost before = s@;
        if c == '"' {
            push_char(s, '\\');
            push_char(s, '"');
        } else if c == '\\' {
            push_char(s, '\\');
            push_char(s, '\\');
        } else if c == '\n' {
            push_char(s, '\\');
            push_char(s, 'n');
        } else if c == '\r' {
            push_char(s, '\\');
            push_char(s, 'r');
        } else if c == '\t' {
            push_char(s, '\\');
            push_char(s, 't');
        } else if c == '\0' {
            push_char(s, '\\');
            push_char(s, '0');
        } else {
            push_char(s, c);
        }
        proof {
            let w = v@.subrange(0, i + 1);
            assert(w.drop_last() == v@.subrange(0, i as int));
            assert(w.last() == c);
            assert(s@ == before + debug_char(c));
        }
        i += 1;
    }
    push_char(s, '"');
    proof {
        assert(v@.subrange(0, v@.len() as int) == v@);
    }
}

/// Appends the characters `v[from..to]` to `s`.
pub fn push_chars(s: &mut String, v: &Vec<char>, from: usize, to: usize)
    requires
        from <= to <= v@.len(),
    ensures
        final(s)@ == old(s)@ + v@.subrange(from as int, to as int),
{
    let mut i = from;
    while i < to
        invariant
            from <= i <= to <= v@.len(),
            s@ == old(s)@ + v@.subrange(from as int, i as int),
        decreases to - i,
    {
        push_char(s, v[i]);
        assert(v@.subrange(from as int, i + 1) == v@.subrange(from as int, i as int).push(v@[i as int]));
        i += 1;
    }
}

/// A `String` holding the characters `v[from..to]`.
pub fn string_of(v: &Vec<char>, from: usize, to: usize) -> (s: String)
    requires
        from <= to <= v@.len(),
    ensures
        s@ == v@.subrange(from as int, to as int),
{
    let mut s = String::new();
    push_chars(&mut s, v, from, to);
    s
}

/// Appends the characters of `t` to `s`.
pub fn push_str(s: &mut String, t: &str)
    ensures
        final(s)@ == old(s)@ + t@,
{
    s.append(t);
}

/// The decimal digit character for `d` (`0 <= d < 10`).
pub open spec fn digit_char(d: int) -> char {
    ((d + 48) as u32) as char
}

/// The decimal representation of a natural number, without leading zeros
/// (`0` is written `"0"`).
pub open spec fn decimal(n: nat) -> Seq<char>
    decreases n,
{
    if n < 10 {
        seq![digit_char(n as int)]
    } else {
        decimal(n / 10).push(digit_char((n % 10) as int))
    }
}

/// The decimal representation of an integer: a `-` sign before the digits
/// of a negative number.
pub open spec fn int_text(i: int) -> Seq<char> {
    if i < 0 {
        seq!['-'] + decimal((-i) as nat)
    } else {
        decimal(i as nat)
    }
}

/// Appends the decimal representation of `n` to `s`.
pub fn push_decimal(s: &mut String, n: u64)
    ensures
        final(s)@ == old(s)@ + decimal(n as nat),
    decreases n,
{
    if n < 10 {
        push_char(s, digit_of(n));
    } else {
        push_decimal(s, n / 10);
        push_char(s, digit_of(n % 10));
    }
}

fn digit_of(d: u64) -> (c: char)
    requires
        d < 10,
    ensures
        c == digit_char(d as int),
{
    if d == 0 { '0' }
    else if d == 1 { '1' }
    else if d == 2 { '2' }
    else if d == 3 { '3' }
    else if d == 4 { '4' }
    else if d == 5 { '5' }
    else if d == 6 { '6' }
    else if d == 7 { '7' }
    else if d == 8 { '8' }
    else { '9' }
}

/// Appends the decimal representation of `i` to `s`.
pub fn push_int(s: &mut String, i: i64)
    ensures
        final(s)@ == old(s)@ + int_text(i as int),
{
    if i < 0 {
        push_char(s, '-');
        let mag: u64 = if i == i64::MIN {
            9223372036854775808u64
        } else {
            (-i) as u64
        };
        push_decimal(s, mag);
        assert(final(s)@ == old(s)@ + (seq!['-'] + decimal(mag as nat)));
    } else {
        push_decimal(s, i as u64);
    }
}

/// The decimal representation of `n` as a `String`.
pub fn usize_text(n: usize) -> (s: String)
    ensures
        s@ == decimal(n as nat),
{
    let mut s = String::new();
    push_decimal(&mut s, n as u64);
    s
}

/// The character that an escape sequence `\c` stands for, where it is one
/// of the recognised escapes.
pub open spec fn escape_of(c: char) -> Option<char> {
    if c == 'n' {
        Some('\n')
    } else if c == 't' {
        Some('\t')
    } else if c == 'r' {
        Some('\r')
    } else if c == '\\' {
        Some('\\')
    } else if c == '\'' {
        Some('\'')
    } else if c == '"' {
        Some('"')
    } else if c == '0' {
        Some('\0')
    } else {
        None
    }
}

/// The text of a string literal with its escape sequences decoded:
/// a recognised `\c` becomes one character, an unknown escape `\c` is kept
/// as both characters, and a lone trailing `\` is kept.
pub open spec fn unescaped(s: Seq<char>) -> Seq<char>
    decreases s.len(),
{
    if s.len() == 0 {
        seq![]
    } else if s[0] != '\\' {
        seq![s[0]] + unescaped(s.drop_first())
    } else if s.len() == 1 {
        seq!['\\']
    } else {
        match escape_of(s[1]) {
            Some(e) => seq![e] + unescaped(s.subrange(2, s.len() as int)),
            None => seq!['\\', s[1]] + unescaped(s.subrange(2, s.len() as int)),
        }
    }
}

fn escape_of_exec(c: char) -> (r: Option<char>)
    ensures
        r == escape_of(c),
{
    if c == 'n' {
        Some('\n')
    } else if c == 't' {
        Some('\t')
    } else if c == 'r' {
        Some('\r')
    } else if c == '\\' {
        Some('\\')
    } else if c == '\'' {
        Some('\'')
    } else if c == '"' {
        Some('"')
    } else if c == '0' {
        Some('\0')
    } else {
        None
    }
}

/// Decodes the escape sequences of `v[from..to]`.
pub fn unescape_chars(v: &Vec<char>, from: usize, to: usize) -> (s: String)
    requires
        from <= to <= v@.len(),
    ensures
        s@ == unescaped(v@.subrange(from as int, to as int)),
{
    let mut out = String::new();
    let mut i = from;
    while i < to
        invariant
            from <= i <= to <= v@.len(),
            out@ + unescaped(v@.subrange(i as int, to as int)) == unescaped(
                v@.subrange(from as int, to as int),
            ),
        decreases to - i,
    {
        let ghost rest = v@.subrange(i as int, to as int);
        let c = v[i];
        if c != '\\' {
            assert(rest.drop_first() == v@.subrange(i + 1, to as int));
            push_char(&mut out, c);
            i += 1;
        } else if i + 1 == to {
            push_char(&mut out, '\\');
            i += 1;
            assert(v@.subrange(i as int, to as int).len() == 0);
        } else {
            let d = v[i + 1];
            assert(rest.subrange(2, rest.len() as int) == v@.subrange(i + 2, to as int));
            match escape_of_exec(d) {
                Some(e) => {
                    push_char(&mut out, e);
                },
                None => {
                    push_char(&mut out, '\\');
                    push_char(&mut out, d);
                },
            }
            i += 2;
        }
    }
    out
}

/// Decodes the escape sequences of a string literal's body: `\n`, `\t`,
/// `\r`, `\\`, `\'`, `\"` and `\0` become the character they name; any
/// other `\c` is kept as it stands, and so is a trailing `\`.
pub fn unescape(s: &str) -> (r: String)
    ensures
        r@ == unescaped(s@),
{
    let v = chars_of(s);
    assert(v@.subrange(0, v@.len() as int) == v@);
    unescape_chars(&v, 0, v.len())
}

/// ASCII letters and digits.
pub open spec fn is_ascii_alnum(c: char) -> bool {
    ('a' <= c && c <= 'z') || ('A' <= c && c <= 'Z') || ('0' <= c && c <= '9')
}

pub fn is_ascii_alnum_exec(c: char) -> (b: bool)
    ensures
        b == is_ascii_alnum(c),
{
    ('a' <= c && c <= 'z') || ('A' <= c && c <= 'Z') || ('0' <= c && c <= '9')
}

/// The ASCII whitespace characters that `u8::is_ascii_whitespace` accepts.
pub open spec fn is_ascii_ws(c: char) -> bool {
    c == ' ' || c == '\t' || c == '\n' || c == '\x0C' || c == '\r'
}

pub fn is_ascii_ws_exec(c: char) -> (b: bool)
    ensures
        b == is_ascii_ws(c),
{
    c == ' ' || c == '\t' || c == '\n' || c == '\x0C' || c == '\r'
}

/// The characters with the Unicode `White_Space` property, which
/// `char::is_whitespace` (and so `str::trim_start`) accepts.
pub open spec fn is_unicode_ws(c: char) -> bool {
    let u = c as u32;
    (0x09 <= u && u <= 0x0D) || u == 0x20 || u == 0x85 || u == 0xA0 || u == 0x1680 || (0x2000
        <= u && u <= 0x200A) || u == 0x2028 || u == 0x2029 || u == 0x202F || u == 0x205F || u
        == 0x3000
}

pub fn is_unicode_ws_exec(c: char) -> (b: bool)
    ensures
        b == is_unicode_ws(c),
{
    let u = c as u32;
    (0x09 <= u && u <= 0x0D) || u == 0x20 || u == 0x85 || u == 0xA0 || u == 0x1680 || (0x2000
        <= u && u <= 0x200A) || u == 0x2028 || u == 0x2029 || u == 0x202F || u == 0x205F || u
        == 0x3000
}

/// Whether `v[at..]` begins with the characters of `w`.
pub open spec fn has_at(v: Seq<char>, at: int, w: Seq<char>) -> bool {
    0 <= at && at + w.len() <= v.len() && v.subrange(at, at + w.len()) == w
}

pub fn has_at_exec(v: &Vec<char>, at: usize, w: &str) -> (b: bool)
    ensures
        b == has_at(v@, at as int, w@),
{
    let wv = chars_of(w);
    if at > v.len() || wv.len() > v.len() - at {
        return false;
    }
    let mut k: usize = 0;
    while k < wv.len()
        invariant
            at + wv@.len() <= v@.len(),
            wv@ == w@,
            k <= wv@.len(),
            v@.len() == v.len(),
            forall|j: int| 0 <= j < k ==> v@[at + j] == wv@[j],
        decreases wv@.len() - k,
    {
        if v[at + k] != wv[k] {
            assert(v@.subrange(at as int, at + w@.len())[k as int] != w@[k as int]);
            return false;
        }
        k += 1;
    }
    assert(v@.subrange(at as int, at + wv@.len()) =~= wv@);
    true
}

} // verus!

verus! {

/// Whether two strings hold the same characters.
pub fn str_eq(a: &str, b: &str) -> (r: bool)
    ensures
        r == (a@ == b@),
{
    let va = chars_of(a);
    let vb = chars_of(b);
    chars_eq(&va, &vb)
}

/// Whether two character vectors are equal.
pub fn chars_eq(a: &Vec<char>, b: &Vec<char>) -> (r: bool)
    ensures
        r == (a@ == b@),
{
    if a.len() != b.len() {
        return false;
    }
    let mut i: usize = 0;
    while i < a.len()
        invariant
            a@.len() == b@.len(),
            i <= a@.len(),
            forall|j: int| 0 <= j < i ==> a@[j] == b@[j],
        decreases a@.len() - i,
    {
        if a[i] != b[i] {
            return false;
        }
        i += 1;
    }
    assert(a@ =~= b@);
    true
}

} // verus!
