//! Source positions.

use std::sync::Arc;
use vstd::prelude::*;

use vstd::utf8::decode_utf8;

use crate::text::{
    blen, bpos, bytes, char_width, chars_of, lemma_bpos_from, lemma_bpos_mono, lemma_bpos_step,
    lemma_bytes, lemma_bytes_sub, string_of,
};

verus! {

/// A range `start..end` of byte positions in a template's source,
/// with a shared reference to the whole source so that the spanned text
/// can be shown.
#[derive(Debug)]
pub struct Span {
    pub start: usize,
    pub end: usize,
    pub src: Arc<str>,
}

/// A shared copy of `s`, made by std's `Arc::<str>::from`; the contract
/// claims that the new `Arc` holds exactly the characters of `s`.
#[verifier::external_body]
pub(crate) fn arc_of(s: &str) -> (r: Arc<str>)
    ensures
        r@ == s@,
{
    Arc::from(s)
}

/// The smaller of two positions.
pub open spec fn min_pos(a: usize, b: usize) -> usize {
    if a <= b { a } else { b }
}

/// The larger of two positions.
pub open spec fn max_pos(a: usize, b: usize) -> usize {
    if a >= b { a } else { b }
}

impl Span {
    pub fn new(start: usize, end: usize, src: Arc<str>) -> (s: Span)
        ensures
            s.start == start,
            s.end == end,
            s.src == src,
    {
        Span { start, end, src }
    }

    /// The smallest span that covers both `self` and `other`; it keeps the
    /// source of `self`.
    pub fn merge(&self, other: &Span) -> (s: Span)
        ensures
            s.start == min_pos(self.start, other.start),
            s.end == max_pos(self.end, other.end),
            s.src == self.src,
    {
        let start = if self.start <= other.start { self.start } else { other.start };
        let end = if self.end >= other.end { self.end } else { other.end };
        Span { start, end, src: self.src.clone() }
    }

    /// A copy of this span.
    pub fn copy(&self) -> (s: Span)
        ensures
            s == *self,
    {
        Span { start: self.start, end: self.end, src: self.src.clone() }
    }

    /// Whether the span lies within its source, from a character boundary
    /// to a character boundary.
    pub open spec fn in_bounds(&self) -> bool {
        &&& self.start <= self.end <= blen(self.src@)
        &&& is_boundary(self.src@, self.start as int)
        &&& is_boundary(self.src@, self.end as int)
    }

    /// The text of the source bytes that the span covers.
    pub open spec fn text(&self) -> Seq<char> {
        decode_utf8(bytes(self.src@).subrange(self.start as int, self.end as int))
    }

    /// The source text that the span covers: the source's bytes
    /// `start..end`.
    pub fn to_string(&self) -> (s: String)
        requires
            self.in_bounds(),
        ensures
            s@ == self.text(),
            bytes(s@) == bytes(self.src@).subrange(self.start as int, self.end as int),
    {
        let v = chars_of(&self.src);
        let i = char_index_at(&v, self.start);
        let j = char_index_at(&v, self.end);
        proof {
            if j < i {
                lemma_bpos_mono(v@, j as int, i as int);
            }
            lemma_bytes_sub(v@, i as int, j as int);
            lemma_bytes(v@.subrange(i as int, j as int));
        }
        string_of(&v, i, j)
    }

    /// The span as a range of positions.
    pub fn range(&self) -> (r: std::ops::Range<usize>)
        ensures
            r.start == self.start,
            r.end == self.end,
    {
        self.start..self.end
    }
}

/// Whether byte `b` of the encoding of `s` starts a character (or is the
/// end).
pub open spec fn is_boundary(s: Seq<char>, b: int) -> bool {
    exists|i: int| 0 <= i <= s.len() && #[trigger] bpos(s, i) == b
}

/// The index of the character of `v` that starts at byte `b`.
fn char_index_at(v: &Vec<char>, b: usize) -> (i: usize)
    requires
        is_boundary(v@, b as int),
    ensures
        i <= v@.len(),
        bpos(v@, i as int) == b,
{
    let ghost k0 = choose|k: int| 0 <= k <= v@.len() && #[trigger] bpos(v@, k) == b;
    let mut i: usize = 0;
    let mut p: usize = 0;
    proof {
        lemma_bpos_from(v@, 0);
    }
    while i < v.len() && p < b
        invariant
            0 <= k0 <= v@.len(),
            bpos(v@, k0) == b,
            i <= v@.len(),
            p == bpos(v@, i as int),
            p <= b,
        decreases v@.len() - i,
    {
        proof {
            lemma_bpos_step(v@, i as int);
            if k0 <= i {
                lemma_bpos_mono(v@, k0, i as int);
            } else {
                lemma_bpos_mono(v@, i + 1, k0);
            }
        }
        p = p + char_width(v[i]);
        i = i + 1;
    }
    proof {
        if p < b {
            lemma_bpos_mono(v@, k0, i as int);
        }
    }
    i
}

impl Clone for Span {
    fn clone(&self) -> (s: Span)
        ensures
            s == *self,
    {
        self.copy()
    }
}

impl PartialEq for Span {
    fn eq(&self, other: &Span) -> (r: bool) {
        let a: &str = &self.src;
        let b: &str = &other.src;
        self.start == other.start && self.end == other.end && crate::text::str_eq(a, b)
    }
}

impl Eq for Span {

}

impl vstd::std_specs::cmp::PartialEqSpecImpl for Span {
    open spec fn obeys_eq_spec() -> bool {
        true
    }

    open spec fn eq_spec(&self, other: &Span) -> bool {
        self.start == other.start && self.end == other.end && self.src@ == other.src@
    }
}

impl From<Span> for std::ops::Range<usize> {
    fn from(span: Span) -> (r: std::ops::Range<usize>) {
        span.start..span.end
    }
}

impl vstd::std_specs::convert::FromSpecImpl<Span> for std::ops::Range<usize> {
    open spec fn obeys_from_spec() -> bool {
        true
    }

    open spec fn from_spec(span: Span) -> std::ops::Range<usize> {
        span.start..span.end
    }
}

} // verus!
