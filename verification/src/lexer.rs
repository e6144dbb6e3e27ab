//! The template lexer. It works in two modes that the parser switches
//! between: text mode, which reads raw text up to the next `{{`,
//! `@keyword` or (inside a block body) closing `}`; and expression mode,
//! which reads expression tokens and `}}`.

use std::sync::Arc;
use vstd::prelude::*;

use crate::error::ParseError;
use crate::span::Span;
use crate::text::{
    chars_of, has_at, has_at_exec, is_ascii_alnum, is_ascii_alnum_exec, is_ascii_ws,
    is_ascii_ws_exec, is_unicode_ws, is_unicode_ws_exec, push_str, string_of, blen, bpos, char_width,
    lemma_bpos_from, lemma_bpos_mono, lemma_bpos_step,
};
use crate::token::{scan_token, token_at, Tok, Token};

verus! {

/// A template-level token.
#[derive(Debug, Clone, PartialEq)]
pub enum LexToken {
    /// Raw text content.
    Text(String),
    /// Start of interpolation `{{`.
    InterpStart,
    /// End of interpolation `}}`.
    InterpEnd,
    AtIf,
    AtElse,
    AtFor,
    AtSwitch,
    AtCase,
    AtDefault,
    AtMatch,
    AtInclude,
    /// Closing brace `}` that ends a block body.
    CloseBrace,
    /// An expression-mode token.
    Expr(Token),
    /// End of input.
    Eof,
}

/// The model of a `LexToken`.
pub enum LexTok {
    Text(Seq<char>),
    InterpStart,
    InterpEnd,
    AtIf,
    AtElse,
    AtFor,
    AtSwitch,
    AtCase,
    AtDefault,
    AtMatch,
    AtInclude,
    CloseBrace,
    Expr(Tok),
    Eof,
}

impl View for LexToken {
    type V = LexTok;

    open spec fn view(&self) -> LexTok {
        match self {
            LexToken::Text(s) => LexTok::Text(s@),
            LexToken::InterpStart => LexTok::InterpStart,
            LexToken::InterpEnd => LexTok::InterpEnd,
            LexToken::AtIf => LexTok::AtIf,
            LexToken::AtElse => LexTok::AtElse,
            LexToken::AtFor => LexTok::AtFor,
            LexToken::AtSwitch => LexTok::AtSwitch,
            LexToken::AtCase => LexTok::AtCase,
            LexToken::AtDefault => LexTok::AtDefault,
            LexToken::AtMatch => LexTok::AtMatch,
            LexToken::AtInclude => LexTok::AtInclude,
            LexToken::CloseBrace => LexTok::CloseBrace,
            LexToken::Expr(t) => LexTok::Expr(t@),
            LexToken::Eof => LexTok::Eof,
        }
    }
}

/// A positioned token.
#[derive(Debug, Clone, PartialEq)]
pub struct Spanned {
    pub token: LexToken,
    pub span: Span,
}

/// The `@` keywords, in the order in which they are tried.
pub open spec fn keyword_list() -> Seq<(Seq<char>, LexTok)> {
    seq![
        ("if"@, LexTok::AtIf),
        ("else"@, LexTok::AtElse),
        ("for"@, LexTok::AtFor),
        ("switch"@, LexTok::AtSwitch),
        ("case"@, LexTok::AtCase),
        ("default"@, LexTok::AtDefault),
        ("match"@, LexTok::AtMatch),
        ("include"@, LexTok::AtInclude),
    ]
}

/// Whether the character ends a keyword: it is not an ASCII letter,
/// digit or underscore.
pub open spec fn ends_word(c: char) -> bool {
    !is_ascii_alnum(c) && c != '_'
}

/// Whether keyword `w` follows the `@` at position `p`, as a whole word.
pub open spec fn keyword_follows(s: Seq<char>, p: int, w: Seq<char>) -> bool {
    has_at(s, p + 1, w) && (p + 1 + w.len() >= s.len() || ends_word(s[p + 1 + w.len()]))
}

/// The first of `keyword_list()[k..]` that follows the `@` at `p`, with
/// the length of `@keyword`.
pub open spec fn keyword_from(s: Seq<char>, p: int, k: int) -> Option<(LexTok, int)>
    decreases 8 - k,
{
    if k < 0 || k >= 8 {
        None
    } else if keyword_follows(s, p, keyword_list()[k].0) {
        Some((keyword_list()[k].1, 1 + keyword_list()[k].0.len() as int))
    } else {
        keyword_from(s, p, k + 1)
    }
}

/// The `@keyword` token at `p` (where `s[p] == '@'`) and its length.
pub open spec fn at_keyword(s: Seq<char>, p: int) -> Option<(LexTok, int)> {
    keyword_from(s, p, 0)
}

/// Whether text mode stops at position `t`: at `{{`, at `}` inside a
/// block body, or at an `@keyword`.
pub open spec fn stops_at(s: Seq<char>, t: int, depth: usize) -> bool {
    ||| t + 1 < s.len() && s[t] == '{' && s[t + 1] == '{'
    ||| depth > 0 && s[t] == '}'
    ||| s[t] == '@' && at_keyword(s, t) is Some
}

/// The first position at or after `t` where text mode stops, or the end.
pub open spec fn first_stop(s: Seq<char>, t: int, depth: usize) -> int
    decreases s.len() - t,
{
    if t < 0 || t >= s.len() {
        s.len() as int
    } else if stops_at(s, t, depth) {
        t
    } else {
        first_stop(s, t + 1, depth)
    }
}

/// The token that text mode reads at `t`, where it stops (`t < s.len()`),
/// with its end.
pub open spec fn stop_token(s: Seq<char>, t: int, depth: usize) -> (LexTok, int) {
    if t + 1 < s.len() && s[t] == '{' && s[t + 1] == '{' {
        (LexTok::InterpStart, t + 2)
    } else if depth > 0 && s[t] == '}' {
        (LexTok::CloseBrace, t + 1)
    } else {
        let (k, n) = at_keyword(s, t).unwrap();
        (k, t + n)
    }
}

/// What text mode reads from `pos`: the token and its span `(start, end)`;
/// the lexer continues at `end`.
pub open spec fn text_step(s: Seq<char>, pos: int, depth: usize) -> (LexTok, int, int) {
    if pos >= s.len() {
        (LexTok::Eof, pos, pos)
    } else {
        let t = first_stop(s, pos, depth);
        if t > pos {
            (LexTok::Text(s.subrange(pos, t)), pos, t)
        } else {
            let (k, e) = stop_token(s, t, depth);
            (k, t, e)
        }
    }
}

/// The end of the run of Unicode whitespace that starts at `i`.
pub open spec fn ws_end(s: Seq<char>, i: int) -> int
    decreases s.len() - i,
{
    if 0 <= i < s.len() && is_unicode_ws(s[i]) {
        ws_end(s, i + 1)
    } else {
        i
    }
}

/// The end of the run of ASCII whitespace that starts at `i`.
pub open spec fn ascii_ws_end(s: Seq<char>, i: int) -> int
    decreases s.len() - i,
{
    if 0 <= i < s.len() && is_ascii_ws(s[i]) {
        ascii_ws_end(s, i + 1)
    } else {
        i
    }
}

/// What expression mode reads from `pos`: `Ok((token, start, end))`,
/// after which the lexer continues at `end`, or `Err(at)` where no token
/// starts at `at` (after the whitespace).
pub open spec fn expr_step(s: Seq<char>, pos: int) -> Result<(LexTok, int, int), int> {
    if pos >= s.len() {
        Ok((LexTok::Eof, pos, pos))
    } else {
        let p = ws_end(s, pos);
        if p >= s.len() {
            Ok((LexTok::Eof, p, p))
        } else if has_at(s, p, "}}"@) {
            Ok((LexTok::InterpEnd, p, p + 2))
        } else {
            match token_at(s, p) {
                Some((t, e)) => Ok((LexTok::Expr(t), p, e)),
                None => Err(p),
            }
        }
    }
}

/// Where expression-mode reading stands: the position (a character
/// index), and the token already read ahead with its span in bytes, if
/// any.
pub struct Reading {
    pub pos: int,
    pub ahead: Option<(LexTok, int, int)>,
}

/// Where and why the input departs from the grammar: the span of the
/// token (or character) at fault, and the message.
pub struct Fault {
    pub span: (int, int),
    pub message: Seq<char>,
}

/// What remains to be read from `r` in `s` (see `Lexer::remaining`).
pub open spec fn rest(s: Seq<char>, r: Reading) -> int {
    2 * (s.len() - r.pos) + match r.ahead {
        Some(t) => if t.0 is Eof {
            0int
        } else {
            1int
        },
        None => 0int,
    }
}

/// The next expression-mode token and its span in bytes: the one read
/// ahead, else the one `expr_step` reads.
pub open spec fn take(s: Seq<char>, r: Reading) -> Result<((LexTok, int, int), Reading), Fault> {
    match r.ahead {
        Some(t) => Ok((t, Reading { pos: r.pos, ahead: None })),
        None => match expr_step(s, r.pos) {
            Ok(t) => Ok(((t.0, bpos(s, t.1), bpos(s, t.2)), Reading { pos: t.2, ahead: None })),
            Err(p) => Err(Fault { span: (bpos(s, p), bpos(s, p) + 1), message: "unexpected character"@ }),
        },
    }
}

/// The next expression-mode token and its span, kept as read ahead.
pub open spec fn look(s: Seq<char>, r: Reading) -> Result<((LexTok, int, int), Reading), Fault> {
    match r.ahead {
        Some(t) => Ok((t, r)),
        None => match expr_step(s, r.pos) {
            Ok(t) => {
                let u = (t.0, bpos(s, t.1), bpos(s, t.2));
                Ok((u, Reading { pos: t.2, ahead: Some(u) }))
            },
            Err(p) => Err(Fault { span: (bpos(s, p), bpos(s, p) + 1), message: "unexpected character"@ }),
        },
    }
}

/// The lexer: the source, the byte position of each of its characters
/// (and of its end), the position (a character index), a token peeked in
/// expression mode, and how many block bodies are open. Spans are byte
/// positions.
pub struct Lexer {
    pub chars: Vec<char>,
    pub offs: Vec<usize>,
    pub src: Arc<str>,
    pub pos: usize,
    pub peeked: Option<Spanned>,
    pub brace_depth: usize,
}

impl Lexer {
    /// The lexer's invariant: it reads `src` and stands within it.
    pub open spec fn wf(&self) -> bool {
        &&& self.chars@ == self.src@
        &&& self.pos <= self.chars@.len()
        &&& self.chars@.len() < usize::MAX - 2
        &&& blen(self.chars@) < usize::MAX - 2
        &&& self.offs@.len() == self.chars@.len() + 1
        &&& forall|k: int|
            0 <= k <= self.chars@.len() ==> #[trigger] self.offs@[k] == bpos(self.chars@, k)
        &&& match self.peeked {
            Some(sp) => sp.span.start <= sp.span.end <= bpos(self.chars@, self.pos as int)
                && sp.span.src == self.src,
            None => true,
        }
    }

    /// What remains to be read: twice the characters after the position,
    /// plus one for a peeked token other than the end of input. Every
    /// token that is not the end of input lowers it.
    pub open spec fn remaining(&self) -> int {
        2 * (self.chars@.len() - self.pos) + match self.peeked {
            Some(sp) => if sp.token is Eof {
                0int
            } else {
                1int
            },
            None => 0int,
        }
    }

    /// Where expression-mode reading stands.
    pub open spec fn reading(&self) -> Reading {
        Reading {
            pos: self.pos as int,
            ahead: match self.peeked {
                Some(sp) => Some((sp.token@, sp.span.start as int, sp.span.end as int)),
                None => None,
            },
        }
    }

    /// A span of this lexer's source.
    pub open spec fn span_ok(&self, sp: Span) -> bool {
        sp.start <= sp.end <= blen(self.chars@) && sp.src == self.src
    }

    pub fn new(source: &str, src: Arc<str>) -> (l: Lexer)
        requires
            src@ == source@,
            blen(source@) < usize::MAX - 2,
        ensures
            l.wf(),
            l.src == src,
            l.pos == 0,
            l.peeked is None,
            l.brace_depth == 0,
    {
        let chars = chars_of(source);
        let mut offs: Vec<usize> = Vec::new();
        offs.push(0);
        let mut i: usize = 0;
        let mut b: usize = 0;
        proof {
            lemma_bpos_from(chars@, 0);
        }
        while i < chars.len()
            invariant
                chars@ == source@,
                blen(chars@) < usize::MAX - 2,
                i <= chars@.len(),
                b == bpos(chars@, i as int),
                offs@.len() == i + 1,
                forall|k: int| 0 <= k <= i ==> #[trigger] offs@[k] == bpos(chars@, k),
            decreases chars@.len() - i,
        {
            proof {
                lemma_bpos_step(chars@, i as int);
                lemma_bpos_mono(chars@, i + 1, chars@.len() as int);
            }
            b = b + char_width(chars[i]);
            i = i + 1;
            offs.push(b);
        }
        proof {
            lemma_bpos_mono(chars@, 0, chars@.len() as int);
        }
        Lexer { chars, offs, src, pos: 0, peeked: None, brace_depth: 0 }
    }

    /// The span from character `start` to character `end`, in bytes.
    fn span(&self, start: usize, end: usize) -> (sp: Span)
        requires
            self.wf(),
            start <= end <= self.chars@.len(),
        ensures
            sp.start == bpos(self.chars@, start as int),
            sp.end == bpos(self.chars@, end as int),
            sp.src == self.src,
            sp.start <= sp.end <= blen(self.chars@),
    {
        proof {
            lemma_bpos_mono(self.chars@, start as int, end as int);
            lemma_bpos_mono(self.chars@, end as int, self.chars@.len() as int);
        }
        Span::new(self.offs[start], self.offs[end], self.src.clone())
    }

    /// The empty span at the position, in bytes.
    pub fn here(&self) -> (sp: Span)
        requires
            self.wf(),
        ensures
            sp.start == sp.end == bpos(self.chars@, self.pos as int),
            sp.src == self.src,
            sp.end <= blen(self.chars@),
    {
        self.span(self.pos, self.pos)
    }

    /// Enters a block body: `}` now ends text.
    pub fn open_brace(&mut self)
        ensures
            final(self).brace_depth == if old(self).brace_depth < usize::MAX {
                old(self).brace_depth + 1
            } else {
                old(self).brace_depth as int
            },
            final(self).chars == old(self).chars,
            final(self).offs == old(self).offs,
            final(self).src == old(self).src,
            final(self).pos == old(self).pos,
            final(self).peeked == old(self).peeked,
    {
        if self.brace_depth < usize::MAX {
            self.brace_depth += 1;
        }
    }

    /// Leaves a block body.
    pub fn close_brace(&mut self)
        ensures
            final(self).brace_depth == if old(self).brace_depth > 0 {
                old(self).brace_depth - 1
            } else {
                0int
            },
            final(self).chars == old(self).chars,
            final(self).offs == old(self).offs,
            final(self).src == old(self).src,
            final(self).pos == old(self).pos,
            final(self).peeked == old(self).peeked,
    {
        if self.brace_depth > 0 {
            self.brace_depth -= 1;
        }
    }

    /// Whether, after whitespace, the input continues with `@keyword`
    /// as a whole word. Consumes nothing.
    pub fn starts_with_at_keyword(&self, keyword: &str) -> (b: bool)
        requires
            self.wf(),
        ensures
            b == ({
                let p = ws_end(self.chars@, self.pos as int);
                p < self.chars@.len() && self.chars@[p] == '@' && keyword_follows(
                    self.chars@,
                    p,
                    keyword@,
                )
            }),
    {
        let p = self.ws_end_from(self.pos);
        if p >= self.chars.len() || self.chars[p] != '@' {
            return false;
        }
        self.keyword_follows_exec(p, keyword)
    }

    fn keyword_follows_exec(&self, p: usize, w: &str) -> (b: bool)
        requires
            self.wf(),
            p < self.chars@.len(),
        ensures
            b == keyword_follows(self.chars@, p as int, w@),
    {
        if !has_at_exec(&self.chars, p + 1, w) {
            return false;
        }
        let wl = chars_of(w).len();
        let end = p + 1 + wl;
        end >= self.chars.len() || (!is_ascii_alnum_exec(self.chars[end]) && self.chars[end]
            != '_')
    }

    fn ws_end_from(&self, i: usize) -> (p: usize)
        requires
            self.wf(),
            i <= self.chars@.len(),
        ensures
            p == ws_end(self.chars@, i as int),
            i <= p <= self.chars@.len(),
    {
        let mut p = i;
        while p < self.chars.len() && is_unicode_ws_exec(self.chars[p])
            invariant
                i <= p <= self.chars@.len(),
                ws_end(self.chars@, i as int) == ws_end(self.chars@, p as int),
            decreases self.chars@.len() - p,
        {
            p += 1;
        }
        p
    }

    /// Skips ASCII whitespace.
    pub fn skip_whitespace(&mut self)
        requires
            old(self).wf(),
        ensures
            final(self).wf(),
            final(self).pos == ascii_ws_end(old(self).chars@, old(self).pos as int),
            final(self).chars == old(self).chars,
            final(self).offs == old(self).offs,
            final(self).src == old(self).src,
            final(self).peeked == old(self).peeked,
            final(self).brace_depth == old(self).brace_depth,
            final(self).remaining() <= old(self).remaining(),
    {
        let ghost p0 = self.pos;
        proof {
            lemma_bpos_from(self.chars@, self.pos as int);
        }
        while self.pos < self.chars.len() && is_ascii_ws_exec(self.chars[self.pos])
            invariant
                self.wf(),
                p0 <= self.pos,
                self.chars == old(self).chars,
                self.offs == old(self).offs,
                self.src == old(self).src,
                self.peeked == old(self).peeked,
                self.brace_depth == old(self).brace_depth,
                ascii_ws_end(self.chars@, p0 as int) == ascii_ws_end(self.chars@, self.pos as int),
            decreases self.chars@.len() - self.pos,
        {
            proof {
                lemma_bpos_from(self.chars@, self.pos as int);
            }
            self.pos += 1;
        }
    }

    fn keyword_at(&self, p: usize) -> (r: Option<(LexToken, usize)>)
        requires
            self.wf(),
            p < self.chars@.len(),
        ensures
            match r {
                Some((t, n)) => at_keyword(self.chars@, p as int) == Some((t@, n as int)),
                None => at_keyword(self.chars@, p as int) is None,
            },
    {
        proof {
            reveal_strlit("if");
            reveal_strlit("else");
            reveal_strlit("for");
            reveal_strlit("switch");
            reveal_strlit("case");
            reveal_strlit("default");
            reveal_strlit("match");
            reveal_strlit("include");
            reveal_with_fuel(keyword_from, 9);
        }
        if self.keyword_follows_exec(p, "if") {
            return Some((LexToken::AtIf, 3));
        }
        if self.keyword_follows_exec(p, "else") {
            return Some((LexToken::AtElse, 5));
        }
        if self.keyword_follows_exec(p, "for") {
            return Some((LexToken::AtFor, 4));
        }
        if self.keyword_follows_exec(p, "switch") {
            return Some((LexToken::AtSwitch, 7));
        }
        if self.keyword_follows_exec(p, "case") {
            return Some((LexToken::AtCase, 5));
        }
        if self.keyword_follows_exec(p, "default") {
            return Some((LexToken::AtDefault, 8));
        }
        if self.keyword_follows_exec(p, "match") {
            return Some((LexToken::AtMatch, 6));
        }
        if self.keyword_follows_exec(p, "include") {
            return Some((LexToken::AtInclude, 8));
        }
        None
    }

    fn stops_at_exec(&self, t: usize) -> (r: Option<(LexToken, usize)>)
        requires
            self.wf(),
            t < self.chars@.len(),
        ensures
            match r {
                Some((k, e)) => stops_at(self.chars@, t as int, self.brace_depth) && stop_token(
                    self.chars@,
                    t as int,
                    self.brace_depth,
                ) == (k@, e as int) && t < e <= self.chars@.len(),
                None => !stops_at(self.chars@, t as int, self.brace_depth),
            },
    {
        let len = self.chars.len();
        if len - t > 1 && self.chars[t] == '{' && self.chars[t + 1] == '{' {
            return Some((LexToken::InterpStart, t + 2));
        }
        if self.brace_depth > 0 && self.chars[t] == '}' {
            return Some((LexToken::CloseBrace, t + 1));
        }
        if self.chars[t] == '@' {
            match self.keyword_at(t) {
                Some((k, n)) => {
                    proof {
                        lemma_keyword_len(self.chars@, t as int);
                    }
                    return Some((k, t + n));
                },
                None => {},
            }
        }
        None
    }

    /// Reads the next token in text mode (see `text_step`).
    pub fn next_text(&mut self) -> (r: Result<Spanned, ParseError>)
        requires
            old(self).wf(),
        ensures
            final(self).wf(),
            final(self).chars == old(self).chars,
            final(self).offs == old(self).offs,
            final(self).src == old(self).src,
            final(self).peeked == old(self).peeked,
            final(self).brace_depth == old(self).brace_depth,
            r matches Ok(sp) && ({
                let (k, a, b) = text_step(old(self).chars@, old(self).pos as int, old(self).brace_depth);
                &&& sp.token@ == k
                &&& sp.span.start == bpos(old(self).chars@, a)
                &&& sp.span.end == bpos(old(self).chars@, b)
                &&& sp.span.src == old(self).src
                &&& sp.span.start <= sp.span.end
                &&& sp.span.end <= blen(old(self).chars@)
                &&& final(self).pos == b
            }),
            final(self).remaining() <= old(self).remaining(),
            r matches Ok(sp) && !(sp.token is Eof) ==> final(self).remaining() < old(self).remaining(),
    {
        let start = self.pos;
        proof {
            lemma_bpos_from(self.chars@, self.pos as int);
        }
        let len = self.chars.len();
        if start >= len {
            return Ok(Spanned { token: LexToken::Eof, span: self.span(start, start) });
        }
        let mut t = start;
        while t < len
            invariant
                self.wf(),
                self.chars == old(self).chars,
                self.offs == old(self).offs,
                self.src == old(self).src,
                self.pos == start,
                self.peeked == old(self).peeked,
                self.brace_depth == old(self).brace_depth,
                start == old(self).pos,
                len == self.chars@.len(),
                start <= t <= len,
                start < len,
                first_stop(self.chars@, start as int, self.brace_depth) == first_stop(
                    self.chars@,
                    t as int,
                    self.brace_depth,
                ),
            decreases len - t,
        {
            proof {
                lemma_bpos_from(self.chars@, start as int);
            }
            match self.stops_at_exec(t) {
                Some((k, e)) => {
                    if t > start {
                        let text = string_of(&self.chars, start, t);
                        let span = self.span(start, t);
                        self.pos = t;
                        return Ok(Spanned { token: LexToken::Text(text), span });
                    }
                    let span = self.span(t, e);
                    self.pos = e;
                    return Ok(Spanned { token: k, span });
                },
                None => {},
            }
            t += 1;
        }
        let text = string_of(&self.chars, start, len);
        let span = self.span(start, len);
        self.pos = len;
        Ok(Spanned { token: LexToken::Text(text), span })
    }

    fn scan_expr(&mut self) -> (r: Result<Spanned, ParseError>)
        requires
            old(self).wf(),
        ensures
            final(self).chars == old(self).chars,
            final(self).src == old(self).src,
            final(self).peeked == old(self).peeked,
            final(self).brace_depth == old(self).brace_depth,
            final(self).offs == old(self).offs,
            old(self).pos <= final(self).pos <= old(self).chars@.len(),
            match expr_step(old(self).chars@, old(self).pos as int) {
                Ok((k, a, b)) => r matches Ok(sp) && sp.token@ == k && sp.span.start == bpos(
                    old(self).chars@,
                    a,
                ) && sp.span.end == bpos(old(self).chars@, b) && final(self).pos == b
                    && sp.span.src == old(self).src && sp.span.start <= sp.span.end <= blen(
                    old(self).chars@,
                ) && (!(k is Eof) ==> old(self).pos < final(self).pos),
                Err(p) => r matches Err(e) && e.span.start == bpos(old(self).chars@, p)
                    && e.span.end == bpos(old(self).chars@, p) + 1 && e.message@
                    == "unexpected character"@ && e.span.src == old(self).src,
            },
    {
        reveal(expr_step);
        proof {
            lemma_bpos_from(self.chars@, self.pos as int);
        }
        let len = self.chars.len();
        if self.pos >= len {
            return Ok(Spanned { token: LexToken::Eof, span: self.span(self.pos, self.pos) });
        }
        let p = self.ws_end_from(self.pos);
        self.pos = p;
        if p >= len {
            return Ok(Spanned { token: LexToken::Eof, span: self.span(p, p) });
        }
        if has_at_exec(&self.chars, p, "}}") {
            proof {
                reveal_strlit("}}");
            }
            self.pos = p + 2;
            return Ok(Spanned { token: LexToken::InterpEnd, span: self.span(p, p + 2) });
        }
        match scan_token(&self.chars, p) {
            Some((tok, e)) => {
                self.pos = e;
                Ok(Spanned { token: LexToken::Expr(tok), span: self.span(p, e) })
            },
            None => {
                let mut msg = String::new();
                push_str(&mut msg, "unexpected character");
                let at = self.offs[p];
                proof {
                    lemma_bpos_mono(self.chars@, p as int, self.chars@.len() as int);
                }
                Err(ParseError::new(msg, Span::new(at, at + 1, self.src.clone())))
            },
        }
    }

    /// Reads the next token in expression mode: the peeked token if there
    /// is one, else the token that `expr_step` reads.
    pub fn next_expr(&mut self) -> (r: Result<Spanned, ParseError>)
        requires
            old(self).wf(),
        ensures
            final(self).wf(),
            final(self).chars == old(self).chars,
            final(self).src == old(self).src,
            final(self).brace_depth == old(self).brace_depth,
            final(self).offs == old(self).offs,
            final(self).peeked is None,
            r matches Ok(sp) ==> final(self).span_ok(sp.span),
            r matches Err(e) ==> e.span.src == old(self).src,
            final(self).remaining() <= old(self).remaining(),
            r matches Ok(sp) && !(sp.token is Eof) ==> final(self).remaining() < old(self).remaining(),
            take(old(self).chars@, old(self).reading()) == match r {
                Ok(sp) => Ok::<((LexTok, int, int), Reading), Fault>(
                    ((sp.token@, sp.span.start as int, sp.span.end as int), final(self).reading()),
                ),
                Err(e) => Err(Fault { span: (e.span.start as int, e.span.end as int), message: e.message@ }),
            },
    {
        proof {
            lemma_bpos_from(self.chars@, self.pos as int);
        }
        let p = self.peeked.take();
        match p {
            Some(sp) => Ok(sp),
            None => self.scan_expr(),
        }
    }

    /// The next expression-mode token, without consuming it.
    pub fn peek_expr(&mut self) -> (r: Result<&Spanned, ParseError>)
        requires
            old(self).wf(),
        ensures
            final(self).wf(),
            final(self).chars == old(self).chars,
            final(self).src == old(self).src,
            final(self).brace_depth == old(self).brace_depth,
            final(self).offs == old(self).offs,
            match r {
                Ok(sp) => final(self).peeked == Some(*sp) && final(self).span_ok(sp.span),
                Err(e) => e.span.src == old(self).src,
            },
            final(self).remaining() <= old(self).remaining(),
            look(old(self).chars@, old(self).reading()) == match r {
                Ok(sp) => Ok::<((LexTok, int, int), Reading), Fault>(
                    ((sp.token@, sp.span.start as int, sp.span.end as int), final(self).reading()),
                ),
                Err(e) => Err(Fault { span: (e.span.start as int, e.span.end as int), message: e.message@ }),
            },
    {
        proof {
            lemma_bpos_from(self.chars@, self.pos as int);
        }
        if self.peeked.is_none() {
            let sp = self.scan_expr()?;
            self.peeked = Some(sp);
        }
        match &self.peeked {
            Some(sp) => Ok(sp),
            None => {
                proof { assert(false); }
                Err(ParseError::new(String::new(), self.span(0, 0)))
            },
        }
    }
}

/// What remains to be read, by the lexer's count and by the reading's.
pub proof fn lemma_rest(l: &Lexer)
    ensures
        rest(l.chars@, l.reading()) == l.remaining(),
{
}

proof fn lemma_keyword_len(s: Seq<char>, p: int)
    requires
        at_keyword(s, p) is Some,
        0 <= p < s.len(),
    ensures
        ({
            let (k, n) = at_keyword(s, p).unwrap();
            1 <= n && p + n <= s.len()
        }),
{
    reveal_with_fuel(keyword_from, 9);
}

/// Text mode stops no earlier than where it starts and no later than the
/// end.
proof fn lemma_first_stop_bounds(s: Seq<char>, t: int, depth: usize)
    requires
        0 <= t,
    ensures
        t <= first_stop(s, t, depth) || t >= s.len(),
        first_stop(s, t, depth) <= s.len(),
        first_stop(s, t, depth) == t && t < s.len() ==> stops_at(s, t, depth),
    decreases s.len() - t,
{
    if t < s.len() && !stops_at(s, t, depth) {
        lemma_first_stop_bounds(s, t + 1, depth);
    }
}

/// A text token that text mode reads holds exactly the source it spans.
pub proof fn lemma_text_step_text(s: Seq<char>, pos: int, depth: usize)
    requires
        0 <= pos <= s.len(),
    ensures
        ({
            let (k, a, b) = text_step(s, pos, depth);
            &&& pos <= a <= b <= s.len()
            &&& k matches LexTok::Text(w) ==> w == s.subrange(a, b)
        }),
{
    if pos < s.len() {
        lemma_first_stop_bounds(s, pos, depth);
        let t = first_stop(s, pos, depth);
        if t <= pos {
            reveal_with_fuel(keyword_from, 9);
            if at_keyword(s, t) is Some {
                lemma_keyword_len(s, t);
            }
        }
    }
}

} // verus!
