//! The template parser: recursive descent over the lexer's two modes,
//! with precedence climbing for binary operators.

use std::sync::Arc;
use vstd::prelude::*;

use crate::ast::{
    block_within, expr_span, expr_within, lemma_branches_within, lemma_cases_within,
    lemma_entries_within, lemma_exprs_within, lemma_node_arms_push, lemma_nodes_within,
    node_arms_within, node_within, nodes_within, span_within, ArrayExpr, BinaryExpr, BlockNode, CallExpr, Expr, ForNode, IdentExpr, IfBranch,
    IfNode, IncludeNode, IndexExpr, InterpNode, Literal, MatchNode, MatchNodeArm, MemberExpr, Node,
    ObjectExpr, PipeExpr, SwitchCase, SwitchNode, TextNode, UnaryExpr, ValueExpr,
};
use crate::error::ParseError;
use crate::grammar::{
    expr_result, g_args, g_atom, g_binary, g_binary_tail, g_entries_tail, g_entry, g_expect, g_expr,
    g_interp_end, g_list_tail, g_pipe, g_pipe_args, g_pipe_tail, g_postfix, g_postfix_tail,
    g_unary, gram, is_symbol, is_tok, pipe_rest, tok_binary_op, body_span, end_span, node_of,
    nodes_of, t_block, t_node, t_nodes, t_rule, template_model, tgram, PState, TGoal, fault_of,
    switch_read,
    lex_token_name, tok_name, tok_payload, tok_variant,
};
use crate::lexer::{
    first_stop, lemma_rest, lemma_text_step_text, rest, stops_at, text_step, Fault, LexToken, Lexer, Reading,
    Spanned,
};
use crate::tree::{
    entries_view, expr_view, exprs_view, lemma_entries_view_push, lemma_exprs_view_push,
    lemma_exprs_view, lemma_span_of_view, respan, span_v, ExprV, block_view, branches_view,
    cases_view, lemma_branches_view_push, lemma_cases_view_push, lemma_node_arms_view_push,
    lemma_node_span_of_view, lemma_nodes_view, lemma_nodes_view_push, node_arms_view, node_view,
    join, nodes_view, BlockV, NodeV,
};
use crate::op::{BinaryOp, UnaryOp};
use crate::span::Span;
use crate::template::Template;
use crate::text::{
    blen, bpos, char_width, chars_of, is_unicode_ws, is_unicode_ws_exec, lemma_bpos_from,
    lemma_bpos_mono, lemma_bpos_step, lemma_bytes_sub, push_debug_quoted, push_int, push_str,
};
use crate::token::{Tok, Token};

verus! {

broadcast use {lemma_span_of_view, lemma_node_span_of_view};

/// The parser: a lexer over the source, and whether the `}` that closes
/// the enclosing block body was already read, as the second brace of a
/// `}}` that closed an `@match`.
pub struct Parser {
    pub lexer: Lexer,
    pub pending_close: bool,
}

/// The name of a template-level token (see `lex_token_name`).
fn token_name(t: &LexToken) -> (s: String)
    ensures
        s@ == lex_token_name(t@),
{
    let mut s = String::new();
    match t {
        LexToken::Text(w) => {
            push_str(&mut s, "Text(");
            push_debug_quoted(&mut s, w.as_str());
            push_str(&mut s, ")");
        },
        LexToken::InterpStart => push_str(&mut s, "InterpStart"),
        LexToken::InterpEnd => push_str(&mut s, "InterpEnd"),
        LexToken::AtIf => push_str(&mut s, "AtIf"),
        LexToken::AtElse => push_str(&mut s, "AtElse"),
        LexToken::AtFor => push_str(&mut s, "AtFor"),
        LexToken::AtSwitch => push_str(&mut s, "AtSwitch"),
        LexToken::AtCase => push_str(&mut s, "AtCase"),
        LexToken::AtDefault => push_str(&mut s, "AtDefault"),
        LexToken::AtMatch => push_str(&mut s, "AtMatch"),
        LexToken::AtInclude => push_str(&mut s, "AtInclude"),
        LexToken::CloseBrace => push_str(&mut s, "CloseBrace"),
        LexToken::Expr(tok) => {
            push_str(&mut s, "Expr(");
            push_str(&mut s, expr_token_name(tok));
            match tok {
                Token::Float(x) => {
                    push_str(&mut s, "(");
                    push_str(&mut s, x.as_str());
                    push_str(&mut s, ")");
                },
                Token::Int(i) => {
                    push_str(&mut s, "(");
                    push_int(&mut s, *i);
                    push_str(&mut s, ")");
                },
                Token::String(x) => {
                    push_str(&mut s, "(");
                    push_debug_quoted(&mut s, x.as_str());
                    push_str(&mut s, ")");
                },
                Token::Ident(x) => {
                    push_str(&mut s, "(");
                    push_debug_quoted(&mut s, x.as_str());
                    push_str(&mut s, ")");
                },
                _ => {
                    assert(tok_payload(tok@) =~= Seq::<char>::empty());
                },
            }
            push_str(&mut s, ")");
        },
        LexToken::Eof => push_str(&mut s, "Eof"),
    }
    s
}

/// The name of an expression token's kind (see `tok_variant`).
fn expr_token_name(t: &Token) -> (s: &'static str)
    ensures
        s@ == tok_variant(t@),
{
    match t {
        Token::Float(_) => "Float",
        Token::Int(_) => "Int",
        Token::String(_) => "String",
        Token::True => "True",
        Token::False => "False",
        Token::Null => "Null",
        Token::Of => "Of",
        Token::Track => "Track",
        Token::Ident(_) => "Ident",
        Token::Plus => "Plus",
        Token::Minus => "Minus",
        Token::Star => "Star",
        Token::Slash => "Slash",
        Token::Percent => "Percent",
        Token::EqEq => "EqEq",
        Token::BangEq => "BangEq",
        Token::Lt => "Lt",
        Token::Le => "Le",
        Token::Gt => "Gt",
        Token::Ge => "Ge",
        Token::AmpAmp => "AmpAmp",
        Token::PipePipe => "PipePipe",
        Token::Bang => "Bang",
        Token::FatArrow => "FatArrow",
        Token::LParen => "LParen",
        Token::RParen => "RParen",
        Token::LBracket => "LBracket",
        Token::RBracket => "RBracket",
        Token::LBrace => "LBrace",
        Token::RBrace => "RBrace",
        Token::Dot => "Dot",
        Token::Comma => "Comma",
        Token::Pipe => "Pipe",
        Token::Colon => "Colon",
        Token::Semi => "Semi",
    }
}

/// An error at the token's span whose message is `prefix` followed by the
/// token's name (see `got`).
fn unexpected(prefix: &str, sp: &Spanned) -> (e: ParseError)
    ensures
        e.span == sp.span,
        e.message@ == prefix@ + lex_token_name(sp.token@),
{
    let mut m = String::new();
    push_str(&mut m, prefix);
    let n = token_name(&sp.token);
    push_str(&mut m, n.as_str());
    ParseError::new(m, sp.span.copy())
}

/// Whether two expression tokens are the same punctuation or keyword.
fn same_symbol(a: &Token, b: &Token) -> (r: bool)
    ensures
        r ==> a@ == b@,
        is_symbol(b@) ==> r == (a@ == b@),
{
    match (a, b) {
        (Token::True, Token::True) => true,
        (Token::False, Token::False) => true,
        (Token::Null, Token::Null) => true,
        (Token::Of, Token::Of) => true,
        (Token::Track, Token::Track) => true,
        (Token::Plus, Token::Plus) => true,
        (Token::Minus, Token::Minus) => true,
        (Token::Star, Token::Star) => true,
        (Token::Slash, Token::Slash) => true,
        (Token::Percent, Token::Percent) => true,
        (Token::EqEq, Token::EqEq) => true,
        (Token::BangEq, Token::BangEq) => true,
        (Token::Lt, Token::Lt) => true,
        (Token::Le, Token::Le) => true,
        (Token::Gt, Token::Gt) => true,
        (Token::Ge, Token::Ge) => true,
        (Token::AmpAmp, Token::AmpAmp) => true,
        (Token::PipePipe, Token::PipePipe) => true,
        (Token::Bang, Token::Bang) => true,
        (Token::FatArrow, Token::FatArrow) => true,
        (Token::LParen, Token::LParen) => true,
        (Token::RParen, Token::RParen) => true,
        (Token::LBracket, Token::LBracket) => true,
        (Token::RBracket, Token::RBracket) => true,
        (Token::LBrace, Token::LBrace) => true,
        (Token::RBrace, Token::RBrace) => true,
        (Token::Dot, Token::Dot) => true,
        (Token::Comma, Token::Comma) => true,
        (Token::Pipe, Token::Pipe) => true,
        (Token::Colon, Token::Colon) => true,
        (Token::Semi, Token::Semi) => true,
        _ => false,
    }
}

/// Whether a token is the expression token `t`.
fn is_expr_token(sp: &Spanned, t: &Token) -> (r: bool)
    ensures
        r ==> sp.token@ == crate::lexer::LexTok::Expr(t@),
        is_symbol(t@) ==> r == is_tok(sp.token@, t@),
{
    match &sp.token {
        LexToken::Expr(tok) => same_symbol(tok, t),
        _ => false,
    }
}

/// The expression with its outermost span replaced.
fn with_span(e: Expr, span: Span) -> (r: Expr)
    ensures
        expr_span(r) == span,
        expr_view(r) == respan(expr_view(e), span_v(span)),
        forall|src: Seq<char>|
            expr_within(e, src) && span_within(span, src) ==> #[trigger] expr_within(r, src),
{
    match e {
        Expr::Value(mut x) => {
            x.span = span;
            Expr::Value(x)
        },
        Expr::Ident(mut x) => {
            x.span = span;
            Expr::Ident(x)
        },
        Expr::Member(mut x) => {
            x.span = span;
            Expr::Member(x)
        },
        Expr::Index(mut x) => {
            x.span = span;
            Expr::Index(x)
        },
        Expr::Call(mut x) => {
            x.span = span;
            Expr::Call(x)
        },
        Expr::Pipe(mut x) => {
            x.span = span;
            Expr::Pipe(x)
        },
        Expr::Binary(mut x) => {
            x.span = span;
            Expr::Binary(x)
        },
        Expr::Unary(mut x) => {
            x.span = span;
            Expr::Unary(x)
        },
        Expr::Array(mut x) => {
            x.span = span;
            Expr::Array(x)
        },
        Expr::Object(mut x) => {
            x.span = span;
            Expr::Object(x)
        },
        Expr::Match(mut x) => {
            x.span = span;
            Expr::Match(x)
        },
    }
}

/// Whether a string holds only Unicode whitespace.
fn is_blank(s: &String) -> (r: bool)
    ensures
        r == forall|i: int| 0 <= i < s@.len() ==> is_unicode_ws(#[trigger] s@[i]),
{
    let v = chars_of(s.as_str());
    let mut i: usize = 0;
    while i < v.len()
        invariant
            v@ == s@,
            i <= v@.len(),
            forall|j: int| 0 <= j < i ==> is_unicode_ws(#[trigger] v@[j]),
        decreases v@.len() - i,
    {
        if !is_unicode_ws_exec(v[i]) {
            return false;
        }
        i += 1;
    }
    true
}

/// Whether text mode reads `s[p..]` as one run of text: from `p` on there
/// is no `{{` and no `@` keyword.
pub open spec fn plain_from(s: Seq<char>, p: int) -> bool {
    forall|t: int| p <= t < s.len() ==> !#[trigger] stops_at(s, t, 0)
}

/// Whether a template source is plain text: it holds no `{{` and no `@`
/// keyword.
pub open spec fn is_plain_text(s: Seq<char>) -> bool {
    plain_from(s, 0)
}

/// Whether `t` is the template of plain text `s`: no node for empty text,
/// else one text node holding all of it and spanning all of its bytes.
pub open spec fn parses_as_text(t: Template, s: Seq<char>) -> bool {
    let nodes = t.body().nodes@;
    if s.len() == 0 {
        nodes.len() == 0
    } else {
        &&& nodes.len() == 1
        &&& nodes[0] matches Node::Text(x)
        &&& x.text@ == s
        &&& x.span.start == 0
        &&& x.span.end == blen(s)
    }
}

proof fn lemma_first_stop_plain(s: Seq<char>, p: int)
    requires
        0 <= p <= s.len(),
        plain_from(s, p),
    ensures
        first_stop(s, p, 0) == s.len(),
    decreases s.len() - p,
{
    if p < s.len() {
        assert(!stops_at(s, p, 0));
        lemma_first_stop_plain(s, p + 1);
    }
}

impl Parser {
    /// The parser's invariant: its lexer's.
    pub open spec fn wf(&self) -> bool {
        self.lexer.wf()
    }

    /// Whether `self` reads the same source as `other`.
    pub open spec fn same_source(&self, other: &Parser) -> bool {
        self.lexer.chars == other.lexer.chars && self.lexer.src == other.lexer.src
    }

    /// Whether `self` has the same block bodies open as `other`, and the
    /// same `}` pending.
    pub open spec fn keeps_blocks(&self, other: &Parser) -> bool {
        self.lexer.brace_depth == other.lexer.brace_depth && self.pending_close == other.pending_close
    }

    /// Where template parsing stands (see `PState`).
    pub open spec fn state(&self) -> PState {
        PState {
            rd: self.lexer.reading(),
            depth: self.lexer.brace_depth,
            pending: self.pending_close,
        }
    }

    /// The parser has not read backwards.
    pub open spec fn advanced(&self, other: &Parser) -> bool {
        &&& self.wf()
        &&& self.same_source(other)
        &&& self.lexer.remaining() <= other.lexer.remaining()
    }

    pub fn new(source: &str, src: Arc<str>) -> (p: Parser)
        requires
            src@ == source@,
            blen(source@) < usize::MAX - 2,
        ensures
            p.wf(),
            p.lexer.src == src,
            p.lexer.pos == 0,
            p.lexer.brace_depth == 0,
            p.lexer.peeked is None,
            !p.pending_close,
    {
        Parser { lexer: Lexer::new(source, src), pending_close: false }
    }

    /// A span at the end of the source.
    fn last_span(&self) -> (s: Span)
        requires
            self.wf(),
        ensures
            s.src == self.lexer.src,
            s.start == s.end == blen(self.lexer.chars@),
    {
        let n = self.lexer.offs[self.lexer.chars.len()];
        proof {
            lemma_bpos_from(self.lexer.chars@, 0);
        }
        Span::new(n, n, self.lexer.src.clone())
    }

    /// Parses the whole template.
    pub fn parse(&mut self) -> (r: Result<Template, ParseError>)
        requires
            old(self).wf(),
        ensures
            r matches Err(e) ==> e.span.src == old(self).lexer.src,
            r matches Ok(t) ==> t.source() == old(self).lexer.src@,
            r matches Ok(t) ==> block_within(t.body(), old(self).lexer.src@),
            old(self).lexer.pos == 0 && old(self).lexer.brace_depth == 0 && !old(self).pending_close
                && is_plain_text(old(self).lexer.chars@) ==> (r matches Ok(t) && parses_as_text(
                t,
                old(self).lexer.chars@,
            )),
            match t_nodes(old(self).lexer.chars@, old(self).state()) {
                Ok((ns, _)) => r matches Ok(t) && block_view(t.body()) == (BlockV {
                    nodes: ns,
                    span: body_span(ns),
                }),
                Err(f) => r matches Err(e) && fault_of(e) == f,
            },
    {
        let nodes = self.parse_nodes()?;
        proof {
            let c = old(self).lexer.chars@;
            assert(c.subrange(0, c.len() as int) == c);
            lemma_bpos_from(c, 0);
            lemma_nodes_within(nodes@, c);
            lemma_nodes_view(nodes@);
        }
        let span = if nodes.len() == 0 {
            Span::new(0, 0, self.lexer.src.clone())
        } else {
            let first = nodes[0].span();
            let last = nodes[nodes.len() - 1].span();
            assert(node_within(nodes@[0], old(self).lexer.chars@));
            assert(node_within(nodes@[nodes.len() - 1], old(self).lexer.chars@));
            first.merge(&last)
        };
        assert(span_within(span, old(self).lexer.chars@));
        let block = BlockNode { nodes, span };
        proof {
            assert(block_view(block).span == body_span(nodes_view(block.nodes@)));
        }
        Ok(Template::new(self.lexer.src.clone(), block))
    }

    // ── Template-level parsing ──────────────────────────────────────

    fn parse_nodes(&mut self) -> (r: Result<Vec<Node>, ParseError>)
        requires
            old(self).wf(),
        ensures
            final(self).advanced(old(self)),
            r matches Err(e) ==> e.span.src == old(self).lexer.src,
            r matches Ok(ns) ==> forall|i: int|
                0 <= i < ns@.len() ==> #[trigger] node_within(ns@[i], old(self).lexer.chars@),
            old(self).lexer.brace_depth == 0 && !old(self).pending_close && plain_from(
                old(self).lexer.chars@,
                old(self).lexer.pos as int,
            ) ==> {
                &&& r matches Ok(nodes)
                &&& if old(self).lexer.pos < old(self).lexer.chars@.len() {
                    &&& nodes@.len() == 1
                    &&& nodes@[0] matches Node::Text(x)
                    &&& x.text@ == old(self).lexer.chars@.subrange(
                        old(self).lexer.pos as int,
                        old(self).lexer.chars@.len() as int,
                    )
                    &&& x.span.start == bpos(old(self).lexer.chars@, old(self).lexer.pos as int)
                    &&& x.span.end == blen(old(self).lexer.chars@)
                } else {
                    nodes@.len() == 0
                }
            },
            t_nodes(old(self).lexer.chars@, old(self).state()) == match r {
                Ok(ns) => Ok::<(Seq<NodeV>, PState), Fault>((nodes_view(ns@), final(self).state())),
                Err(e) => Err(fault_of(e)),
            },
        decreases old(self).lexer.remaining(), 30nat,
    {
        reveal(tgram);
        let ghost s = self.lexer.chars@;
        let ghost st0 = self.state();
        let ghost plain = old(self).lexer.brace_depth == 0 && !old(self).pending_close && plain_from(
            old(self).lexer.chars@,
            old(self).lexer.pos as int,
        );
        let ghost start = old(self).lexer.pos as int;
        let mut nodes: Vec<Node> = Vec::new();
        proof {
            assert(nodes_view(nodes@) =~= Seq::<NodeV>::empty());
        }
        loop
            invariant_except_break
                t_nodes(s, st0) == nodes_of(
                    tgram(s, self.state(), TGoal::NodesTail(nodes_view(nodes@))),
                ),
            invariant
                self.advanced(old(self)),
                s == old(self).lexer.chars@,
                st0 == old(self).state(),
                plain == (old(self).lexer.brace_depth == 0 && !old(self).pending_close && plain_from(
                    old(self).lexer.chars@,
                    old(self).lexer.pos as int,
                )),
                start == old(self).lexer.pos as int,
                forall|i: int|
                    0 <= i < nodes@.len() ==> #[trigger] node_within(nodes@[i], old(self).lexer.chars@),
                plain ==> {
                    &&& self.lexer.brace_depth == 0
                    &&& !self.pending_close
                    &&& plain_from(self.lexer.chars@, self.lexer.pos as int)
                    &&& {
                        ||| nodes@.len() == 0 && self.lexer.pos == start
                        ||| {
                            &&& nodes@.len() == 1
                            &&& nodes@[0] matches Node::Text(x)
                            &&& x.text@ == self.lexer.chars@.subrange(
                                start,
                                self.lexer.chars@.len() as int,
                            )
                            &&& x.span.start == bpos(self.lexer.chars@, start)
                            &&& x.span.end == blen(self.lexer.chars@)
                            &&& self.lexer.pos == self.lexer.chars@.len()
                            &&& start < self.lexer.chars@.len()
                        }
                    }
                },
            ensures
                plain ==> (nodes@.len() == 0 ==> start >= self.lexer.chars@.len()),
                t_nodes(s, st0) == Ok::<(Seq<NodeV>, PState), Fault>((nodes_view(nodes@), self.state())),
            decreases self.lexer.remaining(),
        {
            reveal(tgram);
            proof {
                lemma_rest(&self.lexer);
            }
            match self.parse_node()? {
                Some(node) => {
                    proof {
                        lemma_rest(&self.lexer);
                        lemma_nodes_view_push(nodes@, node);
                    }
                    nodes.push(node);
                },
                None => break,
            }
        }
        Ok(nodes)
    }

    #[verifier::rlimit(100)]
    #[verifier::spinoff_prover]
    fn parse_node(&mut self) -> (r: Result<Option<Node>, ParseError>)
        requires
            old(self).wf(),
        ensures
            final(self).advanced(old(self)),
            r matches Err(e) ==> e.span.src == old(self).lexer.src,
            r matches Ok(Some(_)) ==> final(self).lexer.remaining() < old(self).lexer.remaining(),
            r matches Ok(Some(n)) ==> node_within(n, old(self).lexer.chars@),
            old(self).lexer.brace_depth == 0 && !old(self).pending_close && plain_from(
                old(self).lexer.chars@,
                old(self).lexer.pos as int,
            ) ==> {
                &&& final(self).lexer.brace_depth == 0
                &&& !final(self).pending_close
                &&& if old(self).lexer.pos < old(self).lexer.chars@.len() {
                    &&& r matches Ok(Some(Node::Text(x)))
                    &&& x.text@ == old(self).lexer.chars@.subrange(
                        old(self).lexer.pos as int,
                        old(self).lexer.chars@.len() as int,
                    )
                    &&& x.span.start == bpos(old(self).lexer.chars@, old(self).lexer.pos as int)
                    &&& x.span.end == blen(old(self).lexer.chars@)
                    &&& final(self).lexer.pos == old(self).lexer.chars@.len()
                } else {
                    &&& r matches Ok(None)
                    &&& final(self).lexer.pos == old(self).lexer.pos
                }
            },
            t_node(old(self).lexer.chars@, old(self).state()) == match r {
                Ok(Some(n)) => Ok::<(Option<NodeV>, PState), Fault>((Some(node_view(n)), final(self).state())),
                Ok(None) => Ok::<(Option<NodeV>, PState), Fault>((None, final(self).state())),
                Err(e) => Err(fault_of(e)),
            },
        decreases old(self).lexer.remaining(), 29nat,
    {
        reveal(tgram);
        if self.pending_close {
            self.pending_close = false;
            return Ok(None);
        }
        proof {
            lemma_text_step_text(self.lexer.chars@, self.lexer.pos as int, self.lexer.brace_depth);
            if self.lexer.brace_depth == 0 && plain_from(self.lexer.chars@, self.lexer.pos as int) {
                lemma_first_stop_plain(self.lexer.chars@, self.lexer.pos as int);
            }
            lemma_rest(&self.lexer);
            lemma_bpos_from(self.lexer.chars@, self.lexer.pos as int);
            let t = text_step(self.lexer.chars@, self.lexer.pos as int, self.lexer.brace_depth);
            lemma_bytes_sub(self.lexer.chars@, t.1, t.2);
        }
        let sp = self.lexer.next_text()?;
        proof {
            lemma_rest(&self.lexer);
        }
        match sp.token {
            LexToken::Text(s) => Ok(Some(Node::Text(TextNode { text: s, span: sp.span }))),
            LexToken::InterpStart => {
                let expr = self.parse_expr()?;
                let end = self.expect_interp_end()?;
                let span = sp.span.merge(&end.span);
                Ok(Some(Node::Interp(InterpNode { expr, span })))
            },
            LexToken::AtIf => {
                let node = self.parse_if(&sp.span)?;
                Ok(Some(Node::If(node)))
            },
            LexToken::AtFor => {
                let node = self.parse_for(&sp.span)?;
                Ok(Some(Node::For(node)))
            },
            LexToken::AtSwitch => {
                let node = self.parse_switch(&sp.span)?;
                Ok(Some(Node::Switch(node)))
            },
            LexToken::AtMatch => {
                let node = self.parse_match(&sp.span)?;
                Ok(Some(Node::Match(node)))
            },
            LexToken::AtInclude => {
                let node = self.parse_include(&sp.span)?;
                Ok(Some(Node::Include(node)))
            },
            LexToken::CloseBrace | LexToken::Eof => Ok(None),
            other => {
                let sp2 = Spanned { token: other, span: sp.span };
                Err(unexpected("unexpected token: ", &sp2))
            },
        }
    }

    #[verifier::rlimit(100)]
    #[verifier::spinoff_prover]
    fn parse_if(&mut self, start: &Span) -> (r: Result<IfNode, ParseError>)
        requires
            old(self).wf(),
            span_within(*start, old(self).lexer.chars@),
        ensures
            final(self).advanced(old(self)),
            r matches Err(e) ==> e.span.src == old(self).lexer.src,
            r matches Ok(x) ==> node_within(Node::If(x), old(self).lexer.chars@),
            t_rule(old(self).lexer.chars@, old(self).state(), TGoal::If(span_v(*start))) == match r {
                Ok(x) => Ok::<(Option<NodeV>, PState), Fault>(
                    (Some(node_view(Node::If(x))), final(self).state()),
                ),
                Err(e) => Err(fault_of(e)),
            },
        decreases old(self).lexer.remaining(), 20nat,
    {
        reveal(tgram);
        let ghost s = self.lexer.chars@;
        let ghost st0 = self.state();
        let ghost sv = span_v(*start);
        proof {
            lemma_rest(&self.lexer);
        }
        let mut branches: Vec<IfBranch> = Vec::new();
        self.expect_expr_token(&Token::LParen)?;
        let condition = self.parse_expr()?;
        self.expect_expr_token(&Token::RParen)?;
        proof {
            lemma_rest(&self.lexer);
        }
        let body = self.parse_block_body()?;
        proof {
            lemma_rest(&self.lexer);
        }
        let bspan = start.merge(&self.last_span());
        let ghost b0 = IfBranch { condition, body, span: bspan };
        branches.push(IfBranch { condition, body, span: bspan });
        proof {
            lemma_branches_view_push(Seq::empty(), b0);
            assert(branches_view(Seq::<IfBranch>::empty()) =~= Seq::<(ExprV, BlockV, (int, int))>::empty());
            assert(Seq::<IfBranch>::empty().push(b0) == branches@);
        }

        let mut else_body: Option<BlockNode> = None;
        loop
            invariant_except_break
                else_body is None,
                t_rule(s, st0, TGoal::If(sv)) == node_of(
                    tgram(s, self.state(), TGoal::IfTail(branches_view(branches@), sv)),
                ),
            invariant
                self.advanced(old(self)),
                self.lexer.remaining() < old(self).lexer.remaining(),
                s == old(self).lexer.chars@,
                st0 == old(self).state(),
                sv == span_v(*start),
                span_within(*start, old(self).lexer.chars@),
                forall|k: int|
                    0 <= k < branches@.len() ==> {
                        &&& span_within(#[trigger] branches@[k].span, old(self).lexer.chars@)
                        &&& expr_within(branches@[k].condition, old(self).lexer.chars@)
                        &&& block_within(branches@[k].body, old(self).lexer.chars@)
                    },
                match else_body {
                    Some(b) => block_within(b, old(self).lexer.chars@),
                    None => true,
                },
            ensures
                t_rule(s, st0, TGoal::If(sv)) == Ok::<(Option<NodeV>, PState), Fault>(
                    (
                        Some(
                            NodeV::If {
                                branches: branches_view(branches@),
                                else_body: match else_body {
                                    Some(b) => Some(block_view(b)),
                                    None => None,
                                },
                                span: join(sv, end_span(s)),
                            },
                        ),
                        self.state(),
                    ),
                ),
            decreases self.lexer.remaining(),
        {
            reveal(tgram);
            proof {
                lemma_rest(&self.lexer);
            }
            if !self.lexer.starts_with_at_keyword("else") {
                break;
            }
            self.lexer.skip_whitespace();
            let sp = self.lexer.next_text()?;
            proof {
                lemma_rest(&self.lexer);
            }
            if !matches!(sp.token, LexToken::AtElse) {
                return Err(unexpected("expected @else, got ", &sp));
            }
            if self.lexer.starts_with_at_keyword("if") {
                self.lexer.skip_whitespace();
                let sp_if = self.lexer.next_text()?;
                if !matches!(sp_if.token, LexToken::AtIf) {
                    return Err(unexpected("expected @if, got ", &sp_if));
                }
                self.expect_expr_token(&Token::LParen)?;
                let condition = self.parse_expr()?;
                self.expect_expr_token(&Token::RParen)?;
                proof {
                    lemma_rest(&self.lexer);
                }
                let body = self.parse_block_body()?;
                proof {
                    lemma_rest(&self.lexer);
                }
                let bspan = sp.span.merge(&self.last_span());
                let ghost b = IfBranch { condition, body, span: bspan };
                proof {
                    lemma_branches_view_push(branches@, b);
                }
                branches.push(IfBranch { condition, body, span: bspan });
                continue;
            }
            else_body = Some(self.parse_block_body()?);
            break;
        }
        let span = start.merge(&self.last_span());
        proof {
            lemma_branches_within(branches@, old(self).lexer.chars@);
        }
        Ok(IfNode { branches, else_body, span })
    }

    #[verifier::rlimit(100)]
    #[verifier::spinoff_prover]
    fn parse_for(&mut self, start: &Span) -> (r: Result<ForNode, ParseError>)
        requires
            old(self).wf(),
            span_within(*start, old(self).lexer.chars@),
        ensures
            final(self).advanced(old(self)),
            r matches Err(e) ==> e.span.src == old(self).lexer.src,
            r matches Ok(x) ==> node_within(Node::For(x), old(self).lexer.chars@),
            t_rule(old(self).lexer.chars@, old(self).state(), TGoal::For(span_v(*start))) == match r {
                Ok(x) => Ok::<(Option<NodeV>, PState), Fault>(
                    (Some(node_view(Node::For(x))), final(self).state()),
                ),
                Err(e) => Err(fault_of(e)),
            },
        decreases old(self).lexer.remaining(), 20nat,
    {
        reveal(tgram);
        proof {
            lemma_rest(&self.lexer);
        }
        self.expect_expr_token(&Token::LParen)?;
        let binding_sp = self.lexer.next_expr()?;
        let binding = match binding_sp.token {
            LexToken::Expr(Token::Ident(s)) => s,
            other => {
                let sp2 = Spanned { token: other, span: binding_sp.span };
                return Err(unexpected("expected identifier, got ", &sp2));
            },
        };
        let of_sp = self.lexer.next_expr()?;
        if !is_expr_token(&of_sp, &Token::Of) {
            return Err(unexpected("expected 'of', got ", &of_sp));
        }
        let iterable = self.parse_expr()?;
        self.expect_expr_token(&Token::Semi)?;
        let track_sp = self.lexer.next_expr()?;
        if !is_expr_token(&track_sp, &Token::Track) {
            return Err(unexpected("expected 'track', got ", &track_sp));
        }
        let track = self.parse_expr()?;
        self.expect_expr_token(&Token::RParen)?;
        proof {
            lemma_rest(&self.lexer);
        }
        let body = self.parse_block_body()?;
        let span = start.merge(&self.last_span());
        Ok(ForNode { binding, iterable, track, body, span })
    }

    /// Reads the next token of an `@switch` body in text mode, skipping
    /// one run of text that is only whitespace (see `switch_read`).
    fn next_switch_token(&mut self) -> (r: Result<Spanned, ParseError>)
        requires
            old(self).wf(),
        ensures
            final(self).advanced(old(self)),
            final(self).keeps_blocks(old(self)),
            r matches Ok(sp) && ({
                let (t, st) = switch_read(old(self).lexer.chars@, old(self).state());
                &&& (sp.token@, sp.span.start as int, sp.span.end as int) == t
                &&& final(self).state() == st
                &&& sp.span.src == old(self).lexer.src
                &&& sp.span.start <= sp.span.end <= blen(old(self).lexer.chars@)
                &&& !(sp.token is Eof) ==> final(self).lexer.remaining() < old(self).lexer.remaining()
            }),
    {
        let first = self.lexer.next_text()?;
        match &first.token {
            LexToken::Text(s) => {
                if is_blank(s) {
                    self.lexer.next_text()
                } else {
                    Ok(first)
                }
            },
            _ => Ok(first),
        }
    }

    #[verifier::rlimit(100)]
    #[verifier::spinoff_prover]
    fn parse_switch(&mut self, start: &Span) -> (r: Result<SwitchNode, ParseError>)
        requires
            old(self).wf(),
            span_within(*start, old(self).lexer.chars@),
        ensures
            final(self).advanced(old(self)),
            r matches Err(e) ==> e.span.src == old(self).lexer.src,
            r matches Ok(x) ==> node_within(Node::Switch(x), old(self).lexer.chars@),
            t_rule(old(self).lexer.chars@, old(self).state(), TGoal::Switch(span_v(*start))) == match r {
                Ok(x) => Ok::<(Option<NodeV>, PState), Fault>(
                    (Some(node_view(Node::Switch(x))), final(self).state()),
                ),
                Err(e) => Err(fault_of(e)),
            },
        decreases old(self).lexer.remaining(), 20nat,
    {
        reveal(tgram);
        let ghost s = self.lexer.chars@;
        let ghost st0 = self.state();
        let ghost sv = span_v(*start);
        proof {
            lemma_rest(&self.lexer);
        }
        self.expect_expr_token(&Token::LParen)?;
        let expr = self.parse_expr()?;
        self.expect_expr_token(&Token::RParen)?;
        self.expect_expr_token(&Token::LBrace)?;
        self.lexer.open_brace();
        proof {
            lemma_rest(&self.lexer);
        }

        let mut cases: Vec<SwitchCase> = Vec::new();
        let mut default: Option<Vec<Node>> = None;
        proof {
            assert(cases_view(cases@) =~= Seq::<(ExprV, Seq<NodeV>, (int, int))>::empty());
        }
        loop
            invariant_except_break
                t_rule(s, st0, TGoal::Switch(sv)) == node_of(
                    tgram(
                        s,
                        self.state(),
                        TGoal::SwitchTail(
                            expr_view(expr),
                            cases_view(cases@),
                            match default {
                                Some(ns) => Some(nodes_view(ns@)),
                                None => None,
                            },
                            sv,
                        ),
                    ),
                ),
            invariant
                self.advanced(old(self)),
                self.lexer.remaining() < old(self).lexer.remaining(),
                s == old(self).lexer.chars@,
                st0 == old(self).state(),
                sv == span_v(*start),
                span_within(*start, old(self).lexer.chars@),
                expr_within(expr, old(self).lexer.chars@),
                forall|k: int|
                    0 <= k < cases@.len() ==> {
                        &&& span_within(#[trigger] cases@[k].span, old(self).lexer.chars@)
                        &&& expr_within(cases@[k].value, old(self).lexer.chars@)
                        &&& nodes_within(cases@[k].body@, old(self).lexer.chars@)
                    },
                match default {
                    Some(ns) => nodes_within(ns@, old(self).lexer.chars@),
                    None => true,
                },
            ensures
                t_rule(s, st0, TGoal::Switch(sv)) == Ok::<(Option<NodeV>, PState), Fault>(
                    (
                        Some(
                            NodeV::Switch {
                                subject: expr_view(expr),
                                cases: cases_view(cases@),
                                default: match default {
                                    Some(ns) => Some(nodes_view(ns@)),
                                    None => None,
                                },
                                span: join(sv, end_span(s)),
                            },
                        ),
                        self.state(),
                    ),
                ),
            decreases self.lexer.remaining(),
        {
            reveal(tgram);
            proof {
                lemma_rest(&self.lexer);
            }
            let sp = self.next_switch_token()?;
            proof {
                lemma_rest(&self.lexer);
            }
            match sp.token {
                LexToken::AtCase => {
                    self.expect_expr_token(&Token::LParen)?;
                    let value = self.parse_expr()?;
                    self.expect_expr_token(&Token::RParen)?;
                    proof {
                        lemma_rest(&self.lexer);
                    }
                    let body = self.parse_block_body()?;
                    proof {
                        lemma_rest(&self.lexer);
                    }
                    let cspan = sp.span.merge(&self.last_span());
                    let ghost c = SwitchCase { value, body: body.nodes, span: cspan };
                    proof {
                        lemma_cases_view_push(cases@, c);
                    }
                    cases.push(SwitchCase { value, body: body.nodes, span: cspan });
                },
                LexToken::AtDefault => {
                    let body = self.parse_block_body()?;
                    proof {
                        lemma_rest(&self.lexer);
                    }
                    default = Some(body.nodes);
                },
                LexToken::CloseBrace => {
                    self.lexer.close_brace();
                    break;
                },
                LexToken::Eof => {
                    let mut m = String::new();
                    push_str(&mut m, "unexpected end of input in @switch block");
                    return Err(ParseError::new(m, sp.span));
                },
                other => {
                    let sp2 = Spanned { token: other, span: sp.span };
                    return Err(unexpected("expected @case, @default, or '}', got ", &sp2));
                },
            }
        }
        let span = start.merge(&self.last_span());
        proof {
            lemma_cases_within(cases@, old(self).lexer.chars@);
        }
        Ok(SwitchNode { expr, cases, default, span })
    }

    #[verifier::rlimit(100)]
    #[verifier::spinoff_prover]
    fn parse_match(&mut self, start: &Span) -> (r: Result<MatchNode, ParseError>)
        requires
            old(self).wf(),
            span_within(*start, old(self).lexer.chars@),
        ensures
            final(self).advanced(old(self)),
            r matches Err(e) ==> e.span.src == old(self).lexer.src,
            r matches Ok(x) ==> node_within(Node::Match(x), old(self).lexer.chars@),
            t_rule(old(self).lexer.chars@, old(self).state(), TGoal::Match(span_v(*start))) == match r {
                Ok(x) => Ok::<(Option<NodeV>, PState), Fault>(
                    (Some(node_view(Node::Match(x))), final(self).state()),
                ),
                Err(e) => Err(fault_of(e)),
            },
        decreases old(self).lexer.remaining(), 20nat,
    {
        reveal(tgram);
        let ghost s = self.lexer.chars@;
        let ghost st0 = self.state();
        let ghost sv = span_v(*start);
        proof {
            lemma_rest(&self.lexer);
        }
        self.expect_expr_token(&Token::LParen)?;
        let expr = self.parse_expr()?;
        self.expect_expr_token(&Token::RParen)?;
        self.expect_expr_token(&Token::LBrace)?;
        proof {
            lemma_rest(&self.lexer);
        }

        let mut arms: Vec<MatchNodeArm> = Vec::new();
        let mut default: Option<BlockNode> = None;
        proof {
            assert(node_arms_view(arms@) =~= Seq::<(ExprV, BlockV, (int, int))>::empty());
        }
        loop
            invariant_except_break
                t_rule(s, st0, TGoal::Match(sv)) == node_of(
                    tgram(
                        s,
                        self.state(),
                        TGoal::MatchTail(
                            expr_view(expr),
                            node_arms_view(arms@),
                            match default {
                                Some(b) => Some(block_view(b)),
                                None => None,
                            },
                            sv,
                        ),
                    ),
                ),
            invariant
                self.advanced(old(self)),
                self.lexer.remaining() < old(self).lexer.remaining(),
                s == old(self).lexer.chars@,
                st0 == old(self).state(),
                sv == span_v(*start),
                span_within(*start, old(self).lexer.chars@),
                expr_within(expr, old(self).lexer.chars@),
                node_arms_within(arms@, old(self).lexer.chars@),
                match default {
                    Some(b) => block_within(b, old(self).lexer.chars@),
                    None => true,
                },
            ensures
                t_rule(s, st0, TGoal::Match(sv)) == Ok::<(Option<NodeV>, PState), Fault>(
                    (
                        Some(
                            NodeV::Match {
                                subject: expr_view(expr),
                                arms: node_arms_view(arms@),
                                default: match default {
                                    Some(b) => Some(block_view(b)),
                                    None => None,
                                },
                                span: join(sv, end_span(s)),
                            },
                        ),
                        self.state(),
                    ),
                ),
            decreases self.lexer.remaining(),
        {
            reveal(tgram);
            proof {
                lemma_rest(&self.lexer);
            }
            let peeked = self.lexer.peek_expr()?;
            if is_expr_token(peeked, &Token::RBrace) {
                self.lexer.next_expr()?;
                break;
            }
            let pattern = self.parse_expr()?;
            self.expect_expr_token(&Token::FatArrow)?;
            proof {
                lemma_rest(&self.lexer);
            }
            let body = self.parse_block_body()?;
            proof {
                lemma_rest(&self.lexer);
            }
            let aspan = pattern.span().merge(&body.span);
            assert(span_within(body.span, old(self).lexer.chars@));
            assert(span_within(aspan, old(self).lexer.chars@));
            let is_wildcard = match &pattern {
                Expr::Ident(id) => crate::text::str_eq(id.name.as_str(), "_"),
                _ => false,
            };
            if is_wildcard {
                default = Some(body);
            } else {
                let ghost before = arms@;
                let ghost arm = MatchNodeArm { pattern, body, span: aspan };
                arms.push(MatchNodeArm { pattern, body, span: aspan });
                proof {
                    lemma_node_arms_push(before, arm, old(self).lexer.chars@);
                    lemma_node_arms_view_push(before, arm);
                }
            }
            let next = self.lexer.next_expr()?;
            proof {
                lemma_rest(&self.lexer);
            }
            if is_expr_token(&next, &Token::RBrace) {
                break;
            }
            if matches!(next.token, LexToken::InterpEnd) && self.lexer.brace_depth > 0 {
                self.pending_close = true;
                break;
            }
            if !is_expr_token(&next, &Token::Comma) {
                return Err(unexpected("expected ',' or '}', got ", &next));
            }
        }
        let span = start.merge(&self.last_span());
        Ok(MatchNode { expr, arms, default, span })
    }

    fn parse_include(&mut self, start: &Span) -> (r: Result<IncludeNode, ParseError>)
        requires
            old(self).wf(),
            span_within(*start, old(self).lexer.chars@),
        ensures
            final(self).advanced(old(self)),
            r matches Err(e) ==> e.span.src == old(self).lexer.src,
            r matches Ok(x) ==> node_within(Node::Include(x), old(self).lexer.chars@),
            t_rule(old(self).lexer.chars@, old(self).state(), TGoal::Include(span_v(*start))) == match r {
                Ok(x) => Ok::<(Option<NodeV>, PState), Fault>(
                    (Some(node_view(Node::Include(x))), final(self).state()),
                ),
                Err(e) => Err(fault_of(e)),
            },
        decreases old(self).lexer.remaining(), 20nat,
    {
        reveal(tgram);
        self.expect_expr_token(&Token::LParen)?;
        let name = self.parse_expr()?;
        let end = self.expect_expr_token(&Token::RParen)?;
        let span = start.merge(&end.span);
        Ok(IncludeNode { name, span })
    }

    /// Parses a block body: `{`, template nodes, then `}`.
    fn parse_block_body(&mut self) -> (r: Result<BlockNode, ParseError>)
        requires
            old(self).wf(),
        ensures
            final(self).advanced(old(self)),
            r matches Err(e) ==> e.span.src == old(self).lexer.src,
            r matches Ok(b) ==> block_within(b, old(self).lexer.chars@),
            r is Ok ==> final(self).lexer.remaining() < old(self).lexer.remaining(),
            t_block(old(self).lexer.chars@, old(self).state()) == match r {
                Ok(b) => Ok::<(BlockV, PState), Fault>((block_view(b), final(self).state())),
                Err(e) => Err(fault_of(e)),
            },
        decreases old(self).lexer.remaining(), 19nat,
    {
        reveal(tgram);
        proof {
            lemma_rest(&self.lexer);
        }
        let open = self.expect_expr_token(&Token::LBrace)?;
        self.lexer.open_brace();
        proof {
            lemma_rest(&self.lexer);
        }
        let nodes = self.parse_nodes()?;
        self.lexer.close_brace();
        let here = self.lexer.here();
        let span = open.span.merge(&here);
        proof {
            lemma_nodes_within(nodes@, old(self).lexer.chars@);
        }
        Ok(BlockNode { nodes, span })
    }

    // ── Expression parsing ──────────────────────────────────────────

    /// Parses a full expression.
    fn parse_expr(&mut self) -> (r: Result<Expr, ParseError>)
        requires
            old(self).wf(),
        ensures
            final(self).advanced(old(self)),
            r matches Err(e) ==> e.span.src == old(self).lexer.src,
            final(self).keeps_blocks(old(self)),
            r matches Ok(e) ==> expr_within(e, old(self).lexer.chars@),
            g_expr(old(self).lexer.chars@, old(self).lexer.reading()) == expr_result(
                r,
                final(self).lexer.reading(),
            ),
        decreases old(self).lexer.remaining(), 10nat,
    {
        reveal(gram);
        self.parse_pipe_expr()
    }

    /// Parses a pipe expression: `expr | name:arg1:arg2`.
    #[verifier::rlimit(100)]
    #[verifier::spinoff_prover]
    fn parse_pipe_expr(&mut self) -> (r: Result<Expr, ParseError>)
        requires
            old(self).wf(),
        ensures
            final(self).advanced(old(self)),
            r matches Err(e) ==> e.span.src == old(self).lexer.src,
            final(self).keeps_blocks(old(self)),
            r matches Ok(e) ==> expr_within(e, old(self).lexer.chars@),
            g_pipe(old(self).lexer.chars@, old(self).lexer.reading()) == expr_result(
                r,
                final(self).lexer.reading(),
            ),
        decreases old(self).lexer.remaining(), 9nat,
    {
        reveal(gram);
        let ghost s = self.lexer.chars@;
        let ghost r0 = self.lexer.reading();
        proof {
            lemma_rest(&self.lexer);
        }
        let mut expr = self.parse_binary(0)?;
        proof {
            lemma_rest(&self.lexer);
        }
        loop
            invariant
                self.advanced(old(self)),
                self.keeps_blocks(old(self)),
                s == old(self).lexer.chars@,
                r0 == old(self).lexer.reading(),
                rest(s, r0) == old(self).lexer.remaining(),
                expr_within(expr, old(self).lexer.chars@),
                g_pipe(s, r0) == g_pipe_tail(s, self.lexer.reading(), expr_view(expr)),
            ensures
                g_pipe(s, r0) == Ok::<(ExprV, Reading), Fault>((expr_view(expr), self.lexer.reading())),
            decreases self.lexer.remaining(),
        {
            let ghost rc = self.lexer.reading();
            let ghost iter_start = self.lexer.remaining();
            reveal(gram);
            proof {
                lemma_rest(&self.lexer);
            }
            let peeked = self.lexer.peek_expr()?;
            if !is_expr_token(peeked, &Token::Pipe) {
                break;
            }
            self.lexer.next_expr()?;
            let name_sp = self.lexer.next_expr()?;
            let name = match name_sp.token {
                LexToken::Expr(Token::Ident(s)) => s,
                other => {
                    let sp2 = Spanned { token: other, span: name_sp.span };
                    return Err(unexpected("expected pipe name, got ", &sp2));
                },
            };
            let ghost r3 = self.lexer.reading();
            let ghost ev = expr_view(expr);
            proof {
                lemma_rest(&self.lexer);
                assert(g_pipe_tail(s, rc, ev) == pipe_rest(s, rc, ev, name@, span_v(name_sp.span), r3));
            }
            let mut args: Vec<Expr> = Vec::new();
            loop
                invariant
                    r0 == old(self).lexer.reading(),
                    g_pipe(s, r0) == pipe_rest(s, rc, ev, name@, span_v(name_sp.span), r3),
                    ev == expr_view(expr),
                    self.advanced(old(self)),
                    self.keeps_blocks(old(self)),
                    s == old(self).lexer.chars@,
                    self.lexer.remaining() < iter_start,
                    rest(s, rc) == iter_start,
                    expr_within(expr, old(self).lexer.chars@),
                    span_within(name_sp.span, old(self).lexer.chars@),
                    forall|k: int|
                        0 <= k < args@.len() ==> #[trigger] expr_within(args@[k], old(self).lexer.chars@),
                    g_pipe_args(s, r3, Seq::empty()) == g_pipe_args(
                        s,
                        self.lexer.reading(),
                        exprs_view(args@),
                    ),
                ensures
                    g_pipe_args(s, r3, Seq::empty()) == Ok::<(Seq<ExprV>, Reading), Fault>(
                        (exprs_view(args@), self.lexer.reading()),
                    ),
                decreases self.lexer.remaining(),
            {
                reveal(gram);
                proof {
                    lemma_rest(&self.lexer);
                }
                let peeked = self.lexer.peek_expr()?;
                if !is_expr_token(peeked, &Token::Colon) {
                    break;
                }
                self.lexer.next_expr()?;
                proof {
                    lemma_rest(&self.lexer);
                }
                let a = self.parse_binary(0)?;
                proof {
                    lemma_rest(&self.lexer);
                    lemma_exprs_view_push(args@, a);
                }
                args.push(a);
            }
            let span = expr.span().merge(&name_sp.span);
            proof {
                lemma_exprs_within(args@, old(self).lexer.chars@);
                lemma_rest(&self.lexer);
            }
            expr = Expr::Pipe(PipeExpr { value: Box::new(expr), name, args, span });
        }
        Ok(expr)
    }

    fn token_to_binary_op(t: &Token) -> (r: Option<BinaryOp>)
        ensures
            r == tok_binary_op(t@),
    {
        match t {
            Token::Plus => Some(BinaryOp::Add),
            Token::Minus => Some(BinaryOp::Sub),
            Token::Star => Some(BinaryOp::Mul),
            Token::Slash => Some(BinaryOp::Div),
            Token::Percent => Some(BinaryOp::Mod),
            Token::EqEq => Some(BinaryOp::Eq),
            Token::BangEq => Some(BinaryOp::Ne),
            Token::Lt => Some(BinaryOp::Lt),
            Token::Le => Some(BinaryOp::Le),
            Token::Gt => Some(BinaryOp::Gt),
            Token::Ge => Some(BinaryOp::Ge),
            Token::AmpAmp => Some(BinaryOp::And),
            Token::PipePipe => Some(BinaryOp::Or),
            _ => None,
        }
    }

    /// Precedence climbing: parses operands and operators that bind at
    /// least as tightly as `min_bp`.
    fn parse_binary(&mut self, min_bp: u8) -> (r: Result<Expr, ParseError>)
        requires
            old(self).wf(),
        ensures
            final(self).advanced(old(self)),
            r matches Err(e) ==> e.span.src == old(self).lexer.src,
            final(self).keeps_blocks(old(self)),
            r matches Ok(e) ==> expr_within(e, old(self).lexer.chars@),
            g_binary(old(self).lexer.chars@, old(self).lexer.reading(), min_bp as int)
                == expr_result(r, final(self).lexer.reading()),
        decreases old(self).lexer.remaining(), 8nat,
    {
        reveal(gram);
        let ghost s = self.lexer.chars@;
        let ghost r0 = self.lexer.reading();
        proof {
            lemma_rest(&self.lexer);
        }
        let mut left = self.parse_unary()?;
        proof {
            lemma_rest(&self.lexer);
        }
        loop
            invariant
                self.advanced(old(self)),
                self.keeps_blocks(old(self)),
                s == old(self).lexer.chars@,
                r0 == old(self).lexer.reading(),
                rest(s, r0) == old(self).lexer.remaining(),
                expr_within(left, old(self).lexer.chars@),
                g_binary(s, r0, min_bp as int) == g_binary_tail(
                    s,
                    self.lexer.reading(),
                    expr_view(left),
                    min_bp as int,
                ),
            ensures
                g_binary(s, r0, min_bp as int) == Ok::<(ExprV, Reading), Fault>(
                    (expr_view(left), self.lexer.reading()),
                ),
            decreases self.lexer.remaining(),
        {
            reveal(gram);
            proof {
                lemma_rest(&self.lexer);
            }
            let peeked = self.lexer.peek_expr()?;
            let op = match &peeked.token {
                LexToken::Expr(tok) => Self::token_to_binary_op(tok),
                _ => None,
            };
            let op = match op {
                Some(op) => op,
                None => break,
            };
            let (l_bp, r_bp) = op.precedence();
            if l_bp < min_bp {
                break;
            }
            self.lexer.next_expr()?;
            proof {
                lemma_rest(&self.lexer);
            }
            let right = self.parse_binary(r_bp)?;
            proof {
                lemma_rest(&self.lexer);
            }
            let span = left.span().merge(&right.span());
            left = Expr::Binary(BinaryExpr { left: Box::new(left), op, right: Box::new(right), span });
        }
        Ok(left)
    }

    /// Parses `!expr`, `-expr`, or a postfix expression.
    fn parse_unary(&mut self) -> (r: Result<Expr, ParseError>)
        requires
            old(self).wf(),
        ensures
            final(self).advanced(old(self)),
            r matches Err(e) ==> e.span.src == old(self).lexer.src,
            final(self).keeps_blocks(old(self)),
            r matches Ok(e) ==> expr_within(e, old(self).lexer.chars@),
            g_unary(old(self).lexer.chars@, old(self).lexer.reading()) == expr_result(
                r,
                final(self).lexer.reading(),
            ),
        decreases old(self).lexer.remaining(), 7nat,
    {
        reveal(gram);
        proof {
            lemma_rest(&self.lexer);
        }
        let peeked = self.lexer.peek_expr()?;
        let op = if is_expr_token(peeked, &Token::Bang) {
            Some(UnaryOp::Not)
        } else if is_expr_token(peeked, &Token::Minus) {
            Some(UnaryOp::Neg)
        } else {
            None
        };
        proof {
            lemma_rest(&self.lexer);
        }
        match op {
            Some(op) => {
                let sp = self.lexer.next_expr()?;
                proof {
                    lemma_rest(&self.lexer);
                }
                let operand = self.parse_unary()?;
                let span = sp.span.merge(&operand.span());
                Ok(Expr::Unary(UnaryExpr { op, operand: Box::new(operand), span }))
            },
            None => self.parse_postfix(),
        }
    }

    /// Parses postfix forms: `.field`, `[index]`, `(args)`.
    #[verifier::rlimit(100)]
    #[verifier::spinoff_prover]
    fn parse_postfix(&mut self) -> (r: Result<Expr, ParseError>)
        requires
            old(self).wf(),
        ensures
            final(self).advanced(old(self)),
            r matches Err(e) ==> e.span.src == old(self).lexer.src,
            final(self).keeps_blocks(old(self)),
            r matches Ok(e) ==> expr_within(e, old(self).lexer.chars@),
            g_postfix(old(self).lexer.chars@, old(self).lexer.reading()) == expr_result(
                r,
                final(self).lexer.reading(),
            ),
        decreases old(self).lexer.remaining(), 6nat,
    {
        reveal(gram);
        let ghost s = self.lexer.chars@;
        let ghost r0 = self.lexer.reading();
        proof {
            lemma_rest(&self.lexer);
        }
        let mut expr = self.parse_atom()?;
        proof {
            lemma_rest(&self.lexer);
        }
        loop
            invariant
                self.advanced(old(self)),
                self.keeps_blocks(old(self)),
                s == old(self).lexer.chars@,
                r0 == old(self).lexer.reading(),
                rest(s, r0) == old(self).lexer.remaining(),
                expr_within(expr, old(self).lexer.chars@),
                g_postfix(s, r0) == g_postfix_tail(s, self.lexer.reading(), expr_view(expr)),
            ensures
                g_postfix(s, r0) == Ok::<(ExprV, Reading), Fault>((expr_view(expr), self.lexer.reading())),
            decreases self.lexer.remaining(),
        {
            reveal(gram);
            proof {
                lemma_rest(&self.lexer);
            }
            let peeked = self.lexer.peek_expr()?;
            if is_expr_token(peeked, &Token::Dot) {
                self.lexer.next_expr()?;
                let field_sp = self.lexer.next_expr()?;
                let field = match field_sp.token {
                    LexToken::Expr(Token::Ident(s)) => s,
                    LexToken::Expr(Token::Of) => {
                        let mut s = String::new();
                        push_str(&mut s, "of");
                        s
                    },
                    LexToken::Expr(Token::Track) => {
                        let mut s = String::new();
                        push_str(&mut s, "track");
                        s
                    },
                    other => {
                        let sp2 = Spanned { token: other, span: field_sp.span };
                        return Err(unexpected("expected field name, got ", &sp2));
                    },
                };
                proof {
                    lemma_rest(&self.lexer);
                }
                let span = expr.span().merge(&field_sp.span);
                expr = Expr::Member(MemberExpr { object: Box::new(expr), field, span });
            } else if is_expr_token(peeked, &Token::LBracket) {
                self.lexer.next_expr()?;
                proof {
                    lemma_rest(&self.lexer);
                }
                let index = self.parse_expr()?;
                let end = self.expect_expr_token(&Token::RBracket)?;
                proof {
                    lemma_rest(&self.lexer);
                }
                let span = expr.span().merge(&end.span);
                expr = Expr::Index(IndexExpr { object: Box::new(expr), index: Box::new(index), span });
            } else if is_expr_token(peeked, &Token::LParen) {
                self.lexer.next_expr()?;
                proof {
                    lemma_rest(&self.lexer);
                }
                let args = self.parse_args()?;
                let end = self.expect_expr_token(&Token::RParen)?;
                proof {
                    lemma_rest(&self.lexer);
                }
                let span = expr.span().merge(&end.span);
                proof {
                    lemma_exprs_within(args@, old(self).lexer.chars@);
                }
                expr = Expr::Call(CallExpr { callee: Box::new(expr), args, span });
            } else {
                break;
            }
        }
        Ok(expr)
    }

    /// Parses an atom: a literal, an identifier, `(expr)`, an array or an
    /// object literal.
    #[verifier::rlimit(100)]
    #[verifier::spinoff_prover]
    fn parse_atom(&mut self) -> (r: Result<Expr, ParseError>)
        requires
            old(self).wf(),
        ensures
            final(self).advanced(old(self)),
            r matches Err(e) ==> e.span.src == old(self).lexer.src,
            final(self).keeps_blocks(old(self)),
            r matches Ok(e) ==> expr_within(e, old(self).lexer.chars@),
            g_atom(old(self).lexer.chars@, old(self).lexer.reading()) == expr_result(
                r,
                final(self).lexer.reading(),
            ),
        decreases old(self).lexer.remaining(), 5nat,
    {
        reveal(gram);
        let ghost s = self.lexer.chars@;
        proof {
            lemma_rest(&self.lexer);
        }
        let sp = self.lexer.next_expr()?;
        proof {
            lemma_rest(&self.lexer);
        }
        match sp.token {
            LexToken::Expr(Token::Int(n)) => Ok(
                Expr::Value(ValueExpr { value: Literal::Int(n), span: sp.span }),
            ),
            LexToken::Expr(Token::Float(t)) => Ok(
                Expr::Value(ValueExpr { value: Literal::Float(t), span: sp.span }),
            ),
            LexToken::Expr(Token::String(s)) => Ok(
                Expr::Value(ValueExpr { value: Literal::String(s), span: sp.span }),
            ),
            LexToken::Expr(Token::True) => Ok(
                Expr::Value(ValueExpr { value: Literal::Bool(true), span: sp.span }),
            ),
            LexToken::Expr(Token::False) => Ok(
                Expr::Value(ValueExpr { value: Literal::Bool(false), span: sp.span }),
            ),
            LexToken::Expr(Token::Null) => Ok(
                Expr::Value(ValueExpr { value: Literal::Null, span: sp.span }),
            ),
            LexToken::Expr(Token::Ident(s)) => Ok(Expr::Ident(IdentExpr { name: s, span: sp.span })),
            LexToken::Expr(Token::Of) => {
                let mut s = String::new();
                push_str(&mut s, "of");
                Ok(Expr::Ident(IdentExpr { name: s, span: sp.span }))
            },
            LexToken::Expr(Token::Track) => {
                let mut s = String::new();
                push_str(&mut s, "track");
                Ok(Expr::Ident(IdentExpr { name: s, span: sp.span }))
            },
            LexToken::Expr(Token::LParen) => {
                let expr = self.parse_expr()?;
                let end = self.expect_expr_token(&Token::RParen)?;
                let span = sp.span.merge(&end.span);
                Ok(with_span(expr, span))
            },
            LexToken::Expr(Token::LBracket) => {
                let mut elements: Vec<Expr> = Vec::new();
                let peeked = self.lexer.peek_expr()?;
                if !is_expr_token(peeked, &Token::RBracket) {
                    proof {
                        lemma_rest(&self.lexer);
                    }
                    let first = self.parse_expr()?;
                    proof {
                        lemma_rest(&self.lexer);
                    }
                    elements.push(first);
                    proof {
                        lemma_exprs_view_push(Seq::empty(), first);
                        assert(Seq::<Expr>::empty().push(first) == elements@);
                        assert(exprs_view(Seq::<Expr>::empty()) =~= Seq::<ExprV>::empty());
                    }
                    self.parse_list_tail(&mut elements)?;
                }
                let end = self.expect_expr_token(&Token::RBracket)?;
                let span = sp.span.merge(&end.span);
                proof {
                    lemma_exprs_within(elements@, old(self).lexer.chars@);
                }
                Ok(Expr::Array(ArrayExpr { elements, span }))
            },
            LexToken::Expr(Token::LBrace) => {
                let mut entries: Vec<(String, Expr)> = Vec::new();
                let peeked = self.lexer.peek_expr()?;
                if !is_expr_token(peeked, &Token::RBrace) {
                    proof {
                        lemma_rest(&self.lexer);
                    }
                    let first = self.parse_object_entry()?;
                    proof {
                        lemma_rest(&self.lexer);
                        lemma_entries_view_push(Seq::empty(), first);
                        assert(entries_view(Seq::<(String, Expr)>::empty()) =~= Seq::<(Seq<char>, ExprV)>::empty());
                    }
                    entries.push(first);
                    proof {
                        assert(Seq::<(String, Expr)>::empty().push(first) == entries@);
                    }
                    self.parse_entries_tail(&mut entries)?;
                }
                let end = self.expect_expr_token(&Token::RBrace)?;
                let span = sp.span.merge(&end.span);
                proof {
                    lemma_entries_within(entries@, old(self).lexer.chars@);
                }
                Ok(Expr::Object(ObjectExpr { entries, span }))
            },
            other => {
                let sp2 = Spanned { token: other, span: sp.span };
                Err(unexpected("expected expression, got ", &sp2))
            },
        }
    }

    /// Parses the `, expr` items that follow the items already in `items`.
    fn parse_list_tail(&mut self, items: &mut Vec<Expr>) -> (r: Result<(), ParseError>)
        requires
            old(self).wf(),
            forall|k: int|
                0 <= k < old(items)@.len() ==> #[trigger] expr_within(old(items)@[k], old(self).lexer.chars@),
        ensures
            final(self).advanced(old(self)),
            r matches Err(e) ==> e.span.src == old(self).lexer.src,
            final(self).keeps_blocks(old(self)),
            forall|k: int|
                0 <= k < final(items)@.len() ==> #[trigger] expr_within(final(items)@[k], old(self).lexer.chars@),
            g_list_tail(old(self).lexer.chars@, old(self).lexer.reading(), exprs_view(old(items)@))
                == match r {
                Ok(_) => Ok::<(Seq<ExprV>, Reading), Fault>((exprs_view(final(items)@), final(self).lexer.reading())),
                Err(e) => Err(fault_of(e)),
            },
        decreases old(self).lexer.remaining(), 12nat,
    {
        let ghost s = self.lexer.chars@;
        let ghost r0 = self.lexer.reading();
        let ghost a0 = exprs_view(items@);
        loop
            invariant
                self.advanced(old(self)),
                self.keeps_blocks(old(self)),
                s == old(self).lexer.chars@,
                r0 == old(self).lexer.reading(),
                a0 == exprs_view(old(items)@),
                forall|k: int|
                    0 <= k < items@.len() ==> #[trigger] expr_within(items@[k], old(self).lexer.chars@),
                g_list_tail(s, r0, a0) == g_list_tail(s, self.lexer.reading(), exprs_view(items@)),
            ensures
                g_list_tail(s, r0, a0) == Ok::<(Seq<ExprV>, Reading), Fault>(
                    (exprs_view(items@), self.lexer.reading()),
                ),
            decreases self.lexer.remaining(),
        {
            reveal(gram);
            proof {
                lemma_rest(&self.lexer);
            }
            let peeked = self.lexer.peek_expr()?;
            if !is_expr_token(peeked, &Token::Comma) {
                break;
            }
            self.lexer.next_expr()?;
            proof {
                lemma_rest(&self.lexer);
            }
            let e = self.parse_expr()?;
            proof {
                lemma_rest(&self.lexer);
                lemma_exprs_view_push(items@, e);
            }
            items.push(e);
        }
        Ok(())
    }

    /// Parses the `, key: value` entries that follow those in `entries`.
    fn parse_entries_tail(&mut self, entries: &mut Vec<(String, Expr)>) -> (r: Result<(), ParseError>)
        requires
            old(self).wf(),
            forall|k: int|
                0 <= k < old(entries)@.len() ==> #[trigger] expr_within(old(entries)@[k].1, old(self).lexer.chars@),
        ensures
            final(self).advanced(old(self)),
            r matches Err(e) ==> e.span.src == old(self).lexer.src,
            final(self).keeps_blocks(old(self)),
            forall|k: int|
                0 <= k < final(entries)@.len() ==> #[trigger] expr_within(final(entries)@[k].1, old(self).lexer.chars@),
            g_entries_tail(old(self).lexer.chars@, old(self).lexer.reading(), entries_view(old(entries)@))
                == match r {
                Ok(_) => Ok::<(Seq<(Seq<char>, ExprV)>, Reading), Fault>(
                    (entries_view(final(entries)@), final(self).lexer.reading()),
                ),
                Err(e) => Err(fault_of(e)),
            },
        decreases old(self).lexer.remaining(), 12nat,
    {
        let ghost s = self.lexer.chars@;
        let ghost r0 = self.lexer.reading();
        let ghost a0 = entries_view(entries@);
        loop
            invariant
                self.advanced(old(self)),
                self.keeps_blocks(old(self)),
                s == old(self).lexer.chars@,
                r0 == old(self).lexer.reading(),
                a0 == entries_view(old(entries)@),
                forall|k: int|
                    0 <= k < entries@.len() ==> #[trigger] expr_within(entries@[k].1, old(self).lexer.chars@),
                g_entries_tail(s, r0, a0) == g_entries_tail(s, self.lexer.reading(), entries_view(entries@)),
            ensures
                g_entries_tail(s, r0, a0) == Ok::<(Seq<(Seq<char>, ExprV)>, Reading), Fault>(
                    (entries_view(entries@), self.lexer.reading()),
                ),
            decreases self.lexer.remaining(),
        {
            reveal(gram);
            proof {
                lemma_rest(&self.lexer);
            }
            let peeked = self.lexer.peek_expr()?;
            if !is_expr_token(peeked, &Token::Comma) {
                break;
            }
            self.lexer.next_expr()?;
            proof {
                lemma_rest(&self.lexer);
            }
            let en = self.parse_object_entry()?;
            proof {
                lemma_rest(&self.lexer);
                lemma_entries_view_push(entries@, en);
            }
            entries.push(en);
        }
        Ok(())
    }

    /// Parses a comma-separated list of call arguments.
    #[verifier::rlimit(100)]
    #[verifier::spinoff_prover]
    fn parse_args(&mut self) -> (r: Result<Vec<Expr>, ParseError>)
        requires
            old(self).wf(),
        ensures
            final(self).advanced(old(self)),
            r matches Err(e) ==> e.span.src == old(self).lexer.src,
            final(self).keeps_blocks(old(self)),
            r matches Ok(args) ==> forall|i: int|
                0 <= i < args@.len() ==> #[trigger] expr_within(args@[i], old(self).lexer.chars@),
            g_args(old(self).lexer.chars@, old(self).lexer.reading()) == match r {
                Ok(args) => Ok::<(Seq<ExprV>, Reading), Fault>((exprs_view(args@), final(self).lexer.reading())),
                Err(e) => Err(fault_of(e)),
            },
        decreases old(self).lexer.remaining(), 13nat,
    {
        reveal(gram);
        let mut args: Vec<Expr> = Vec::new();
        proof {
            lemma_rest(&self.lexer);
        }
        let peeked = self.lexer.peek_expr()?;
        if is_expr_token(peeked, &Token::RParen) {
            proof {
                assert(exprs_view(args@) =~= Seq::<ExprV>::empty());
            }
            return Ok(args);
        }
        proof {
            lemma_rest(&self.lexer);
        }
        let first = self.parse_expr()?;
        let ghost fv = expr_view(first);
        proof {
            lemma_rest(&self.lexer);
        }
        args.push(first);
        proof {
            lemma_exprs_view(args@);
            assert(exprs_view(args@) =~= seq![fv]);
        }
        self.parse_list_tail(&mut args)?;
        Ok(args)
    }

    /// Parses one object entry: `key: value`.
    #[verifier::rlimit(100)]
    #[verifier::spinoff_prover]
    fn parse_object_entry(&mut self) -> (r: Result<(String, Expr), ParseError>)
        requires
            old(self).wf(),
        ensures
            final(self).advanced(old(self)),
            r matches Err(e) ==> e.span.src == old(self).lexer.src,
            final(self).keeps_blocks(old(self)),
            r matches Ok(en) ==> expr_within(en.1, old(self).lexer.chars@),
            g_entry(old(self).lexer.chars@, old(self).lexer.reading()) == match r {
                Ok(en) => Ok::<((Seq<char>, ExprV), Reading), Fault>(
                    ((en.0@, expr_view(en.1)), final(self).lexer.reading()),
                ),
                Err(e) => Err(fault_of(e)),
            },
        decreases old(self).lexer.remaining(), 4nat,
    {
        reveal(gram);
        proof {
            lemma_rest(&self.lexer);
        }
        let key_sp = self.lexer.next_expr()?;
        let key = match key_sp.token {
            LexToken::Expr(Token::Ident(s)) => s,
            LexToken::Expr(Token::String(s)) => s,
            other => {
                let sp2 = Spanned { token: other, span: key_sp.span };
                return Err(unexpected("expected object key, got ", &sp2));
            },
        };
        self.expect_expr_token(&Token::Colon)?;
        proof {
            lemma_rest(&self.lexer);
        }
        let value = self.parse_expr()?;
        Ok((key, value))
    }

    // ── Helpers ─────────────────────────────────────────────────────

    fn expect_expr_token(&mut self, expected: &Token) -> (r: Result<Spanned, ParseError>)
        requires
            old(self).wf(),
            is_symbol(expected@),
        ensures
            final(self).advanced(old(self)),
            r matches Err(e) ==> e.span.src == old(self).lexer.src,
            final(self).keeps_blocks(old(self)),
            r is Ok ==> final(self).lexer.remaining() < old(self).lexer.remaining(),
            r matches Ok(sp) ==> sp.token@ == crate::lexer::LexTok::Expr(expected@),
            r matches Ok(sp) ==> span_within(sp.span, old(self).lexer.chars@),
            g_expect(old(self).lexer.chars@, old(self).lexer.reading(), expected@) == match r {
                Ok(sp) => Ok::<((int, int), Reading), Fault>((span_v(sp.span), final(self).lexer.reading())),
                Err(e) => Err(fault_of(e)),
            },
    {
        let sp = self.lexer.next_expr()?;
        if is_expr_token(&sp, expected) {
            Ok(sp)
        } else {
            let mut what = String::new();
            push_str(&mut what, "expected ");
            push_str(&mut what, expr_token_name(expected));
            push_str(&mut what, ", got ");
            proof {
                assert(tok_payload(expected@) =~= Seq::<char>::empty());
                assert(tok_name(expected@) =~= tok_variant(expected@));
            }
            Err(unexpected(what.as_str(), &sp))
        }
    }

    fn expect_interp_end(&mut self) -> (r: Result<Spanned, ParseError>)
        requires
            old(self).wf(),
        ensures
            final(self).advanced(old(self)),
            r matches Err(e) ==> e.span.src == old(self).lexer.src,
            final(self).keeps_blocks(old(self)),
            r is Ok ==> final(self).lexer.remaining() < old(self).lexer.remaining(),
            r matches Ok(sp) ==> span_within(sp.span, old(self).lexer.chars@),
            g_interp_end(old(self).lexer.chars@, old(self).lexer.reading()) == match r {
                Ok(sp) => Ok::<((int, int), Reading), Fault>((span_v(sp.span), final(self).lexer.reading())),
                Err(e) => Err(fault_of(e)),
            },
    {
        let sp = self.lexer.next_expr()?;
        if matches!(sp.token, LexToken::InterpEnd) {
            Ok(sp)
        } else {
            Err(unexpected("expected '}}', got ", &sp))
        }
    }
}

/// Whether the UTF-8 encoding of `s` is shorter than `limit` bytes.
fn bytes_below(s: &str, limit: usize) -> (r: bool)
    requires
        4 <= limit,
    ensures
        r == (blen(s@) < limit),
{
    let v = chars_of(s);
    let mut i: usize = 0;
    let mut b: usize = 0;
    proof {
        lemma_bpos_from(v@, 0);
    }
    while i < v.len()
        invariant
            v@ == s@,
            i <= v@.len(),
            b == bpos(v@, i as int),
            b < limit,
            4 <= limit,
        decreases v@.len() - i,
    {
        proof {
            lemma_bpos_step(v@, i as int);
        }
        let w = char_width(v[i]);
        proof {
            crate::text::lemma_width(v@[i as int]);
        }
        if b >= limit - w {
            proof {
                lemma_bpos_mono(v@, i + 1, v@.len() as int);
            }
            return false;
        }
        b = b + w;
        i = i + 1;
    }
    proof {
        lemma_bpos_from(v@, 0);
    }
    true
}

/// What parsing the source `s` gives, as `parse` states it: where the
/// source's bytes can be counted in a `usize`, the template whose source is
/// `s` and whose tree is the model the grammar gives (see
/// `template_model`), every span in it a byte range of `s`
/// (`block_within`), or, where the source departs from the grammar, an
/// error at that byte range of `s` with that message; and an error where
/// the source is too long.
pub open spec fn parse_model(s: Seq<char>, r: Result<Template, ParseError>) -> bool {
    &&& r matches Ok(t) ==> t.source() == s && block_within(t.body(), s)
    &&& r matches Err(e) ==> e.span.src@ == s
    &&& blen(s) < usize::MAX - 2 ==> match template_model(s) {
        Ok(b) => r matches Ok(t) && block_view(t.body()) == b,
        Err(f) => r matches Err(e) && fault_of(e) == f,
    }
    &&& blen(s) >= usize::MAX - 2 ==> r is Err
}

/// Parses a template source into a `Template`: the template whose model
/// the grammar gives (see `template_model`), or an error at the span of
/// the token where the source departs from the grammar.
pub fn parse(source: &str) -> (r: Result<Template, ParseError>)
    ensures
        r matches Ok(t) ==> t.source() == source@,
        r matches Ok(t) ==> block_within(t.body(), source@),
        blen(source@) < usize::MAX - 2 && is_plain_text(source@) ==> (r matches Ok(t)
            && parses_as_text(t, source@)),
        parse_model(source@, r),
{
    let src = crate::span::arc_of(source);
    if !bytes_below(source, usize::MAX - 2) {
        let mut m = String::new();
        push_str(&mut m, "template too long");
        return Err(ParseError::new(m, Span::new(0, 0, src)));
    }
    let mut p = Parser::new(source, src);
    p.parse()
}

} // verus!
