//! The syntax tree of templates and expressions.

use vstd::prelude::*;

use crate::op::{BinaryOp, UnaryOp};
use crate::span::Span;
use crate::text::{blen, bytes, int_text, push_int, push_str};

verus! {

/// A literal as written in the source.
#[derive(Debug, PartialEq)]
pub enum Literal {
    Null,
    Bool(bool),
    Int(i64),
    /// A float literal, kept as its source text (such as `"3.14"`).
    Float(String),
    String(String),
}

/// The text of a literal: `null`, `true`/`false`, an integer in decimal,
/// a float as written, a string in double quotes.
pub open spec fn literal_text(l: Literal) -> Seq<char> {
    match l {
        Literal::Null => "null"@,
        Literal::Bool(b) => if b {
            "true"@
        } else {
            "false"@
        },
        Literal::Int(i) => int_text(i as int),
        Literal::Float(t) => t@,
        Literal::String(v) => "\""@ + v@ + "\""@,
    }
}

impl Literal {
    /// The literal's text (see `literal_text`).
    pub fn to_string(&self) -> (s: String)
        ensures
            s@ == literal_text(*self),
    {
        let mut s = String::new();
        match self {
            Literal::Null => push_str(&mut s, "null"),
            Literal::Bool(b) => if *b {
                push_str(&mut s, "true")
            } else {
                push_str(&mut s, "false")
            },
            Literal::Int(i) => push_int(&mut s, *i),
            Literal::Float(t) => push_str(&mut s, t.as_str()),
            Literal::String(v) => {
                push_str(&mut s, "\"");
                push_str(&mut s, v.as_str());
                push_str(&mut s, "\"");
            },
        }
        s
    }
}

/// A literal expression.
#[derive(Debug, PartialEq)]
pub struct ValueExpr {
    pub value: Literal,
    pub span: Span,
}

/// A bare identifier: `foo`.
#[derive(Debug, PartialEq)]
pub struct IdentExpr {
    pub name: String,
    pub span: Span,
}

/// Member access: `a.b`.
#[derive(Debug, PartialEq)]
pub struct MemberExpr {
    pub object: Box<Expr>,
    pub field: String,
    pub span: Span,
}

/// Index access: `a[0]`.
#[derive(Debug, PartialEq)]
pub struct IndexExpr {
    pub object: Box<Expr>,
    pub index: Box<Expr>,
    pub span: Span,
}

/// Function call: `f(a, b)`.
#[derive(Debug, PartialEq)]
pub struct CallExpr {
    pub callee: Box<Expr>,
    pub args: Vec<Expr>,
    pub span: Span,
}

/// Pipe expression: `expr | name` or `expr | name:arg1:arg2`.
#[derive(Debug, PartialEq)]
pub struct PipeExpr {
    pub value: Box<Expr>,
    pub name: String,
    pub args: Vec<Expr>,
    pub span: Span,
}

/// Binary operation: `a + b`.
#[derive(Debug, PartialEq)]
pub struct BinaryExpr {
    pub left: Box<Expr>,
    pub op: BinaryOp,
    pub right: Box<Expr>,
    pub span: Span,
}

/// Unary operation: `!a`, `-a`.
#[derive(Debug, PartialEq)]
pub struct UnaryExpr {
    pub op: UnaryOp,
    pub operand: Box<Expr>,
    pub span: Span,
}

/// Array literal: `[1, 2, 3]`.
#[derive(Debug, PartialEq)]
pub struct ArrayExpr {
    pub elements: Vec<Expr>,
    pub span: Span,
}

/// Object literal: `{ a: 1, b: 'two' }`.
#[derive(Debug, PartialEq)]
pub struct ObjectExpr {
    pub entries: Vec<(String, Expr)>,
    pub span: Span,
}

/// A value-level match: the value of the first arm whose pattern equals
/// the subject, else the default, else `null`.
#[derive(Debug, PartialEq)]
pub struct MatchExpr {
    pub expr: Box<Expr>,
    pub arms: Vec<MatchArm>,
    pub default: Option<Box<Expr>>,
    pub span: Span,
}

/// One arm of a `MatchExpr`.
#[derive(Debug, PartialEq)]
pub struct MatchArm {
    pub pattern: Expr,
    pub value: Expr,
    pub span: Span,
}

/// An expression.
#[derive(Debug, PartialEq)]
pub enum Expr {
    Value(ValueExpr),
    Ident(IdentExpr),
    Member(MemberExpr),
    Index(IndexExpr),
    Call(CallExpr),
    Pipe(PipeExpr),
    Binary(BinaryExpr),
    Unary(UnaryExpr),
    Array(ArrayExpr),
    Object(ObjectExpr),
    Match(MatchExpr),
}

/// The span of an expression.
pub open spec fn expr_span(e: Expr) -> Span {
    match e {
        Expr::Value(x) => x.span,
        Expr::Ident(x) => x.span,
        Expr::Member(x) => x.span,
        Expr::Index(x) => x.span,
        Expr::Call(x) => x.span,
        Expr::Pipe(x) => x.span,
        Expr::Binary(x) => x.span,
        Expr::Unary(x) => x.span,
        Expr::Array(x) => x.span,
        Expr::Object(x) => x.span,
        Expr::Match(x) => x.span,
    }
}

impl Expr {
    /// The source text of the expression.
    pub fn to_string(&self) -> (s: String)
        requires
            expr_span(*self).in_bounds(),
        ensures
            s@ == expr_span(*self).text(),
    {
        self.span().to_string()
    }

    /// A copy of the expression's span.
    pub fn span(&self) -> (s: Span)
        ensures
            s == expr_span(*self),
    {
        match self {
            Expr::Value(x) => x.span.copy(),
            Expr::Ident(x) => x.span.copy(),
            Expr::Member(x) => x.span.copy(),
            Expr::Index(x) => x.span.copy(),
            Expr::Call(x) => x.span.copy(),
            Expr::Pipe(x) => x.span.copy(),
            Expr::Binary(x) => x.span.copy(),
            Expr::Unary(x) => x.span.copy(),
            Expr::Array(x) => x.span.copy(),
            Expr::Object(x) => x.span.copy(),
            Expr::Match(x) => x.span.copy(),
        }
    }
}

/// Raw text.
#[derive(Debug, PartialEq)]
pub struct TextNode {
    pub text: String,
    pub span: Span,
}

/// Interpolation: `{{ expr }}`.
#[derive(Debug, PartialEq)]
pub struct InterpNode {
    pub expr: Expr,
    pub span: Span,
}

/// A sequence of nodes: a template's body or a block body `{ ... }`.
#[derive(Debug, PartialEq)]
pub struct BlockNode {
    pub nodes: Vec<Node>,
    pub span: Span,
}

/// `@if (cond) { ... } @else @if (cond) { ... } @else { ... }`.
#[derive(Debug, PartialEq)]
pub struct IfNode {
    pub branches: Vec<IfBranch>,
    pub else_body: Option<BlockNode>,
    pub span: Span,
}

/// One `@if` or `@else @if` branch.
#[derive(Debug, PartialEq)]
pub struct IfBranch {
    pub condition: Expr,
    pub body: BlockNode,
    pub span: Span,
}

/// `@for (binding of iterable; track expr) { ... }`.
#[derive(Debug, PartialEq)]
pub struct ForNode {
    pub binding: String,
    pub iterable: Expr,
    pub track: Expr,
    pub body: BlockNode,
    pub span: Span,
}

/// `@switch (expr) { @case (value) { ... } @default { ... } }`.
#[derive(Debug, PartialEq)]
pub struct SwitchNode {
    pub expr: Expr,
    pub cases: Vec<SwitchCase>,
    pub default: Option<Vec<Node>>,
    pub span: Span,
}

/// One `@case`.
#[derive(Debug, PartialEq)]
pub struct SwitchCase {
    pub value: Expr,
    pub body: Vec<Node>,
    pub span: Span,
}

/// `@match (expr) { pattern => { ... }, _ => { ... } }`.
#[derive(Debug, PartialEq)]
pub struct MatchNode {
    pub expr: Expr,
    pub arms: Vec<MatchNodeArm>,
    pub default: Option<BlockNode>,
    pub span: Span,
}

/// One `pattern => { ... }` arm.
#[derive(Debug, PartialEq)]
pub struct MatchNodeArm {
    pub pattern: Expr,
    pub body: BlockNode,
    pub span: Span,
}

/// `@include(name)`: renders the template registered under `name`.
#[derive(Debug, PartialEq)]
pub struct IncludeNode {
    pub name: Expr,
    pub span: Span,
}

/// A template node.
#[derive(Debug, PartialEq)]
pub enum Node {
    Text(TextNode),
    Interp(InterpNode),
    If(IfNode),
    For(ForNode),
    Switch(SwitchNode),
    Match(MatchNode),
    Include(IncludeNode),
    Block(BlockNode),
}

/// The span of a node.
pub open spec fn node_span(n: Node) -> Span {
    match n {
        Node::Text(x) => x.span,
        Node::Interp(x) => x.span,
        Node::If(x) => x.span,
        Node::For(x) => x.span,
        Node::Switch(x) => x.span,
        Node::Match(x) => x.span,
        Node::Include(x) => x.span,
        Node::Block(x) => x.span,
    }
}

impl Node {
    /// The source text of the node.
    pub fn to_string(&self) -> (s: String)
        requires
            node_span(*self).in_bounds(),
        ensures
            s@ == node_span(*self).text(),
    {
        self.span().to_string()
    }

    /// A copy of the node's span.
    pub fn span(&self) -> (s: Span)
        ensures
            s == node_span(*self),
    {
        match self {
            Node::Text(x) => x.span.copy(),
            Node::Interp(x) => x.span.copy(),
            Node::If(x) => x.span.copy(),
            Node::For(x) => x.span.copy(),
            Node::Switch(x) => x.span.copy(),
            Node::Match(x) => x.span.copy(),
            Node::Include(x) => x.span.copy(),
            Node::Block(x) => x.span.copy(),
        }
    }
}

/// Whether a span lies within the bytes of the source `src` and refers
/// to it.
pub open spec fn span_within(sp: Span, src: Seq<char>) -> bool {
    sp.start <= sp.end <= blen(src) && sp.src@ == src
}

/// Whether an expression and every part of it carry spans within `src`.
pub open spec fn expr_within(e: Expr, src: Seq<char>) -> bool
    decreases e,
{
    &&& span_within(expr_span(e), src)
    &&& match e {
        Expr::Value(_) => true,
        Expr::Ident(_) => true,
        Expr::Member(x) => expr_within(*x.object, src),
        Expr::Index(x) => expr_within(*x.object, src) && expr_within(*x.index, src),
        Expr::Call(x) => expr_within(*x.callee, src) && exprs_within(x.args@, src),
        Expr::Pipe(x) => expr_within(*x.value, src) && exprs_within(x.args@, src),
        Expr::Binary(x) => expr_within(*x.left, src) && expr_within(*x.right, src),
        Expr::Unary(x) => expr_within(*x.operand, src),
        Expr::Array(x) => exprs_within(x.elements@, src),
        Expr::Object(x) => entries_within(x.entries@, src),
        Expr::Match(x) => {
            &&& expr_within(*x.expr, src)
            &&& arms_within(x.arms@, src)
            &&& match x.default {
                Some(d) => expr_within(*d, src),
                None => true,
            }
        },
    }
}

/// `expr_within` for each expression of `es`.
pub open spec fn exprs_within(es: Seq<Expr>, src: Seq<char>) -> bool
    decreases es,
{
    es.len() > 0 ==> expr_within(es[0], src) && exprs_within(es.drop_first(), src)
}

/// `expr_within` for the value of each entry of an object literal.
pub open spec fn entries_within(es: Seq<(String, Expr)>, src: Seq<char>) -> bool
    decreases es,
{
    es.len() > 0 ==> expr_within(es[0].1, src) && entries_within(es.drop_first(), src)
}

/// `expr_within` for each part of the arms of a match expression.
pub open spec fn arms_within(arms: Seq<MatchArm>, src: Seq<char>) -> bool
    decreases arms,
{
    arms.len() > 0 ==> {
        &&& span_within(arms[0].span, src)
        &&& expr_within(arms[0].pattern, src)
        &&& expr_within(arms[0].value, src)
        &&& arms_within(arms.drop_first(), src)
    }
}

/// Whether a node and everything in it carry spans within `src`, and each
/// text node holds exactly the source bytes it spans.
pub open spec fn node_within(n: Node, src: Seq<char>) -> bool
    decreases n,
{
    &&& span_within(node_span(n), src)
    &&& match n {
        Node::Text(x) => bytes(x.text@) == bytes(src).subrange(
            x.span.start as int,
            x.span.end as int,
        ),
        Node::Interp(x) => expr_within(x.expr, src),
        Node::If(x) => {
            &&& branches_within(x.branches@, src)
            &&& match x.else_body {
                Some(b) => block_within(b, src),
                None => true,
            }
        },
        Node::For(x) => {
            &&& expr_within(x.iterable, src)
            &&& expr_within(x.track, src)
            &&& block_within(x.body, src)
        },
        Node::Switch(x) => {
            &&& expr_within(x.expr, src)
            &&& cases_within(x.cases@, src)
            &&& match x.default {
                Some(ns) => nodes_within(ns@, src),
                None => true,
            }
        },
        Node::Match(x) => {
            &&& expr_within(x.expr, src)
            &&& node_arms_within(x.arms@, src)
            &&& match x.default {
                Some(b) => block_within(b, src),
                None => true,
            }
        },
        Node::Include(x) => expr_within(x.name, src),
        Node::Block(x) => block_within(x, src),
    }
}

/// `node_within` for each node of `ns`.
pub open spec fn nodes_within(ns: Seq<Node>, src: Seq<char>) -> bool
    decreases ns,
{
    ns.len() > 0 ==> node_within(ns[0], src) && nodes_within(ns.drop_first(), src)
}

/// Whether a block and everything in it carry spans within `src` (see
/// `node_within`).
pub open spec fn block_within(b: BlockNode, src: Seq<char>) -> bool
    decreases b,
{
    span_within(b.span, src) && nodes_within(b.nodes@, src)
}

/// The parts of each `@if` branch lie within `src`.
pub open spec fn branches_within(bs: Seq<IfBranch>, src: Seq<char>) -> bool
    decreases bs,
{
    bs.len() > 0 ==> {
        &&& span_within(bs[0].span, src)
        &&& expr_within(bs[0].condition, src)
        &&& block_within(bs[0].body, src)
        &&& branches_within(bs.drop_first(), src)
    }
}

/// The parts of each `@case` lie within `src`.
pub open spec fn cases_within(cs: Seq<SwitchCase>, src: Seq<char>) -> bool
    decreases cs,
{
    cs.len() > 0 ==> {
        &&& span_within(cs[0].span, src)
        &&& expr_within(cs[0].value, src)
        &&& nodes_within(cs[0].body@, src)
        &&& cases_within(cs.drop_first(), src)
    }
}

/// The parts of each `@match` arm lie within `src`.
pub open spec fn node_arms_within(arms: Seq<MatchNodeArm>, src: Seq<char>) -> bool
    decreases arms,
{
    arms.len() > 0 ==> {
        &&& span_within(arms[0].span, src)
        &&& expr_within(arms[0].pattern, src)
        &&& block_within(arms[0].body, src)
        &&& node_arms_within(arms.drop_first(), src)
    }
}

/// `exprs_within` holds exactly when each expression is within `src`.
pub proof fn lemma_exprs_within(es: Seq<Expr>, src: Seq<char>)
    ensures
        exprs_within(es, src) <==> forall|i: int| 0 <= i < es.len() ==> expr_within(#[trigger] es[i], src),
    decreases es.len(),
{
    if es.len() > 0 {
        let t = es.drop_first();
        lemma_exprs_within(t, src);
        if exprs_within(es, src) {
            assert forall|i: int| 0 <= i < es.len() implies expr_within(#[trigger] es[i], src) by {
                if i > 0 {
                    assert(es[i] == t[i - 1]);
                }
            }
        }
        if forall|i: int| 0 <= i < es.len() ==> expr_within(#[trigger] es[i], src) {
            assert forall|i: int| 0 <= i < t.len() implies expr_within(#[trigger] t[i], src) by {
                assert(t[i] == es[i + 1]);
            }
        }
    }
}

/// `entries_within` holds exactly when each entry's value is within `src`.
pub proof fn lemma_entries_within(es: Seq<(String, Expr)>, src: Seq<char>)
    ensures
        entries_within(es, src) <==> forall|i: int| 0 <= i < es.len() ==> expr_within(#[trigger] es[i].1, src),
    decreases es.len(),
{
    if es.len() > 0 {
        let t = es.drop_first();
        lemma_entries_within(t, src);
        if entries_within(es, src) {
            assert forall|i: int| 0 <= i < es.len() implies expr_within(#[trigger] es[i].1, src) by {
                if i > 0 {
                    assert(es[i] == t[i - 1]);
                }
            }
        }
        if forall|i: int| 0 <= i < es.len() ==> expr_within(#[trigger] es[i].1, src) {
            assert forall|i: int| 0 <= i < t.len() implies expr_within(#[trigger] t[i].1, src) by {
                assert(t[i] == es[i + 1]);
            }
        }
    }
}

/// `nodes_within` holds exactly when each node is within `src`.
pub proof fn lemma_nodes_within(ns: Seq<Node>, src: Seq<char>)
    ensures
        nodes_within(ns, src) <==> forall|i: int| 0 <= i < ns.len() ==> node_within(#[trigger] ns[i], src),
    decreases ns.len(),
{
    if ns.len() > 0 {
        let t = ns.drop_first();
        lemma_nodes_within(t, src);
        if nodes_within(ns, src) {
            assert forall|i: int| 0 <= i < ns.len() implies node_within(#[trigger] ns[i], src) by {
                if i > 0 {
                    assert(ns[i] == t[i - 1]);
                }
            }
        }
        if forall|i: int| 0 <= i < ns.len() ==> node_within(#[trigger] ns[i], src) {
            assert forall|i: int| 0 <= i < t.len() implies node_within(#[trigger] t[i], src) by {
                assert(t[i] == ns[i + 1]);
            }
        }
    }
}

/// `branches_within` holds when each branch's parts are within `src`.
pub proof fn lemma_branches_within(bs: Seq<IfBranch>, src: Seq<char>)
    ensures
        (forall|i: int| 0 <= i < bs.len() ==> {
                &&& span_within(#[trigger] bs[i].span, src)
                &&& expr_within(bs[i].condition, src)
                &&& block_within(bs[i].body, src)
            }) ==> branches_within(bs, src),
    decreases bs.len(),
{
    if bs.len() > 0 {
        let t = bs.drop_first();
        lemma_branches_within(t, src);
        if forall|i: int| 0 <= i < bs.len() ==> {
                &&& span_within(#[trigger] bs[i].span, src)
                &&& expr_within(bs[i].condition, src)
                &&& block_within(bs[i].body, src)
            } {
            assert forall|i: int| 0 <= i < t.len() implies {
                &&& span_within(#[trigger] t[i].span, src)
                &&& expr_within(t[i].condition, src)
                &&& block_within(t[i].body, src)
            } by {
                assert(t[i] == bs[i + 1]);
                assert(span_within(bs[i + 1].span, src) && expr_within(bs[i + 1].condition, src) && block_within(bs[i + 1].body, src));
            }
            assert(branches_within(t, src));
            assert(span_within(bs[0].span, src) && expr_within(bs[0].condition, src) && block_within(bs[0].body, src));
        }
    }
}

/// `cases_within` holds when each case's parts are within `src`.
pub proof fn lemma_cases_within(cs: Seq<SwitchCase>, src: Seq<char>)
    ensures
        (forall|i: int| 0 <= i < cs.len() ==> {
                &&& span_within(#[trigger] cs[i].span, src)
                &&& expr_within(cs[i].value, src)
                &&& nodes_within(cs[i].body@, src)
            }) ==> cases_within(cs, src),
    decreases cs.len(),
{
    if cs.len() > 0 {
        let t = cs.drop_first();
        lemma_cases_within(t, src);
        if forall|i: int| 0 <= i < cs.len() ==> {
                &&& span_within(#[trigger] cs[i].span, src)
                &&& expr_within(cs[i].value, src)
                &&& nodes_within(cs[i].body@, src)
            } {
            assert forall|i: int| 0 <= i < t.len() implies {
                &&& span_within(#[trigger] t[i].span, src)
                &&& expr_within(t[i].value, src)
                &&& nodes_within(t[i].body@, src)
            } by {
                assert(t[i] == cs[i + 1]);
                assert(span_within(cs[i + 1].span, src) && expr_within(cs[i + 1].value, src) && nodes_within(cs[i + 1].body@, src));
            }
            assert(cases_within(t, src));
            assert(span_within(cs[0].span, src) && expr_within(cs[0].value, src) && nodes_within(cs[0].body@, src));
        }
    }
}

/// Adding an arm whose parts are within `src` keeps `node_arms_within`.
pub proof fn lemma_node_arms_push(arms: Seq<MatchNodeArm>, arm: MatchNodeArm, src: Seq<char>)
    requires
        node_arms_within(arms, src),
        span_within(arm.span, src),
        expr_within(arm.pattern, src),
        block_within(arm.body, src),
    ensures
        node_arms_within(arms.push(arm), src),
    decreases arms.len(),
{
    let p = arms.push(arm);
    if arms.len() > 0 {
        lemma_node_arms_push(arms.drop_first(), arm, src);
        assert(p.drop_first() =~= arms.drop_first().push(arm));
        assert(p[0] == arms[0]);
        assert(node_arms_within(p.drop_first(), src));
    } else {
        assert(p.drop_first().len() == 0);
        assert(node_arms_within(p.drop_first(), src));
        assert(p[0] == arm);
    }
    assert(span_within(p[0].span, src) && expr_within(p[0].pattern, src) && block_within(p[0].body, src));
}

} // verus!
