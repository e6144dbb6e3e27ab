//! Rendering of templates.
//!
//! `node_output` and the spec functions it calls state the text a node
//! renders to, given a scope, the bindings of the enclosing `@for` loops,
//! the number of `@include`s it is nested in, and the host's replies (see
//! `crate::host`). The `render` methods compute exactly that.

use vstd::prelude::*;

use crate::ast::{
    expr_span, BlockNode, ForNode, IfNode, IncludeNode, InterpNode, MatchNode, Node, SwitchNode,
    TextNode,
};
use crate::display::{display_value, shown};
use crate::error::{ErrorKindView, EvalError, EvalErrorKind};
use crate::eval::{expr_value, fail, type_error};
use crate::host::{replies_view, text_out, Halt, Reply, ReplyView, Stop};
use crate::scope::Scope;
use crate::template::Template;
use crate::text::push_str;
use crate::value::{
    fields_view, items_view, kind_name, lemma_fields_view, lemma_fields_view_push,
    lemma_items_view, truthy, value_eq, Val, Value,
};

verus! {

/// How deeply `@include`s may nest.
pub const MAX_INCLUDE_DEPTH: usize = 64;

/// The text a node renders to.
pub open spec fn node_output(
    n: Node,
    scope: Scope,
    locals: Seq<(Seq<char>, Val)>,
    depth: int,
    rs: Seq<ReplyView>,
    pos: int,
) -> (Result<Seq<char>, Halt>, int)
    decreases MAX_INCLUDE_DEPTH - depth, n, 0int,
{
    match n {
        Node::Text(x) => (Ok(x.text@), pos),
        Node::Interp(x) => {
            let (v, p) = expr_value(x.expr, scope, locals, rs, pos);
            match v {
                Ok(val) => shown(val, x.span@, rs, p),
                Err(h) => (Err(h), p),
            }
        },
        Node::If(x) => if_output(x, 0, scope, locals, depth, rs, pos),
        Node::For(x) => {
            let (v, p) = expr_value(x.iterable, scope, locals, rs, pos);
            match v {
                Ok(Val::Array(items)) => for_output(x, items, 0, seq![], scope, locals, depth, rs, p),
                Ok(_) => (Err(fail(ErrorKindView::NotIterable, expr_span(x.iterable)@)), p),
                Err(h) => (Err(h), p),
            }
        },
        Node::Switch(x) => {
            let (v, p) = expr_value(x.expr, scope, locals, rs, pos);
            match v {
                Ok(subject) => switch_output(x, 0, subject, scope, locals, depth, rs, p),
                Err(h) => (Err(h), p),
            }
        },
        Node::Match(x) => {
            let (v, p) = expr_value(x.expr, scope, locals, rs, pos);
            match v {
                Ok(subject) => match_output(x, 0, subject, scope, locals, depth, rs, p),
                Err(h) => (Err(h), p),
            }
        },
        Node::Include(x) => if depth >= MAX_INCLUDE_DEPTH {
            (Err(fail(ErrorKindView::IncludeDepth, x.span@)), pos)
        } else {
            let (t, p) = include_target(x, scope, locals, rs, pos);
            match t {
                Ok(tpl) => block_output(tpl.body(), scope, locals, depth + 1, rs, p),
                Err(h) => (Err(h), p),
            }
        },
        Node::Block(x) => block_output(x, scope, locals, depth, rs, pos),
    }
}

/// The template an `@include` names: its name expression must evaluate to
/// a string under which a template is registered.
pub open spec fn include_target(
    x: IncludeNode,
    scope: Scope,
    locals: Seq<(Seq<char>, Val)>,
    rs: Seq<ReplyView>,
    pos: int,
) -> (Result<Template, Halt>, int) {
    let (v, p) = expr_value(x.name, scope, locals, rs, pos);
    match v {
        Ok(Val::Str(name)) => match scope.template_of(name) {
            Some(t) => (Ok(t), p),
            None => (Err(fail(ErrorKindView::UndefinedTemplate(name), x.span@)), p),
        },
        Ok(other) => (Err(type_error("string"@, other, x.span@)), p),
        Err(h) => (Err(h), p),
    }
}

/// The text a block renders to: its nodes' texts, in order.
pub open spec fn block_output(
    b: BlockNode,
    scope: Scope,
    locals: Seq<(Seq<char>, Val)>,
    depth: int,
    rs: Seq<ReplyView>,
    pos: int,
) -> (Result<Seq<char>, Halt>, int)
    decreases MAX_INCLUDE_DEPTH - depth, b, 0int,
{
    nodes_output(b.nodes@, 0, seq![], scope, locals, depth, rs, pos)
}

/// `acc` followed by the texts of `ns[i..]`.
pub open spec fn nodes_output(
    ns: Seq<Node>,
    i: int,
    acc: Seq<char>,
    scope: Scope,
    locals: Seq<(Seq<char>, Val)>,
    depth: int,
    rs: Seq<ReplyView>,
    pos: int,
) -> (Result<Seq<char>, Halt>, int)
    decreases MAX_INCLUDE_DEPTH - depth, ns, ns.len() - i,
{
    if i < 0 || i >= ns.len() {
        (Ok(acc), pos)
    } else {
        let (r, p) = node_output(ns[i], scope, locals, depth, rs, pos);
        match r {
            Ok(t) => nodes_output(ns, i + 1, acc + t, scope, locals, depth, rs, p),
            Err(h) => (Err(h), p),
        }
    }
}

/// An `@if` from its branches `i..`: the body of the first branch whose
/// condition is truthy, else the `@else` body, else nothing.
pub open spec fn if_output(
    x: IfNode,
    i: int,
    scope: Scope,
    locals: Seq<(Seq<char>, Val)>,
    depth: int,
    rs: Seq<ReplyView>,
    pos: int,
) -> (Result<Seq<char>, Halt>, int)
    decreases MAX_INCLUDE_DEPTH - depth, x, x.branches@.len() - i,
{
    if i < 0 || i >= x.branches@.len() {
        match x.else_body {
            Some(b) => block_output(b, scope, locals, depth, rs, pos),
            None => (Ok(seq![]), pos),
        }
    } else {
        let (c, p) = expr_value(x.branches@[i].condition, scope, locals, rs, pos);
        match c {
            Ok(v) => if truthy(v) {
                block_output(x.branches@[i].body, scope, locals, depth, rs, p)
            } else {
                if_output(x, i + 1, scope, locals, depth, rs, p)
            },
            Err(h) => (Err(h), p),
        }
    }
}

/// A `@for` from item `k` on: `acc` followed by the body rendered once per
/// item, with the binding set to the item.
pub open spec fn for_output(
    x: ForNode,
    items: Seq<Val>,
    k: int,
    acc: Seq<char>,
    scope: Scope,
    locals: Seq<(Seq<char>, Val)>,
    depth: int,
    rs: Seq<ReplyView>,
    pos: int,
) -> (Result<Seq<char>, Halt>, int)
    decreases MAX_INCLUDE_DEPTH - depth, x, items.len() - k,
{
    if k < 0 || k >= items.len() {
        (Ok(acc), pos)
    } else {
        let (r, p) = block_output(
            x.body,
            scope,
            locals.push((x.binding@, items[k])),
            depth,
            rs,
            pos,
        );
        match r {
            Ok(t) => for_output(x, items, k + 1, acc + t, scope, locals, depth, rs, p),
            Err(h) => (Err(h), p),
        }
    }
}

/// A `@switch` from its cases `i..`: the body of the first case whose value
/// equals `subject`, else the `@default` body, else nothing.
pub open spec fn switch_output(
    x: SwitchNode,
    i: int,
    subject: Val,
    scope: Scope,
    locals: Seq<(Seq<char>, Val)>,
    depth: int,
    rs: Seq<ReplyView>,
    pos: int,
) -> (Result<Seq<char>, Halt>, int)
    decreases MAX_INCLUDE_DEPTH - depth, x, x.cases@.len() - i,
{
    if i < 0 || i >= x.cases@.len() {
        match x.default {
            Some(ns) => nodes_output(ns@, 0, seq![], scope, locals, depth, rs, pos),
            None => (Ok(seq![]), pos),
        }
    } else {
        let (c, p) = expr_value(x.cases@[i].value, scope, locals, rs, pos);
        match c {
            Ok(v) => if value_eq(subject, v) {
                nodes_output(x.cases@[i].body@, 0, seq![], scope, locals, depth, rs, p)
            } else {
                switch_output(x, i + 1, subject, scope, locals, depth, rs, p)
            },
            Err(h) => (Err(h), p),
        }
    }
}

/// A `@match` from its arms `i..`: the body of the first arm whose pattern
/// equals `subject`, else the `_` body, else nothing.
pub open spec fn match_output(
    x: MatchNode,
    i: int,
    subject: Val,
    scope: Scope,
    locals: Seq<(Seq<char>, Val)>,
    depth: int,
    rs: Seq<ReplyView>,
    pos: int,
) -> (Result<Seq<char>, Halt>, int)
    decreases MAX_INCLUDE_DEPTH - depth, x, x.arms@.len() - i,
{
    if i < 0 || i >= x.arms@.len() {
        match x.default {
            Some(b) => block_output(b, scope, locals, depth, rs, pos),
            None => (Ok(seq![]), pos),
        }
    } else {
        let (c, p) = expr_value(x.arms@[i].pattern, scope, locals, rs, pos);
        match c {
            Ok(v) => if value_eq(subject, v) {
                block_output(x.arms@[i].body, scope, locals, depth, rs, p)
            } else {
                match_output(x, i + 1, subject, scope, locals, depth, rs, p)
            },
            Err(h) => (Err(h), p),
        }
    }
}


/// A copy of the loop bindings.
fn copy_bindings(locals: &Vec<(String, Value)>) -> (r: Vec<(String, Value)>)
    ensures
        fields_view(r@) == fields_view(locals@),
{
    broadcast use lemma_fields_view;

    let mut out: Vec<(String, Value)> = Vec::new();
    let mut i: usize = 0;
    while i < locals.len()
        invariant
            i <= locals@.len(),
            fields_view(out@) == fields_view(locals@.subrange(0, i as int)),
        decreases locals@.len() - i,
    {
        let k = locals[i].0.clone();
        let v = locals[i].1.copy();
        proof {
            lemma_fields_view_push(out@, (k, v));
            lemma_fields_view_push(locals@.subrange(0, i as int), locals@[i as int]);
            assert(locals@.subrange(0, i + 1) == locals@.subrange(0, i as int).push(
                locals@[i as int],
            ));
        }
        out.push((k, v));
        i += 1;
    }
    assert(locals@.subrange(0, i as int) == locals@);
    out
}

/// Renders `nodes` in order and joins their texts (see `nodes_output`).
pub fn render_nodes(
    nodes: &Vec<Node>,
    scope: &Scope,
    locals: &Vec<(String, Value)>,
    depth: usize,
    replies: &Vec<Reply>,
    pos: &mut usize,
) -> (r: Result<String, Stop>)
    requires
        *old(pos) <= replies@.len(),
    ensures
        *final(pos) <= replies@.len(),
        (text_out(r), *final(pos) as int) == nodes_output(
            nodes@,
            0,
            seq![],
            *scope,
            fields_view(locals@),
            depth as int,
            replies_view(replies@),
            *old(pos) as int,
        ),
    decreases MAX_INCLUDE_DEPTH - depth, nodes, 0nat,
{
    let mut out = String::new();
    let mut i: usize = 0;
    while i < nodes.len()
        invariant
            i <= nodes@.len(),
            *pos <= replies@.len(),
            nodes_output(
                nodes@,
                0,
                seq![],
                *scope,
                fields_view(locals@),
                depth as int,
                replies_view(replies@),
                *old(pos) as int,
            ) == nodes_output(
                nodes@,
                i as int,
                out@,
                *scope,
                fields_view(locals@),
                depth as int,
                replies_view(replies@),
                *pos as int,
            ),
        decreases nodes@.len() - i,
    {
        proof {
            assert(decreases_to!(nodes => nodes@[i as int]));
        }
        let ghost before = *pos;
        match nodes[i].render(scope, locals, depth, replies, pos) {
            Ok(t) => push_str(&mut out, t.as_str()),
            Err(h) => {
                assert(nodes_output(
                    nodes@,
                    i as int,
                    out@,
                    *scope,
                    fields_view(locals@),
                    depth as int,
                    replies_view(replies@),
                    before as int,
                ) == (Err::<Seq<char>, Halt>(h@), *pos as int));
                return Err(h);
            },
        }
        i += 1;
    }
    Ok(out)
}

impl Node {
    /// Renders the node (see `node_output`).
    pub fn render(
        &self,
        scope: &Scope,
        locals: &Vec<(String, Value)>,
        depth: usize,
        replies: &Vec<Reply>,
        pos: &mut usize,
    ) -> (r: Result<String, Stop>)
        requires
            *old(pos) <= replies@.len(),
        ensures
            *final(pos) <= replies@.len(),
            (text_out(r), *final(pos) as int) == node_output(
                *self,
                *scope,
                fields_view(locals@),
                depth as int,
                replies_view(replies@),
                *old(pos) as int,
            ),
        decreases MAX_INCLUDE_DEPTH - depth, self, 0nat,
    {
        match self {
            Node::Text(x) => Ok(x.render()),
            Node::Interp(x) => x.render(scope, locals, replies, pos),
            Node::If(x) => x.render(scope, locals, depth, replies, pos),
            Node::For(x) => x.render(scope, locals, depth, replies, pos),
            Node::Switch(x) => x.render(scope, locals, depth, replies, pos),
            Node::Match(x) => x.render(scope, locals, depth, replies, pos),
            Node::Include(x) => {
                if depth >= MAX_INCLUDE_DEPTH {
                    return Err(Stop::Fail(EvalError::new(EvalErrorKind::IncludeDepth, x.span.copy())));
                }
                match x.target(scope, locals, replies, pos) {
                    Ok(t) => t.block().render(scope, locals, depth + 1, replies, pos),
                    Err(h) => Err(h),
                }
            },
            Node::Block(x) => x.render(scope, locals, depth, replies, pos),
        }
    }
}

impl TextNode {
    /// The text itself.
    pub fn render(&self) -> (r: String)
        ensures
            r@ == self.text@,
    {
        self.text.clone()
    }
}

impl InterpNode {
    /// The text of the expression's value (see `crate::display::shown`).
    pub fn render(
        &self,
        scope: &Scope,
        locals: &Vec<(String, Value)>,
        replies: &Vec<Reply>,
        pos: &mut usize,
    ) -> (r: Result<String, Stop>)
        requires
            *old(pos) <= replies@.len(),
        ensures
            *final(pos) <= replies@.len(),
            (text_out(r), *final(pos) as int) == node_output(
                Node::Interp(*self),
                *scope,
                fields_view(locals@),
                0,
                replies_view(replies@),
                *old(pos) as int,
            ),
    {
        match self.expr.eval(scope, locals, replies, pos) {
            Ok(v) => display_value(&v, &self.span, replies, pos),
            Err(h) => Err(h),
        }
    }
}

impl BlockNode {
    /// Renders the block's nodes in order (see `block_output`).
    pub fn render(
        &self,
        scope: &Scope,
        locals: &Vec<(String, Value)>,
        depth: usize,
        replies: &Vec<Reply>,
        pos: &mut usize,
    ) -> (r: Result<String, Stop>)
        requires
            *old(pos) <= replies@.len(),
        ensures
            *final(pos) <= replies@.len(),
            (text_out(r), *final(pos) as int) == block_output(
                *self,
                *scope,
                fields_view(locals@),
                depth as int,
                replies_view(replies@),
                *old(pos) as int,
            ),
        decreases MAX_INCLUDE_DEPTH - depth, self, 0nat,
    {
        render_nodes(&self.nodes, scope, locals, depth, replies, pos)
    }
}

impl IfNode {
    /// Renders the first branch whose condition holds (see `if_output`).
    pub fn render(
        &self,
        scope: &Scope,
        locals: &Vec<(String, Value)>,
        depth: usize,
        replies: &Vec<Reply>,
        pos: &mut usize,
    ) -> (r: Result<String, Stop>)
        requires
            *old(pos) <= replies@.len(),
        ensures
            *final(pos) <= replies@.len(),
            (text_out(r), *final(pos) as int) == if_output(
                *self,
                0,
                *scope,
                fields_view(locals@),
                depth as int,
                replies_view(replies@),
                *old(pos) as int,
            ),
        decreases MAX_INCLUDE_DEPTH - depth, self, self.branches@.len() + 1,
    {
        self.render_from(0, scope, locals, depth, replies, pos)
    }

    fn render_from(
        &self,
        i: usize,
        scope: &Scope,
        locals: &Vec<(String, Value)>,
        depth: usize,
        replies: &Vec<Reply>,
        pos: &mut usize,
    ) -> (r: Result<String, Stop>)
        requires
            i <= self.branches@.len(),
            *old(pos) <= replies@.len(),
        ensures
            *final(pos) <= replies@.len(),
            (text_out(r), *final(pos) as int) == if_output(
                *self,
                i as int,
                *scope,
                fields_view(locals@),
                depth as int,
                replies_view(replies@),
                *old(pos) as int,
            ),
        decreases MAX_INCLUDE_DEPTH - depth, self, self.branches@.len() - i,
    {
        if i >= self.branches.len() {
            return match &self.else_body {
                Some(b) => b.render(scope, locals, depth, replies, pos),
                None => Ok(String::new()),
            };
        }
        proof {
            assert(decreases_to!(self => self.branches@[i as int].body));
        }
        let c = match self.branches[i].condition.eval(scope, locals, replies, pos) {
            Ok(v) => v,
            Err(h) => return Err(h),
        };
        if c.is_truthy() {
            self.branches[i].body.render(scope, locals, depth, replies, pos)
        } else {
            self.render_from(i + 1, scope, locals, depth, replies, pos)
        }
    }
}

impl ForNode {
    /// Renders the body once per item of the array the iterable evaluates
    /// to, with the binding set to the item (see `for_output`).
    pub fn render(
        &self,
        scope: &Scope,
        locals: &Vec<(String, Value)>,
        depth: usize,
        replies: &Vec<Reply>,
        pos: &mut usize,
    ) -> (r: Result<String, Stop>)
        requires
            *old(pos) <= replies@.len(),
        ensures
            *final(pos) <= replies@.len(),
            (text_out(r), *final(pos) as int) == node_output(
                Node::For(*self),
                *scope,
                fields_view(locals@),
                depth as int,
                replies_view(replies@),
                *old(pos) as int,
            ),
        decreases MAX_INCLUDE_DEPTH - depth, self, 0nat,
    {
        broadcast use lemma_items_view;

        let v = match self.iterable.eval(scope, locals, replies, pos) {
            Ok(v) => v,
            Err(h) => return Err(h),
        };
        let items = match &v {
            Value::Array(items) => items,
            _ => {
                return Err(
                    Stop::Fail(EvalError::new(EvalErrorKind::NotIterable, self.iterable.span())),
                );
            },
        };
        let ghost iv = items_view(items@);
        let mut out = String::new();
        let mut k: usize = 0;
        while k < items.len()
            invariant
                k <= items@.len(),
                iv == items_view(items@),
                *pos <= replies@.len(),
                node_output(
                    Node::For(*self),
                    *scope,
                    fields_view(locals@),
                    depth as int,
                    replies_view(replies@),
                    *old(pos) as int,
                ) == for_output(
                    *self,
                    iv,
                    k as int,
                    out@,
                    *scope,
                    fields_view(locals@),
                    depth as int,
                    replies_view(replies@),
                    *pos as int,
                ),
            decreases items@.len() - k,
        {
            let mut inner = copy_bindings(locals);
            let b = self.binding.clone();
            let item = items[k].copy();
            proof {
                lemma_items_view(items@);
                lemma_fields_view_push(inner@, (b, item));
            }
            inner.push((b, item));
            let ghost before = *pos;
            match self.body.render(scope, &inner, depth, replies, pos) {
                Ok(t) => push_str(&mut out, t.as_str()),
                Err(h) => {
                    assert(for_output(
                        *self,
                        iv,
                        k as int,
                        out@,
                        *scope,
                        fields_view(locals@),
                        depth as int,
                        replies_view(replies@),
                        before as int,
                    ) == (Err::<Seq<char>, Halt>(h@), *pos as int));
                    return Err(h);
                },
            }
            k += 1;
        }
        Ok(out)
    }
}

impl SwitchNode {
    /// Renders the first case whose value equals the subject (see
    /// `switch_output`).
    pub fn render(
        &self,
        scope: &Scope,
        locals: &Vec<(String, Value)>,
        depth: usize,
        replies: &Vec<Reply>,
        pos: &mut usize,
    ) -> (r: Result<String, Stop>)
        requires
            *old(pos) <= replies@.len(),
        ensures
            *final(pos) <= replies@.len(),
            (text_out(r), *final(pos) as int) == node_output(
                Node::Switch(*self),
                *scope,
                fields_view(locals@),
                depth as int,
                replies_view(replies@),
                *old(pos) as int,
            ),
        decreases MAX_INCLUDE_DEPTH - depth, self, self.cases@.len() + 1,
    {
        let subject = match self.expr.eval(scope, locals, replies, pos) {
            Ok(v) => v,
            Err(h) => return Err(h),
        };
        self.render_from(0, &subject, scope, locals, depth, replies, pos)
    }

    fn render_from(
        &self,
        i: usize,
        subject: &Value,
        scope: &Scope,
        locals: &Vec<(String, Value)>,
        depth: usize,
        replies: &Vec<Reply>,
        pos: &mut usize,
    ) -> (r: Result<String, Stop>)
        requires
            i <= self.cases@.len(),
            *old(pos) <= replies@.len(),
        ensures
            *final(pos) <= replies@.len(),
            (text_out(r), *final(pos) as int) == switch_output(
                *self,
                i as int,
                subject@,
                *scope,
                fields_view(locals@),
                depth as int,
                replies_view(replies@),
                *old(pos) as int,
            ),
        decreases MAX_INCLUDE_DEPTH - depth, self, self.cases@.len() - i,
    {
        if i >= self.cases.len() {
            return match &self.default {
                Some(ns) => render_nodes(ns, scope, locals, depth, replies, pos),
                None => Ok(String::new()),
            };
        }
        proof {
            assert(decreases_to!(self => self.cases@[i as int].body));
        }
        let c = match self.cases[i].value.eval(scope, locals, replies, pos) {
            Ok(v) => v,
            Err(h) => return Err(h),
        };
        if subject.equals(&c) {
            render_nodes(&self.cases[i].body, scope, locals, depth, replies, pos)
        } else {
            self.render_from(i + 1, subject, scope, locals, depth, replies, pos)
        }
    }
}

impl MatchNode {
    /// Renders the first arm whose pattern equals the subject (see
    /// `match_output`).
    pub fn render(
        &self,
        scope: &Scope,
        locals: &Vec<(String, Value)>,
        depth: usize,
        replies: &Vec<Reply>,
        pos: &mut usize,
    ) -> (r: Result<String, Stop>)
        requires
            *old(pos) <= replies@.len(),
        ensures
            *final(pos) <= replies@.len(),
            (text_out(r), *final(pos) as int) == node_output(
                Node::Match(*self),
                *scope,
                fields_view(locals@),
                depth as int,
                replies_view(replies@),
                *old(pos) as int,
            ),
        decreases MAX_INCLUDE_DEPTH - depth, self, self.arms@.len() + 1,
    {
        let subject = match self.expr.eval(scope, locals, replies, pos) {
            Ok(v) => v,
            Err(h) => return Err(h),
        };
        self.render_from(0, &subject, scope, locals, depth, replies, pos)
    }

    fn render_from(
        &self,
        i: usize,
        subject: &Value,
        scope: &Scope,
        locals: &Vec<(String, Value)>,
        depth: usize,
        replies: &Vec<Reply>,
        pos: &mut usize,
    ) -> (r: Result<String, Stop>)
        requires
            i <= self.arms@.len(),
            *old(pos) <= replies@.len(),
        ensures
            *final(pos) <= replies@.len(),
            (text_out(r), *final(pos) as int) == match_output(
                *self,
                i as int,
                subject@,
                *scope,
                fields_view(locals@),
                depth as int,
                replies_view(replies@),
                *old(pos) as int,
            ),
        decreases MAX_INCLUDE_DEPTH - depth, self, self.arms@.len() - i,
    {
        if i >= self.arms.len() {
            return match &self.default {
                Some(b) => b.render(scope, locals, depth, replies, pos),
                None => Ok(String::new()),
            };
        }
        proof {
            assert(decreases_to!(self => self.arms@[i as int].body));
        }
        let c = match self.arms[i].pattern.eval(scope, locals, replies, pos) {
            Ok(v) => v,
            Err(h) => return Err(h),
        };
        if subject.equals(&c) {
            self.arms[i].body.render(scope, locals, depth, replies, pos)
        } else {
            self.render_from(i + 1, subject, scope, locals, depth, replies, pos)
        }
    }
}

impl IncludeNode {
    /// The template the include names (see `include_target`).
    pub fn target<'a>(
        &self,
        scope: &'a Scope,
        locals: &Vec<(String, Value)>,
        replies: &Vec<Reply>,
        pos: &mut usize,
    ) -> (r: Result<&'a Template, Stop>)
        requires
            *old(pos) <= replies@.len(),
        ensures
            *final(pos) <= replies@.len(),
            (match r {
                Ok(t) => Ok(*t),
                Err(s) => Err(s@),
            }, *final(pos) as int) == include_target(
                *self,
                *scope,
                fields_view(locals@),
                replies_view(replies@),
                *old(pos) as int,
            ),
    {
        let v = match self.name.eval(scope, locals, replies, pos) {
            Ok(v) => v,
            Err(h) => return Err(h),
        };
        match &v {
            Value::Str(name) => match scope.template(name.as_str()) {
                Some(t) => Ok(t),
                None => Err(
                    Stop::Fail(
                        EvalError::new(EvalErrorKind::UndefinedTemplate(name.clone()), self.span.copy()),
                    ),
                ),
            },
            _ => Err(
                Stop::Fail(
                    EvalError::new(
                        EvalErrorKind::TypeError { expected: "string", got: v.kind_name() },
                        self.span.copy(),
                    ),
                ),
            ),
        }
    }

    /// Renders the template the include names, one level deeper (see
    /// `node_output`).
    pub fn render(
        &self,
        scope: &Scope,
        locals: &Vec<(String, Value)>,
        depth: usize,
        replies: &Vec<Reply>,
        pos: &mut usize,
    ) -> (r: Result<String, Stop>)
        requires
            *old(pos) <= replies@.len(),
        ensures
            *final(pos) <= replies@.len(),
            (text_out(r), *final(pos) as int) == node_output(
                Node::Include(*self),
                *scope,
                fields_view(locals@),
                depth as int,
                replies_view(replies@),
                *old(pos) as int,
            ),
    {
        if depth >= MAX_INCLUDE_DEPTH {
            return Err(Stop::Fail(EvalError::new(EvalErrorKind::IncludeDepth, self.span.copy())));
        }
        match self.target(scope, locals, replies, pos) {
            Ok(t) => t.block().render(scope, locals, depth + 1, replies, pos),
            Err(h) => Err(h),
        }
    }
}

impl Template {
    /// Renders the template against `scope`, with no loop bindings, at the
    /// outermost include level, reading `replies` from the first.
    pub fn render(&self, scope: &Scope, replies: &Vec<Reply>) -> (r: Result<String, Stop>)
        ensures
            text_out(r) == block_output(
                self.body(),
                *scope,
                seq![],
                0,
                replies_view(replies@),
                0,
            ).0,
    {
        let mut pos: usize = 0;
        let locals: Vec<(String, Value)> = Vec::new();
        proof {
            lemma_fields_view(locals@);
            assert(fields_view(locals@) == Seq::<(Seq<char>, Val)>::empty());
        }
        self.block().render(scope, &locals, 0, replies, &mut pos)
    }
}

impl Scope {
    /// Renders the template registered under `name` (see
    /// `Template::render`).
    pub fn render(&self, name: &str, replies: &Vec<Reply>) -> (r: Result<String, Stop>)
        requires
            self.template_of(name@) is Some,
        ensures
            text_out(r) == block_output(
                self.template_of(name@)->Some_0.body(),
                *self,
                seq![],
                0,
                replies_view(replies@),
                0,
            ).0,
    {
        match self.template(name) {
            Some(t) => t.render(self, replies),
            None => Ok(String::new()),
        }
    }
}

} // verus!
