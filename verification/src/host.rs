//! The conversation between the evaluator and its host.
//!
//! Some of what rendering needs is not computed by the library itself:
//! floating-point arithmetic, comparison and formatting, and the pipes and
//! functions that the host registers by name. When evaluation reaches such
//! a step it reads the next entry of a list of replies; when that list is
//! used up it stops and hands back a `Request`. The host answers the
//! request, appends the reply and evaluates again from the start, which
//! reads the same replies in the same order and gets one step further.

use vstd::prelude::*;

use crate::error::{ErrorKindView, ErrorView, EvalError, EvalErrorKind, SpanView};
use crate::op::BinaryOp;
use crate::span::Span;
use crate::value::{items_view, Val, Value};

verus! {

/// A number operand: an integer, or the bits of an IEEE-754 binary64 float.
#[derive(Debug, Clone, Copy, PartialEq, Eq, Structural)]
pub enum Number {
    Int(i64),
    Float(u64),
}

/// What the evaluator asks of its host.
#[derive(Debug, Clone, PartialEq)]
pub enum Request {
    /// Parse a float literal's source text; answered with `Reply::Float`.
    ParseFloat(String),
    /// `left op right` for `+ - * / %` in floating point, where at least one
    /// operand is a float (an integer operand is converted first); answered
    /// with `Reply::Float`.
    Arith { op: BinaryOp, left: Number, right: Number },
    /// `left op right` for `< <= > >=`, both operands converted to floats;
    /// answered with `Reply::Bool`.
    Compare { op: BinaryOp, left: Number, right: Number },
    /// Format a float for display; answered with `Reply::Text`.
    FormatFloat(u64),
    /// Apply the pipe registered under `name`; answered with `Reply::Value`
    /// or `Reply::Error`.
    Pipe { name: String, value: Value, args: Vec<Value> },
    /// Call the function registered under `name`; answered with
    /// `Reply::Value` or `Reply::Error`.
    Func { name: String, args: Vec<Value> },
}

/// The host's answer to a `Request`.
#[derive(Debug, Clone, PartialEq)]
pub enum Reply {
    Float(u64),
    Bool(bool),
    Text(String),
    Value(Value),
    Error(EvalError),
}

/// Why evaluation stopped before producing a result.
#[derive(Debug, Clone, PartialEq)]
pub enum Stop {
    /// Evaluation failed.
    Fail(EvalError),
    /// Evaluation needs the host's answer to this request.
    Ask(Request),
}

/// The model of a `Request`.
pub enum RequestView {
    ParseFloat(Seq<char>),
    Arith { op: BinaryOp, left: Number, right: Number },
    Compare { op: BinaryOp, left: Number, right: Number },
    FormatFloat(u64),
    Pipe { name: Seq<char>, value: Val, args: Seq<Val> },
    Func { name: Seq<char>, args: Seq<Val> },
}

/// The model of a `Reply`.
pub enum ReplyView {
    Float(u64),
    Bool(bool),
    Text(Seq<char>),
    Value(Val),
    Error(ErrorView),
}

/// The model of a `Stop`.
pub enum Halt {
    Fail(ErrorView),
    Ask(RequestView),
}

impl View for Request {
    type V = RequestView;

    open spec fn view(&self) -> RequestView {
        match self {
            Request::ParseFloat(t) => RequestView::ParseFloat(t@),
            Request::Arith { op, left, right } => RequestView::Arith {
                op: *op,
                left: *left,
                right: *right,
            },
            Request::Compare { op, left, right } => RequestView::Compare {
                op: *op,
                left: *left,
                right: *right,
            },
            Request::FormatFloat(b) => RequestView::FormatFloat(*b),
            Request::Pipe { name, value, args } => RequestView::Pipe {
                name: name@,
                value: value@,
                args: items_view(args@),
            },
            Request::Func { name, args } => RequestView::Func {
                name: name@,
                args: items_view(args@),
            },
        }
    }
}

impl View for Reply {
    type V = ReplyView;

    open spec fn view(&self) -> ReplyView {
        match self {
            Reply::Float(b) => ReplyView::Float(*b),
            Reply::Bool(b) => ReplyView::Bool(*b),
            Reply::Text(t) => ReplyView::Text(t@),
            Reply::Value(v) => ReplyView::Value(v@),
            Reply::Error(e) => ReplyView::Error(e@),
        }
    }
}

impl View for Stop {
    type V = Halt;

    open spec fn view(&self) -> Halt {
        match self {
            Stop::Fail(e) => Halt::Fail(e@),
            Stop::Ask(r) => Halt::Ask(r@),
        }
    }
}

/// The models of a list of replies.
pub open spec fn replies_view(replies: Seq<Reply>) -> Seq<ReplyView> {
    replies.map_values(|r: Reply| r@)
}

/// The model of an evaluation result.
pub open spec fn val_out(r: Result<Value, Stop>) -> Result<Val, Halt> {
    match r {
        Ok(v) => Ok(v@),
        Err(s) => Err(s@),
    }
}

/// The model of a rendering result.
pub open spec fn text_out(r: Result<String, Stop>) -> Result<Seq<char>, Halt> {
    match r {
        Ok(s) => Ok(s@),
        Err(s) => Err(s@),
    }
}

/// The error for a reply of the wrong kind.
pub open spec fn unexpected_reply(span: SpanView) -> Halt {
    Halt::Fail(ErrorView { kind: ErrorKindView::UnexpectedReply, span })
}

/// Reads the reply at `pos` as a float, or asks `req` when none is left.
pub open spec fn want_float(req: RequestView, span: SpanView, replies: Seq<ReplyView>, pos: int) -> (
    Result<u64, Halt>,
    int,
) {
    if pos < 0 || pos >= replies.len() {
        (Err(Halt::Ask(req)), pos)
    } else {
        match replies[pos] {
            ReplyView::Float(b) => (Ok(b), pos + 1),
            _ => (Err(unexpected_reply(span)), pos + 1),
        }
    }
}

/// Reads the reply at `pos` as a boolean, or asks `req` when none is left.
pub open spec fn want_bool(req: RequestView, span: SpanView, replies: Seq<ReplyView>, pos: int) -> (
    Result<bool, Halt>,
    int,
) {
    if pos < 0 || pos >= replies.len() {
        (Err(Halt::Ask(req)), pos)
    } else {
        match replies[pos] {
            ReplyView::Bool(b) => (Ok(b), pos + 1),
            _ => (Err(unexpected_reply(span)), pos + 1),
        }
    }
}

/// Reads the reply at `pos` as text, or asks `req` when none is left.
pub open spec fn want_text(req: RequestView, span: SpanView, replies: Seq<ReplyView>, pos: int) -> (
    Result<Seq<char>, Halt>,
    int,
) {
    if pos < 0 || pos >= replies.len() {
        (Err(Halt::Ask(req)), pos)
    } else {
        match replies[pos] {
            ReplyView::Text(t) => (Ok(t), pos + 1),
            _ => (Err(unexpected_reply(span)), pos + 1),
        }
    }
}

/// Reads the reply at `pos` as the outcome of a pipe or function: a value,
/// or the error it failed with; asks `req` when none is left.
pub open spec fn want_value(req: RequestView, span: SpanView, replies: Seq<ReplyView>, pos: int) -> (
    Result<Val, Halt>,
    int,
) {
    if pos < 0 || pos >= replies.len() {
        (Err(Halt::Ask(req)), pos)
    } else {
        match replies[pos] {
            ReplyView::Value(v) => (Ok(v), pos + 1),
            ReplyView::Error(e) => (Err(Halt::Fail(e)), pos + 1),
            _ => (Err(unexpected_reply(span)), pos + 1),
        }
    }
}

fn unexpected_reply_exec(span: &Span) -> (s: Stop)
    ensures
        s@ == unexpected_reply(span@),
{
    Stop::Fail(EvalError::new(EvalErrorKind::UnexpectedReply, span.copy()))
}

/// Reads a float reply (see `want_float`).
pub fn ask_float(req: Request, span: &Span, replies: &Vec<Reply>, pos: &mut usize) -> (r: Result<
    u64,
    Stop,
>)
    requires
        *old(pos) <= replies@.len(),
    ensures
        *final(pos) <= replies@.len(),
        (match r {
            Ok(b) => Ok(b),
            Err(s) => Err(s@),
        }, *final(pos) as int) == want_float(req@, span@, replies_view(replies@), *old(pos) as int),
{
    if *pos >= replies.len() {
        return Err(Stop::Ask(req));
    }
    let i = *pos;
    *pos = i + 1;
    match &replies[i] {
        Reply::Float(b) => Ok(*b),
        _ => Err(unexpected_reply_exec(span)),
    }
}

/// Reads a boolean reply (see `want_bool`).
pub fn ask_bool(req: Request, span: &Span, replies: &Vec<Reply>, pos: &mut usize) -> (r: Result<
    bool,
    Stop,
>)
    requires
        *old(pos) <= replies@.len(),
    ensures
        *final(pos) <= replies@.len(),
        (match r {
            Ok(b) => Ok(b),
            Err(s) => Err(s@),
        }, *final(pos) as int) == want_bool(req@, span@, replies_view(replies@), *old(pos) as int),
{
    if *pos >= replies.len() {
        return Err(Stop::Ask(req));
    }
    let i = *pos;
    *pos = i + 1;
    match &replies[i] {
        Reply::Bool(b) => Ok(*b),
        _ => Err(unexpected_reply_exec(span)),
    }
}

/// Reads a text reply (see `want_text`).
pub fn ask_text(req: Request, span: &Span, replies: &Vec<Reply>, pos: &mut usize) -> (r: Result<
    String,
    Stop,
>)
    requires
        *old(pos) <= replies@.len(),
    ensures
        *final(pos) <= replies@.len(),
        (text_out(r), *final(pos) as int) == want_text(
            req@,
            span@,
            replies_view(replies@),
            *old(pos) as int,
        ),
{
    if *pos >= replies.len() {
        return Err(Stop::Ask(req));
    }
    let i = *pos;
    *pos = i + 1;
    match &replies[i] {
        Reply::Text(t) => Ok(t.clone()),
        _ => Err(unexpected_reply_exec(span)),
    }
}

/// Reads the outcome of a pipe or function (see `want_value`).
pub fn ask_value(req: Request, span: &Span, replies: &Vec<Reply>, pos: &mut usize) -> (r: Result<
    Value,
    Stop,
>)
    requires
        *old(pos) <= replies@.len(),
    ensures
        *final(pos) <= replies@.len(),
        (val_out(r), *final(pos) as int) == want_value(
            req@,
            span@,
            replies_view(replies@),
            *old(pos) as int,
        ),
{
    if *pos >= replies.len() {
        return Err(Stop::Ask(req));
    }
    let i = *pos;
    *pos = i + 1;
    match &replies[i] {
        Reply::Value(v) => Ok(v.copy()),
        Reply::Error(e) => Err(Stop::Fail(e.copy())),
        _ => Err(unexpected_reply_exec(span)),
    }
}

} // verus!
