//! How values are shown in rendered output.

use vstd::prelude::*;

use crate::error::SpanView;
use crate::host::{
    ask_text, replies_view, text_out, want_text, Halt, Reply, ReplyView, Request, RequestView, Stop,
};
use crate::span::Span;
use crate::text::{int_text, push_int, push_str};
use crate::value::{fields_view, items_view, lemma_fields_view, lemma_items_view, Val, Value};

verus! {

/// The text of a value: `<null>`, `true`/`false`, integers in decimal,
/// floats as the host formats them, strings as they are, arrays as
/// `[a, b]` and structs as `{k: v, ...}`.
pub open spec fn shown(v: Val, span: SpanView, rs: Seq<ReplyView>, pos: int) -> (
    Result<Seq<char>, Halt>,
    int,
)
    decreases v, 0int,
{
    match v {
        Val::Null => (Ok("<null>"@), pos),
        Val::Bool(b) => (Ok(if b { "true"@ } else { "false"@ }), pos),
        Val::Int(i) => (Ok(int_text(i as int)), pos),
        Val::Float(b) => want_text(RequestView::FormatFloat(b), span, rs, pos),
        Val::Str(s) => (Ok(s), pos),
        Val::Array(items) => shown_items(items, 0, "["@, span, rs, pos),
        Val::Struct(fields) => shown_fields(fields, 0, "{"@, span, rs, pos),
    }
}

/// `acc` followed by the text of `items[i..]`, separated by `", "`, and `]`.
pub open spec fn shown_items(
    items: Seq<Val>,
    i: int,
    acc: Seq<char>,
    span: SpanView,
    rs: Seq<ReplyView>,
    pos: int,
) -> (Result<Seq<char>, Halt>, int)
    decreases items, items.len() - i,
{
    if i < 0 || i >= items.len() {
        (Ok(acc + "]"@), pos)
    } else {
        let sep = if i == 0 { Seq::<char>::empty() } else { ", "@ };
        let (r, p) = shown(items[i], span, rs, pos);
        match r {
            Ok(t) => shown_items(items, i + 1, acc + sep + t, span, rs, p),
            Err(h) => (Err(h), p),
        }
    }
}

/// `acc` followed by `k: v` for each of `fields[i..]`, separated by
/// `", "`, and `}`.
pub open spec fn shown_fields(
    fields: Seq<(Seq<char>, Val)>,
    i: int,
    acc: Seq<char>,
    span: SpanView,
    rs: Seq<ReplyView>,
    pos: int,
) -> (Result<Seq<char>, Halt>, int)
    decreases fields, fields.len() - i,
{
    if i < 0 || i >= fields.len() {
        (Ok(acc + "}"@), pos)
    } else {
        let sep = if i == 0 { Seq::<char>::empty() } else { ", "@ };
        let (r, p) = shown(fields[i].1, span, rs, pos);
        match r {
            Ok(t) => shown_fields(fields, i + 1, acc + sep + fields[i].0 + ": "@ + t, span, rs, p),
            Err(h) => (Err(h), p),
        }
    }
}

/// The text of `v` (see `shown`); `span` is where a failure is reported.
pub fn display_value(v: &Value, span: &Span, replies: &Vec<Reply>, pos: &mut usize) -> (r: Result<
    String,
    Stop,
>)
    requires
        *old(pos) <= replies@.len(),
    ensures
        *final(pos) <= replies@.len(),
        (text_out(r), *final(pos) as int) == shown(
            v@,
            span@,
            replies_view(replies@),
            *old(pos) as int,
        ),
    decreases v, 0nat,
{
    match v {
        Value::Null => {
            let mut s = String::new();
            push_str(&mut s, "<null>");
            Ok(s)
        },
        Value::Bool(b) => {
            let mut s = String::new();
            if *b {
                push_str(&mut s, "true");
            } else {
                push_str(&mut s, "false");
            }
            Ok(s)
        },
        Value::Int(i) => {
            let mut s = String::new();
            push_int(&mut s, *i);
            Ok(s)
        },
        Value::Float(b) => ask_text(Request::FormatFloat(*b), span, replies, pos),
        Value::Str(s) => Ok(s.clone()),
        Value::Array(items) => {
            proof {
                assert(decreases_to!(*v => items));
            }
            let mut s = String::new();
            push_str(&mut s, "[");
            display_items(items, 0, s, span, replies, pos)
        },
        Value::Struct(fields) => {
            proof {
                assert(decreases_to!(*v => fields));
            }
            let mut s = String::new();
            push_str(&mut s, "{");
            display_fields(fields, 0, s, span, replies, pos)
        },
    }
}

fn display_items(
    items: &Vec<Value>,
    i: usize,
    acc: String,
    span: &Span,
    replies: &Vec<Reply>,
    pos: &mut usize,
) -> (r: Result<String, Stop>)
    requires
        i <= items@.len(),
        *old(pos) <= replies@.len(),
    ensures
        *final(pos) <= replies@.len(),
        (text_out(r), *final(pos) as int) == shown_items(
            items_view(items@),
            i as int,
            acc@,
            span@,
            replies_view(replies@),
            *old(pos) as int,
        ),
    decreases items, items@.len() - i,
{
    broadcast use lemma_items_view;

    let mut acc = acc;
    if i >= items.len() {
        push_str(&mut acc, "]");
        return Ok(acc);
    }
    let ghost acc0 = acc@;
    if i > 0 {
        push_str(&mut acc, ", ");
    }
    proof {
        assert(decreases_to!(items => items@[i as int]));
    }
    let t = display_value(&items[i], span, replies, pos);
    match t {
        Ok(t) => {
            push_str(&mut acc, t.as_str());
            proof {
                let sep = if i == 0 { Seq::<char>::empty() } else { ", "@ };
                assert(acc@ == acc0 + sep + t@) by {
                    if i == 0 {
                        assert(acc0 + sep == acc0);
                    }
                }
            }
            display_items(items, i + 1, acc, span, replies, pos)
        },
        Err(h) => Err(h),
    }
}

fn display_fields(
    fields: &Vec<(String, Value)>,
    i: usize,
    acc: String,
    span: &Span,
    replies: &Vec<Reply>,
    pos: &mut usize,
) -> (r: Result<String, Stop>)
    requires
        i <= fields@.len(),
        *old(pos) <= replies@.len(),
    ensures
        *final(pos) <= replies@.len(),
        (text_out(r), *final(pos) as int) == shown_fields(
            fields_view(fields@),
            i as int,
            acc@,
            span@,
            replies_view(replies@),
            *old(pos) as int,
        ),
    decreases fields, fields@.len() - i,
{
    broadcast use lemma_fields_view;

    let mut acc = acc;
    if i >= fields.len() {
        push_str(&mut acc, "}");
        return Ok(acc);
    }
    let ghost acc0 = acc@;
    if i > 0 {
        push_str(&mut acc, ", ");
    }
    push_str(&mut acc, fields[i].0.as_str());
    push_str(&mut acc, ": ");
    proof {
        assert(decreases_to!(fields => fields@[i as int]));
    }
    let t = display_value(&fields[i].1, span, replies, pos);
    match t {
        Ok(t) => {
            push_str(&mut acc, t.as_str());
            proof {
                let sep = if i == 0 { Seq::<char>::empty() } else { ", "@ };
                assert(acc@ == acc0 + sep + fields@[i as int].0@ + ": "@ + t@) by {
                    if i == 0 {
                        assert(acc0 + sep == acc0);
                    }
                }
            }
            display_fields(fields, i + 1, acc, span, replies, pos)
        },
        Err(h) => Err(h),
    }
}

} // verus!
