//! Evaluation and parse errors, with the messages that describe them.

use vstd::prelude::*;

use crate::span::Span;
use crate::text::{decimal, push_decimal, push_str};

verus! {

/// What went wrong while evaluating or rendering.
#[derive(Debug, Clone, PartialEq)]
pub enum EvalErrorKind {
    /// Variable not found in scope.
    UndefinedVariable(String),
    /// Pipe not registered.
    UndefinedPipe(String),
    /// Field not found on a struct value.
    UndefinedField(String),
    /// Index out of bounds on an array.
    IndexOutOfBounds { index: usize, len: usize },
    /// Type mismatch.
    TypeError { expected: &'static str, got: String },
    /// Division or modulo by zero.
    DivisionByZero,
    /// Value is not callable.
    NotCallable,
    /// Value is not iterable (used in `@for`).
    NotIterable,
    /// Index expression did not evaluate to a non-negative integer (a
    /// float index is always invalid).
    InvalidIndex,
    /// Integer overflow during arithmetic. The library's integer
    /// arithmetic wraps, so evaluation itself never gives this error; a
    /// host may give it in a `Reply::Error`.
    Overflow,
    /// Template not registered (used in `@include`).
    UndefinedTemplate(String),
    /// Too many nested `@include`s.
    IncludeDepth,
    /// The host answered a request with a reply of the wrong kind.
    UnexpectedReply,
}

/// An evaluation error with the span of the expression or node at fault.
#[derive(Debug, Clone, PartialEq)]
pub struct EvalError {
    pub kind: EvalErrorKind,
    pub span: Span,
}

/// The model of an `EvalErrorKind`.
pub enum ErrorKindView {
    UndefinedVariable(Seq<char>),
    UndefinedPipe(Seq<char>),
    UndefinedField(Seq<char>),
    IndexOutOfBounds { index: usize, len: usize },
    TypeError { expected: Seq<char>, got: Seq<char> },
    DivisionByZero,
    NotCallable,
    NotIterable,
    InvalidIndex,
    Overflow,
    UndefinedTemplate(Seq<char>),
    IncludeDepth,
    UnexpectedReply,
}

/// The model of a span: its positions and its source text.
pub struct SpanView {
    pub start: usize,
    pub end: usize,
    pub src: Seq<char>,
}

/// The model of an `EvalError`.
pub struct ErrorView {
    pub kind: ErrorKindView,
    pub span: SpanView,
}

impl View for Span {
    type V = SpanView;

    open spec fn view(&self) -> SpanView {
        SpanView { start: self.start, end: self.end, src: self.src@ }
    }
}

impl View for EvalErrorKind {
    type V = ErrorKindView;

    open spec fn view(&self) -> ErrorKindView {
        match self {
            EvalErrorKind::UndefinedVariable(n) => ErrorKindView::UndefinedVariable(n@),
            EvalErrorKind::UndefinedPipe(n) => ErrorKindView::UndefinedPipe(n@),
            EvalErrorKind::UndefinedField(n) => ErrorKindView::UndefinedField(n@),
            EvalErrorKind::IndexOutOfBounds { index, len } => ErrorKindView::IndexOutOfBounds {
                index: *index,
                len: *len,
            },
            EvalErrorKind::TypeError { expected, got } => ErrorKindView::TypeError {
                expected: expected@,
                got: got@,
            },
            EvalErrorKind::DivisionByZero => ErrorKindView::DivisionByZero,
            EvalErrorKind::NotCallable => ErrorKindView::NotCallable,
            EvalErrorKind::NotIterable => ErrorKindView::NotIterable,
            EvalErrorKind::InvalidIndex => ErrorKindView::InvalidIndex,
            EvalErrorKind::Overflow => ErrorKindView::Overflow,
            EvalErrorKind::UndefinedTemplate(n) => ErrorKindView::UndefinedTemplate(n@),
            EvalErrorKind::IncludeDepth => ErrorKindView::IncludeDepth,
            EvalErrorKind::UnexpectedReply => ErrorKindView::UnexpectedReply,
        }
    }
}

impl View for EvalError {
    type V = ErrorView;

    open spec fn view(&self) -> ErrorView {
        ErrorView { kind: self.kind@, span: self.span@ }
    }
}

/// `"undefined variable '<name>'"`
pub open spec fn undefined_variable_message(name: Seq<char>) -> Seq<char> {
    "undefined variable '"@ + name + "'"@
}

/// `"undefined pipe '<name>'"`
pub open spec fn undefined_pipe_message(name: Seq<char>) -> Seq<char> {
    "undefined pipe '"@ + name + "'"@
}

/// `"undefined field '<name>'"`
pub open spec fn undefined_field_message(name: Seq<char>) -> Seq<char> {
    "undefined field '"@ + name + "'"@
}

/// `"undefined template '<name>'"`
pub open spec fn undefined_template_message(name: Seq<char>) -> Seq<char> {
    "undefined template '"@ + name + "'"@
}

/// `"index <index> out of bounds (len <len>)"`
pub open spec fn index_out_of_bounds_message(index: usize, len: usize) -> Seq<char> {
    "index "@ + decimal(index as nat) + " out of bounds (len "@ + decimal(len as nat) + ")"@
}

/// `"expected <expected>, got <got>"`
pub open spec fn type_error_message(expected: Seq<char>, got: Seq<char>) -> Seq<char> {
    "expected "@ + expected + ", got "@ + got
}

/// The message that describes an error kind.
pub open spec fn kind_message(k: ErrorKindView) -> Seq<char> {
    match k {
        ErrorKindView::UndefinedVariable(n) => undefined_variable_message(n),
        ErrorKindView::UndefinedPipe(n) => undefined_pipe_message(n),
        ErrorKindView::UndefinedField(n) => undefined_field_message(n),
        ErrorKindView::IndexOutOfBounds { index, len } => index_out_of_bounds_message(index, len),
        ErrorKindView::TypeError { expected, got } => type_error_message(expected, got),
        ErrorKindView::DivisionByZero => "division by zero"@,
        ErrorKindView::NotCallable => "value is not callable"@,
        ErrorKindView::NotIterable => "value is not iterable"@,
        ErrorKindView::InvalidIndex => "index expression must evaluate to an integer"@,
        ErrorKindView::Overflow => "integer overflow"@,
        ErrorKindView::UndefinedTemplate(n) => undefined_template_message(n),
        ErrorKindView::IncludeDepth => "maximum include depth exceeded"@,
        ErrorKindView::UnexpectedReply => "unexpected reply from the host"@,
    }
}

/// `"eval error at <start>..<end>: <message>"`
pub open spec fn error_message(e: ErrorView) -> Seq<char> {
    "eval error at "@ + decimal(e.span.start as nat) + ".."@ + decimal(e.span.end as nat) + ": "@
        + kind_message(e.kind)
}

/// Appends `prefix`, `name` and a closing quote.
fn quoted(prefix: &str, name: &str) -> (s: String)
    ensures
        s@ == prefix@ + name@ + "'"@,
{
    let mut s = String::new();
    push_str(&mut s, prefix);
    push_str(&mut s, name);
    push_str(&mut s, "'");
    s
}

impl EvalErrorKind {
    /// A copy of the error kind.
    pub fn copy(&self) -> (r: EvalErrorKind)
        ensures
            r@ == self@,
    {
        match self {
            EvalErrorKind::UndefinedVariable(n) => EvalErrorKind::UndefinedVariable(n.clone()),
            EvalErrorKind::UndefinedPipe(n) => EvalErrorKind::UndefinedPipe(n.clone()),
            EvalErrorKind::UndefinedField(n) => EvalErrorKind::UndefinedField(n.clone()),
            EvalErrorKind::IndexOutOfBounds { index, len } => EvalErrorKind::IndexOutOfBounds {
                index: *index,
                len: *len,
            },
            EvalErrorKind::TypeError { expected, got } => EvalErrorKind::TypeError {
                expected: *expected,
                got: got.clone(),
            },
            EvalErrorKind::DivisionByZero => EvalErrorKind::DivisionByZero,
            EvalErrorKind::NotCallable => EvalErrorKind::NotCallable,
            EvalErrorKind::NotIterable => EvalErrorKind::NotIterable,
            EvalErrorKind::InvalidIndex => EvalErrorKind::InvalidIndex,
            EvalErrorKind::Overflow => EvalErrorKind::Overflow,
            EvalErrorKind::UndefinedTemplate(n) => EvalErrorKind::UndefinedTemplate(n.clone()),
            EvalErrorKind::IncludeDepth => EvalErrorKind::IncludeDepth,
            EvalErrorKind::UnexpectedReply => EvalErrorKind::UnexpectedReply,
        }
    }

    /// The message that describes the error kind (see `kind_message`).
    pub fn to_string(&self) -> (s: String)
        ensures
            s@ == kind_message(self@),
    {
        match self {
            EvalErrorKind::UndefinedVariable(n) => UndefinedVariableError { name: n.clone() }.to_string(),
            EvalErrorKind::UndefinedPipe(n) => UndefinedPipeError { name: n.clone() }.to_string(),
            EvalErrorKind::UndefinedField(n) => UndefinedFieldError { name: n.clone() }.to_string(),
            EvalErrorKind::IndexOutOfBounds { index, len } => IndexOutOfBoundsError {
                index: *index,
                len: *len,
            }.to_string(),
            EvalErrorKind::TypeError { expected, got } => {
                let mut s = String::new();
                push_str(&mut s, "expected ");
                push_str(&mut s, expected);
                push_str(&mut s, ", got ");
                push_str(&mut s, got.as_str());
                s
            },
            EvalErrorKind::DivisionByZero => DivisionByZeroError.to_string(),
            EvalErrorKind::NotCallable => NotCallableError.to_string(),
            EvalErrorKind::NotIterable => {
                let mut s = String::new();
                push_str(&mut s, "value is not iterable");
                s
            },
            EvalErrorKind::InvalidIndex => InvalidIndexError.to_string(),
            EvalErrorKind::Overflow => {
                let mut s = String::new();
                push_str(&mut s, "integer overflow");
                s
            },
            EvalErrorKind::UndefinedTemplate(n) => UndefinedTemplateError {
                name: n.clone(),
            }.to_string(),
            EvalErrorKind::IncludeDepth => IncludeDepthError.to_string(),
            EvalErrorKind::UnexpectedReply => {
                let mut s = String::new();
                push_str(&mut s, "unexpected reply from the host");
                s
            },
        }
    }
}

impl EvalError {
    pub fn new(kind: EvalErrorKind, span: Span) -> (e: EvalError)
        ensures
            e.kind == kind,
            e.span == span,
    {
        EvalError { kind, span }
    }

    /// A copy of the error.
    pub fn copy(&self) -> (r: EvalError)
        ensures
            r@ == self@,
    {
        EvalError { kind: self.kind.copy(), span: self.span.copy() }
    }

    /// `"eval error at <start>..<end>: <message>"` (see `error_message`).
    pub fn to_string(&self) -> (s: String)
        ensures
            s@ == error_message(self@),
    {
        let mut s = String::new();
        push_str(&mut s, "eval error at ");
        push_decimal(&mut s, self.span.start as u64);
        push_str(&mut s, "..");
        push_decimal(&mut s, self.span.end as u64);
        push_str(&mut s, ": ");
        let m = self.kind.to_string();
        push_str(&mut s, m.as_str());
        s
    }
}

/// A parse error: a message and the span of the offending input.
#[derive(Debug, Clone, PartialEq)]
pub struct ParseError {
    pub message: String,
    pub span: Span,
}

/// `"parse error at <start>..<end>: <message>"`
pub open spec fn parse_error_message(message: Seq<char>, start: usize, end: usize) -> Seq<char> {
    "parse error at "@ + decimal(start as nat) + ".."@ + decimal(end as nat) + ": "@ + message
}

impl ParseError {
    pub fn new(message: String, span: Span) -> (e: ParseError)
        ensures
            e.message == message,
            e.span == span,
    {
        ParseError { message, span }
    }

    /// `"parse error at <start>..<end>: <message>"`.
    pub fn to_string(&self) -> (s: String)
        ensures
            s@ == parse_error_message(self.message@, self.span.start, self.span.end),
    {
        let mut s = String::new();
        push_str(&mut s, "parse error at ");
        push_decimal(&mut s, self.span.start as u64);
        push_str(&mut s, "..");
        push_decimal(&mut s, self.span.end as u64);
        push_str(&mut s, ": ");
        push_str(&mut s, self.message.as_str());
        s
    }
}

/// Division or modulo by zero.
#[derive(Debug, Clone, PartialEq)]
pub struct DivisionByZeroError;

/// Too many nested `@include`s.
#[derive(Debug, Clone, PartialEq)]
pub struct IncludeDepthError;

/// An array index past the end.
#[derive(Debug, Clone, PartialEq)]
pub struct IndexOutOfBoundsError {
    pub index: usize,
    pub len: usize,
}

/// An index that is not a non-negative integer.
#[derive(Debug, Clone, PartialEq)]
pub struct InvalidIndexError;

/// A call of something that is not a registered function.
#[derive(Debug, Clone, PartialEq)]
pub struct NotCallableError;

/// An `@for` over something that is not an array.
#[derive(Debug, Clone, PartialEq)]
pub struct NotIterableError {
    pub span: Span,
}

/// A value of the wrong type.
#[derive(Debug, Clone, PartialEq)]
pub struct TypeError {
    pub expected: &'static str,
    pub got: String,
    pub span: Span,
}

/// A missing struct field.
#[derive(Debug, Clone, PartialEq)]
pub struct UndefinedFieldError {
    pub name: String,
}

/// An unregistered pipe.
#[derive(Debug, Clone, PartialEq)]
pub struct UndefinedPipeError {
    pub name: String,
}

/// An unregistered template.
#[derive(Debug, Clone, PartialEq)]
pub struct UndefinedTemplateError {
    pub name: String,
}

/// An undefined variable.
#[derive(Debug, Clone, PartialEq)]
pub struct UndefinedVariableError {
    pub name: String,
}

impl DivisionByZeroError {
    /// `"division by zero"`
    pub fn to_string(&self) -> (s: String)
        ensures
            s@ == "division by zero"@,
    {
        let mut s = String::new();
        push_str(&mut s, "division by zero");
        s
    }
}

impl IncludeDepthError {
    /// `"maximum include depth exceeded"`
    pub fn to_string(&self) -> (s: String)
        ensures
            s@ == "maximum include depth exceeded"@,
    {
        let mut s = String::new();
        push_str(&mut s, "maximum include depth exceeded");
        s
    }
}

impl IndexOutOfBoundsError {
    /// `"index <index> out of bounds (len <len>)"`
    pub fn to_string(&self) -> (s: String)
        ensures
            s@ == index_out_of_bounds_message(self.index, self.len),
    {
        let mut s = String::new();
        push_str(&mut s, "index ");
        push_decimal(&mut s, self.index as u64);
        push_str(&mut s, " out of bounds (len ");
        push_decimal(&mut s, self.len as u64);
        push_str(&mut s, ")");
        s
    }
}

impl InvalidIndexError {
    /// `"index expression must evaluate to an integer"`
    pub fn to_string(&self) -> (s: String)
        ensures
            s@ == "index expression must evaluate to an integer"@,
    {
        let mut s = String::new();
        push_str(&mut s, "index expression must evaluate to an integer");
        s
    }
}

impl NotCallableError {
    /// `"value is not callable"`
    pub fn to_string(&self) -> (s: String)
        ensures
            s@ == "value is not callable"@,
    {
        let mut s = String::new();
        push_str(&mut s, "value is not callable");
        s
    }
}

impl NotIterableError {
    /// `"value is not iterable"`
    pub fn to_string(&self) -> (s: String)
        ensures
            s@ == "value is not iterable"@,
    {
        let mut s = String::new();
        push_str(&mut s, "value is not iterable");
        s
    }
}

impl TypeError {
    /// `"expected <expected>, got <got>"`
    pub fn to_string(&self) -> (s: String)
        ensures
            s@ == type_error_message(self.expected@, self.got@),
    {
        let mut s = String::new();
        push_str(&mut s, "expected ");
        push_str(&mut s, self.expected);
        push_str(&mut s, ", got ");
        push_str(&mut s, self.got.as_str());
        s
    }
}

impl UndefinedFieldError {
    /// `"undefined field '<name>'"`
    pub fn to_string(&self) -> (s: String)
        ensures
            s@ == undefined_field_message(self.name@),
    {
        quoted("undefined field '", self.name.as_str())
    }
}

impl UndefinedPipeError {
    /// `"undefined pipe '<name>'"`
    pub fn to_string(&self) -> (s: String)
        ensures
            s@ == undefined_pipe_message(self.name@),
    {
        quoted("undefined pipe '", self.name.as_str())
    }
}

impl UndefinedTemplateError {
    /// `"undefined template '<name>'"`
    pub fn to_string(&self) -> (s: String)
        ensures
            s@ == undefined_template_message(self.name@),
    {
        quoted("undefined template '", self.name.as_str())
    }
}

impl UndefinedVariableError {
    /// `"undefined variable '<name>'"`
    pub fn to_string(&self) -> (s: String)
        ensures
            s@ == undefined_variable_message(self.name@),
    {
        quoted("undefined variable '", self.name.as_str())
    }
}

} // verus!
