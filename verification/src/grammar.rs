//! The grammar of templates and expressions, as functions from where
//! reading stands to the model of what is read and where reading then
//! stands, or `Err` with the span where the input departs from the
//! grammar. Each rule reads exactly as the parser function of the same
//! name does.
//!
//! Every recursive call is guarded by a fall in what remains to be read
//! (`rest`); the parser's own progress shows that the guards always hold.

use vstd::prelude::*;

use crate::lexer::{
    ascii_ws_end, keyword_follows, look, rest, take, text_step, ws_end, Fault, LexTok, Reading,
};
use crate::op::{left_power, BinaryOp, UnaryOp};
use crate::token::Tok;
use crate::ast::Expr;
use crate::error::ParseError;
use crate::text::{blen, bpos, debug_quoted, int_text, is_unicode_ws};
use crate::tree::{
    expr_view, join, node_span_of, respan, span_of, span_v, BlockV, ExprV, LitV, NodeV,
};

verus! {

/// Whether reading from `a` has strictly less left than from `b`.
pub open spec fn below(s: Seq<char>, a: Reading, b: Reading) -> bool {
    0 <= rest(s, a) < rest(s, b)
}

/// Whether reading from `a` has no more left than from `b`.
pub open spec fn within(s: Seq<char>, a: Reading, b: Reading) -> bool {
    0 <= rest(s, a) <= rest(s, b)
}

/// The error given in the cases that cannot arise: where a guarded rule
/// would not advance, or where a rule's result is not of the kind asked
/// for. The parser's progress shows that neither happens.
pub open spec fn stalled() -> Fault {
    Fault { span: (0, 0), message: Seq::empty() }
}

/// The name of an expression token's kind, as Rust's `Debug` writes the
/// variant.
pub open spec fn tok_variant(k: Tok) -> Seq<char> {
    match k {
        Tok::Float(_) => "Float"@,
        Tok::Int(_) => "Int"@,
        Tok::Str(_) => "String"@,
        Tok::True => "True"@,
        Tok::False => "False"@,
        Tok::Null => "Null"@,
        Tok::Of => "Of"@,
        Tok::Track => "Track"@,
        Tok::Ident(_) => "Ident"@,
        Tok::Plus => "Plus"@,
        Tok::Minus => "Minus"@,
        Tok::Star => "Star"@,
        Tok::Slash => "Slash"@,
        Tok::Percent => "Percent"@,
        Tok::EqEq => "EqEq"@,
        Tok::BangEq => "BangEq"@,
        Tok::Lt => "Lt"@,
        Tok::Le => "Le"@,
        Tok::Gt => "Gt"@,
        Tok::Ge => "Ge"@,
        Tok::AmpAmp => "AmpAmp"@,
        Tok::PipePipe => "PipePipe"@,
        Tok::Bang => "Bang"@,
        Tok::FatArrow => "FatArrow"@,
        Tok::LParen => "LParen"@,
        Tok::RParen => "RParen"@,
        Tok::LBracket => "LBracket"@,
        Tok::RBracket => "RBracket"@,
        Tok::LBrace => "LBrace"@,
        Tok::RBrace => "RBrace"@,
        Tok::Dot => "Dot"@,
        Tok::Comma => "Comma"@,
        Tok::Pipe => "Pipe"@,
        Tok::Colon => "Colon"@,
        Tok::Semi => "Semi"@,
    }
}

/// What follows the kind's name in an expression token's name: its text
/// or number in brackets, where it carries one.
pub open spec fn tok_payload(k: Tok) -> Seq<char> {
    match k {
        Tok::Float(t) => "("@ + t + ")"@,
        Tok::Int(i) => "("@ + int_text(i as int) + ")"@,
        Tok::Str(t) => "("@ + debug_quoted(t) + ")"@,
        Tok::Ident(t) => "("@ + debug_quoted(t) + ")"@,
        _ => Seq::empty(),
    }
}

/// The name of an expression token in error messages, in the form of
/// Rust's `Debug`: `LParen`, `Ident("x")`, `Int(3)`.
pub open spec fn tok_name(k: Tok) -> Seq<char> {
    tok_variant(k) + tok_payload(k)
}

/// The name of a template-level token in error messages, in the form of
/// Rust's `Debug`: `AtElse`, `Text("a b")`, `Expr(Ident("x"))`, `Eof`.
pub open spec fn lex_token_name(t: LexTok) -> Seq<char> {
    match t {
        LexTok::Text(w) => "Text("@ + debug_quoted(w) + ")"@,
        LexTok::InterpStart => "InterpStart"@,
        LexTok::InterpEnd => "InterpEnd"@,
        LexTok::AtIf => "AtIf"@,
        LexTok::AtElse => "AtElse"@,
        LexTok::AtFor => "AtFor"@,
        LexTok::AtSwitch => "AtSwitch"@,
        LexTok::AtCase => "AtCase"@,
        LexTok::AtDefault => "AtDefault"@,
        LexTok::AtMatch => "AtMatch"@,
        LexTok::AtInclude => "AtInclude"@,
        LexTok::CloseBrace => "CloseBrace"@,
        LexTok::Expr(k) => "Expr("@ + tok_name(k) + ")"@,
        LexTok::Eof => "Eof"@,
    }
}

/// The fault at token `t`: its span, and `prefix` followed by the
/// token's name.
pub open spec fn got(prefix: Seq<char>, t: (LexTok, int, int)) -> Fault {
    Fault { span: (t.1, t.2), message: prefix + lex_token_name(t.0) }
}

/// The fault that a parse error reports: its span and its message.
pub open spec fn fault_of(e: ParseError) -> Fault {
    Fault { span: span_v(e.span), message: e.message@ }
}

/// Whether an expression token is punctuation or a keyword: one that
/// carries no text or number.
pub open spec fn is_symbol(k: Tok) -> bool {
    !(k is Float || k is Int || k is Str || k is Ident)
}

/// Whether a token is the expression token `k`.
pub open spec fn is_tok(t: LexTok, k: Tok) -> bool {
    t == LexTok::Expr(k)
}

/// The binary operator an expression token stands for, if any.
pub open spec fn tok_binary_op(k: Tok) -> Option<BinaryOp> {
    match k {
        Tok::Plus => Some(BinaryOp::Add),
        Tok::Minus => Some(BinaryOp::Sub),
        Tok::Star => Some(BinaryOp::Mul),
        Tok::Slash => Some(BinaryOp::Div),
        Tok::Percent => Some(BinaryOp::Mod),
        Tok::EqEq => Some(BinaryOp::Eq),
        Tok::BangEq => Some(BinaryOp::Ne),
        Tok::Lt => Some(BinaryOp::Lt),
        Tok::Le => Some(BinaryOp::Le),
        Tok::Gt => Some(BinaryOp::Gt),
        Tok::Ge => Some(BinaryOp::Ge),
        Tok::AmpAmp => Some(BinaryOp::And),
        Tok::PipePipe => Some(BinaryOp::Or),
        _ => None,
    }
}

/// The binary operator a template-level token stands for, if any.
pub open spec fn lex_binary_op(t: LexTok) -> Option<BinaryOp> {
    match t {
        LexTok::Expr(k) => tok_binary_op(k),
        _ => None,
    }
}

/// The name a token gives after `.`: an identifier, or `of` or `track`.
pub open spec fn field_name(t: LexTok) -> Option<Seq<char>> {
    match t {
        LexTok::Expr(Tok::Ident(n)) => Some(n),
        LexTok::Expr(Tok::Of) => Some("of"@),
        LexTok::Expr(Tok::Track) => Some("track"@),
        _ => None,
    }
}

/// The key a token gives in an object literal: an identifier or a string.
pub open spec fn key_name(t: LexTok) -> Option<Seq<char>> {
    match t {
        LexTok::Expr(Tok::Ident(n)) => Some(n),
        LexTok::Expr(Tok::Str(n)) => Some(n),
        _ => None,
    }
}

/// The expression a single token makes: a literal or a name.
pub open spec fn token_atom(t: LexTok, sp: (int, int)) -> Option<ExprV> {
    match t {
        LexTok::Expr(Tok::Int(n)) => Some(ExprV::Value { value: LitV::Int(n), span: sp }),
        LexTok::Expr(Tok::Float(x)) => Some(ExprV::Value { value: LitV::Float(x), span: sp }),
        LexTok::Expr(Tok::Str(x)) => Some(ExprV::Value { value: LitV::Str(x), span: sp }),
        LexTok::Expr(Tok::True) => Some(ExprV::Value { value: LitV::Bool(true), span: sp }),
        LexTok::Expr(Tok::False) => Some(ExprV::Value { value: LitV::Bool(false), span: sp }),
        LexTok::Expr(Tok::Null) => Some(ExprV::Value { value: LitV::Null, span: sp }),
        LexTok::Expr(Tok::Ident(n)) => Some(ExprV::Ident { name: n, span: sp }),
        LexTok::Expr(Tok::Of) => Some(ExprV::Ident { name: "of"@, span: sp }),
        LexTok::Expr(Tok::Track) => Some(ExprV::Ident { name: "track"@, span: sp }),
        _ => None,
    }
}

/// Reads the expression token `k`, giving its span.
pub open spec fn g_expect(s: Seq<char>, r: Reading, k: Tok) -> Result<((int, int), Reading), Fault> {
    match take(s, r) {
        Ok((t, r1)) => if is_tok(t.0, k) {
            Ok(((t.1, t.2), r1))
        } else {
            Err(got("expected "@ + tok_name(k) + ", got "@, t))
        },
        Err(at) => Err(at),
    }
}

/// Reads the `}}` that ends an interpolation, giving its span.
pub open spec fn g_interp_end(s: Seq<char>, r: Reading) -> Result<((int, int), Reading), Fault> {
    match take(s, r) {
        Ok((t, r1)) => if t.0 is InterpEnd {
            Ok(((t.1, t.2), r1))
        } else {
            Err(got("expected '}}', got "@, t))
        },
        Err(at) => Err(at),
    }
}

/// The model of the outcome of parsing an expression, and where reading
/// then stands.
pub open spec fn expr_result(r: Result<Expr, ParseError>, rd: Reading) -> Result<
    (ExprV, Reading),
    Fault,
> {
    match r {
        Ok(e) => Ok((expr_view(e), rd)),
        Err(e) => Err(fault_of(e)),
    }
}

/// What the grammar is asked to read: one of its rules, with what was
/// read before the rule's loop where it has one.
pub enum Goal {
    /// A full expression.
    Expr,
    /// An expression with pipes: `expr | name:arg:arg`.
    Pipe,
    /// The pipes that follow an expression.
    PipeTail(ExprV),
    /// The `:arg` list of a pipe, after the arguments read so far.
    PipeArgs(Seq<ExprV>),
    /// Operands and binary operators that bind at least as tightly as the
    /// given power; every operator is left-associative.
    Binary(int),
    /// The operators and right operands that follow a left operand.
    BinaryTail(ExprV, int),
    /// `!expr`, `-expr`, or a postfix expression.
    Unary,
    /// An atom followed by `.field`, `[index]` and `(args)` forms.
    Postfix,
    /// The postfix forms that follow an expression.
    PostfixTail(ExprV),
    /// A literal, a name, `(expr)`, an array literal or an object literal.
    Atom,
    /// The `, expr` items that follow the items of a list read so far.
    ListTail(Seq<ExprV>),
    /// The arguments of a call, up to (not including) the `)`.
    Args,
    /// One object entry: `key: value`.
    Entry,
    /// The `, key: value` entries that follow the entries read so far.
    EntriesTail(Seq<(Seq<char>, ExprV)>),
}

/// What a rule reads: an expression, a list of them, an object entry or a
/// list of entries.
pub enum Parsed {
    One(ExprV),
    Many(Seq<ExprV>),
    Entry(Seq<char>, ExprV),
    Entries(Seq<(Seq<char>, ExprV)>),
}

/// The order in which rules call each other without reading: a rule calls
/// one of lower tier, or reads first.
pub open spec fn tier(g: Goal) -> nat {
    match g {
        Goal::Args => 11,
        Goal::Expr => 10,
        Goal::Pipe => 9,
        Goal::Binary(_) => 8,
        Goal::Unary => 7,
        Goal::Postfix => 6,
        Goal::Atom => 5,
        Goal::Entry => 4,
        Goal::PipeTail(_) => 2,
        _ => 1,
    }
}

/// The expression that a rule read.
pub open spec fn one(x: Result<(Parsed, Reading), Fault>) -> Result<(ExprV, Reading), Fault> {
    match x {
        Ok((Parsed::One(e), r)) => Ok((e, r)),
        Ok(_) => Err(stalled()),
        Err(at) => Err(at),
    }
}

/// The list of expressions that a rule read.
pub open spec fn many(x: Result<(Parsed, Reading), Fault>) -> Result<(Seq<ExprV>, Reading), Fault> {
    match x {
        Ok((Parsed::Many(es), r)) => Ok((es, r)),
        Ok(_) => Err(stalled()),
        Err(at) => Err(at),
    }
}

/// The object entry that a rule read.
pub open spec fn entry_of(x: Result<(Parsed, Reading), Fault>) -> Result<((Seq<char>, ExprV), Reading), Fault> {
    match x {
        Ok((Parsed::Entry(k, v), r)) => Ok(((k, v), r)),
        Ok(_) => Err(stalled()),
        Err(at) => Err(at),
    }
}

/// The object entries that a rule read.
pub open spec fn entries(x: Result<(Parsed, Reading), Fault>) -> Result<
    (Seq<(Seq<char>, ExprV)>, Reading),
    Fault,
> {
    match x {
        Ok((Parsed::Entries(es), r)) => Ok((es, r)),
        Ok(_) => Err(stalled()),
        Err(at) => Err(at),
    }
}

/// An expression read, as what a rule gives.
pub open spec fn lift_one(x: Result<(ExprV, Reading), Fault>) -> Result<(Parsed, Reading), Fault> {
    match x {
        Ok((e, r)) => Ok((Parsed::One(e), r)),
        Err(at) => Err(at),
    }
}

/// A list of expressions read, as what a rule gives.
pub open spec fn lift_many(x: Result<(Seq<ExprV>, Reading), Fault>) -> Result<(Parsed, Reading), Fault> {
    match x {
        Ok((es, r)) => Ok((Parsed::Many(es), r)),
        Err(at) => Err(at),
    }
}

/// An object entry read, as what a rule gives.
pub open spec fn lift_entry(x: Result<((Seq<char>, ExprV), Reading), Fault>) -> Result<
    (Parsed, Reading),
    Fault,
> {
    match x {
        Ok((en, r)) => Ok((Parsed::Entry(en.0, en.1), r)),
        Err(at) => Err(at),
    }
}

/// Object entries read, as what a rule gives.
pub open spec fn lift_entries(x: Result<(Seq<(Seq<char>, ExprV)>, Reading), Fault>) -> Result<
    (Parsed, Reading),
    Fault,
> {
    match x {
        Ok((es, r)) => Ok((Parsed::Entries(es), r)),
        Err(at) => Err(at),
    }
}

/// The expression grammar: what the rule `goal` reads from `r` in `s`.
#[verifier::opaque]
pub open spec fn gram(s: Seq<char>, r: Reading, goal: Goal) -> Result<(Parsed, Reading), Fault>
    decreases rest(s, r), tier(goal),
{
    match goal {
        Goal::Expr => lift_one(
            one(gram(s, r, Goal::Pipe)),
        ),
        Goal::Pipe => lift_one(
            match one(gram(s, r, Goal::Binary(0))) {
                Ok((e, r1)) => if within(s, r1, r) {
                    one(gram(s, r1, Goal::PipeTail(e)))
                } else {
                    Err(stalled())
                },
                Err(at) => Err(at),
            },
        ),
        Goal::PipeTail(e) => lift_one(
            match look(s, r) {
                Ok((t, r1)) => if !is_tok(t.0, Tok::Pipe) {
                    Ok((e, r1))
                } else {
                    match take(s, r1) {
                        Ok((_, r2)) => match take(s, r2) {
                            Ok((nt, r3)) => match nt.0 {
                                LexTok::Expr(Tok::Ident(name)) => if below(s, r3, r) {
                                    match many(gram(s, r3, Goal::PipeArgs(Seq::empty()))) {
                                        Ok((args, r4)) => if below(s, r4, r) {
                                            one(gram(s, r4, Goal::PipeTail(ExprV::Pipe {
                                                    value: Box::new(e),
                                                    name,
                                                    args,
                                                    span: join(span_of(e), (nt.1, nt.2)),
                                                })))
                                        } else {
                                            Err(stalled())
                                        },
                                        Err(at) => Err(at),
                                    }
                                } else {
                                    Err(stalled())
                                },
                                _ => Err(got("expected pipe name, got "@, nt)),
                            },
                            Err(at) => Err(at),
                        },
                        Err(at) => Err(at),
                    }
                },
                Err(at) => Err(at),
            },
        ),
        Goal::PipeArgs(args) => lift_many(
            match look(s, r) {
                Ok((t, r1)) => if !is_tok(t.0, Tok::Colon) {
                    Ok((args, r1))
                } else {
                    match take(s, r1) {
                        Ok((_, r2)) => if below(s, r2, r) {
                            match one(gram(s, r2, Goal::Binary(0))) {
                                Ok((a, r3)) => if below(s, r3, r) {
                                    many(gram(s, r3, Goal::PipeArgs(args.push(a))))
                                } else {
                                    Err(stalled())
                                },
                                Err(at) => Err(at),
                            }
                        } else {
                            Err(stalled())
                        },
                        Err(at) => Err(at),
                    }
                },
                Err(at) => Err(at),
            },
        ),
        Goal::Binary(min_bp) => lift_one(
            match one(gram(s, r, Goal::Unary)) {
                Ok((e, r1)) => if within(s, r1, r) {
                    one(gram(s, r1, Goal::BinaryTail(e, min_bp)))
                } else {
                    Err(stalled())
                },
                Err(at) => Err(at),
            },
        ),
        Goal::BinaryTail(left, min_bp) => lift_one(
            match look(s, r) {
                Ok((t, r1)) => match lex_binary_op(t.0) {
                    None => Ok((left, r1)),
                    Some(op) => if left_power(op) < min_bp {
                        Ok((left, r1))
                    } else {
                        match take(s, r1) {
                            Ok((_, r2)) => if below(s, r2, r) {
                                match one(gram(s, r2, Goal::Binary(left_power(op) + 1))) {
                                    Ok((right, r3)) => if below(s, r3, r) {
                                        one(gram(s, r3, Goal::BinaryTail(ExprV::Binary {
                                                left: Box::new(left),
                                                op,
                                                right: Box::new(right),
                                                span: join(span_of(left), span_of(right)),
                                            }, min_bp)))
                                    } else {
                                        Err(stalled())
                                    },
                                    Err(at) => Err(at),
                                }
                            } else {
                                Err(stalled())
                            },
                            Err(at) => Err(at),
                        }
                    },
                },
                Err(at) => Err(at),
            },
        ),
        Goal::Unary => lift_one(
            match look(s, r) {
                Ok((t, r1)) => {
                    let op = if is_tok(t.0, Tok::Bang) {
                        Some(UnaryOp::Not)
                    } else if is_tok(t.0, Tok::Minus) {
                        Some(UnaryOp::Neg)
                    } else {
                        None
                    };
                    match op {
                        Some(op) => match take(s, r1) {
                            Ok((u, r2)) => if below(s, r2, r) {
                                match one(gram(s, r2, Goal::Unary)) {
                                    Ok((operand, r3)) => Ok(
                                        (
                                            ExprV::Unary {
                                                op,
                                                operand: Box::new(operand),
                                                span: join((u.1, u.2), span_of(operand)),
                                            },
                                            r3,
                                        ),
                                    ),
                                    Err(at) => Err(at),
                                }
                            } else {
                                Err(stalled())
                            },
                            Err(at) => Err(at),
                        },
                        None => if within(s, r1, r) {
                            one(gram(s, r1, Goal::Postfix))
                        } else {
                            Err(stalled())
                        },
                    }
                },
                Err(at) => Err(at),
            },
        ),
        Goal::Postfix => lift_one(
            match one(gram(s, r, Goal::Atom)) {
                Ok((e, r1)) => if within(s, r1, r) {
                    one(gram(s, r1, Goal::PostfixTail(e)))
                } else {
                    Err(stalled())
                },
                Err(at) => Err(at),
            },
        ),
        Goal::PostfixTail(e) => lift_one(
            match look(s, r) {
                Ok((t, r1)) => if is_tok(t.0, Tok::Dot) {
                    match take(s, r1) {
                        Ok((_, r2)) => match take(s, r2) {
                            Ok((f, r3)) => match field_name(f.0) {
                                Some(field) => if below(s, r3, r) {
                                    one(gram(s, r3, Goal::PostfixTail(ExprV::Member {
                                            object: Box::new(e),
                                            field,
                                            span: join(span_of(e), (f.1, f.2)),
                                        })))
                                } else {
                                    Err(stalled())
                                },
                                None => Err(got("expected field name, got "@, f)),
                            },
                            Err(at) => Err(at),
                        },
                        Err(at) => Err(at),
                    }
                } else if is_tok(t.0, Tok::LBracket) {
                    match take(s, r1) {
                        Ok((_, r2)) => if below(s, r2, r) {
                            match one(gram(s, r2, Goal::Expr)) {
                                Ok((index, r3)) => match g_expect(s, r3, Tok::RBracket) {
                                    Ok((end, r4)) => if below(s, r4, r) {
                                        one(gram(s, r4, Goal::PostfixTail(ExprV::Index {
                                                object: Box::new(e),
                                                index: Box::new(index),
                                                span: join(span_of(e), end),
                                            })))
                                    } else {
                                        Err(stalled())
                                    },
                                    Err(at) => Err(at),
                                },
                                Err(at) => Err(at),
                            }
                        } else {
                            Err(stalled())
                        },
                        Err(at) => Err(at),
                    }
                } else if is_tok(t.0, Tok::LParen) {
                    match take(s, r1) {
                        Ok((_, r2)) => if below(s, r2, r) {
                            match many(gram(s, r2, Goal::Args)) {
                                Ok((args, r3)) => match g_expect(s, r3, Tok::RParen) {
                                    Ok((end, r4)) => if below(s, r4, r) {
                                        one(gram(s, r4, Goal::PostfixTail(ExprV::Call {
                                                callee: Box::new(e),
                                                args,
                                                span: join(span_of(e), end),
                                            })))
                                    } else {
                                        Err(stalled())
                                    },
                                    Err(at) => Err(at),
                                },
                                Err(at) => Err(at),
                            }
                        } else {
                            Err(stalled())
                        },
                        Err(at) => Err(at),
                    }
                } else {
                    Ok((e, r1))
                },
                Err(at) => Err(at),
            },
        ),
        Goal::Atom => lift_one(
            match take(s, r) {
                Ok((t, r1)) => {
                    let sp = (t.1, t.2);
                    if token_atom(t.0, sp) is Some {
                        Ok((token_atom(t.0, sp).unwrap(), r1))
                    } else if is_tok(t.0, Tok::LParen) {
                        if below(s, r1, r) {
                            match one(gram(s, r1, Goal::Expr)) {
                                Ok((e, r2)) => match g_expect(s, r2, Tok::RParen) {
                                    Ok((end, r3)) => Ok((respan(e, join(sp, end)), r3)),
                                    Err(at) => Err(at),
                                },
                                Err(at) => Err(at),
                            }
                        } else {
                            Err(stalled())
                        }
                    } else if is_tok(t.0, Tok::LBracket) {
                        match look(s, r1) {
                            Ok((p, r2)) => if is_tok(p.0, Tok::RBracket) {
                                match g_expect(s, r2, Tok::RBracket) {
                                    Ok((end, r3)) => Ok(
                                        (ExprV::Array { elements: Seq::empty(), span: join(sp, end) }, r3),
                                    ),
                                    Err(at) => Err(at),
                                }
                            } else if below(s, r2, r) {
                                match one(gram(s, r2, Goal::Expr)) {
                                    Ok((first, r3)) => if below(s, r3, r) {
                                        match many(gram(s, r3, Goal::ListTail(seq![first]))) {
                                            Ok((elements, r4)) => match g_expect(s, r4, Tok::RBracket) {
                                                Ok((end, r5)) => Ok(
                                                    (ExprV::Array { elements, span: join(sp, end) }, r5),
                                                ),
                                                Err(at) => Err(at),
                                            },
                                            Err(at) => Err(at),
                                        }
                                    } else {
                                        Err(stalled())
                                    },
                                    Err(at) => Err(at),
                                }
                            } else {
                                Err(stalled())
                            },
                            Err(at) => Err(at),
                        }
                    } else if is_tok(t.0, Tok::LBrace) {
                        match look(s, r1) {
                            Ok((p, r2)) => if is_tok(p.0, Tok::RBrace) {
                                match g_expect(s, r2, Tok::RBrace) {
                                    Ok((end, r3)) => Ok(
                                        (ExprV::Object { entries: Seq::empty(), span: join(sp, end) }, r3),
                                    ),
                                    Err(at) => Err(at),
                                }
                            } else if below(s, r2, r) {
                                match entry_of(gram(s, r2, Goal::Entry)) {
                                    Ok((first, r3)) => if below(s, r3, r) {
                                        match entries(gram(s, r3, Goal::EntriesTail(seq![first]))) {
                                            Ok((entries, r4)) => match g_expect(s, r4, Tok::RBrace) {
                                                Ok((end, r5)) => Ok(
                                                    (ExprV::Object { entries, span: join(sp, end) }, r5),
                                                ),
                                                Err(at) => Err(at),
                                            },
                                            Err(at) => Err(at),
                                        }
                                    } else {
                                        Err(stalled())
                                    },
                                    Err(at) => Err(at),
                                }
                            } else {
                                Err(stalled())
                            },
                            Err(at) => Err(at),
                        }
                    } else {
                        Err(got("expected expression, got "@, t))
                    }
                },
                Err(at) => Err(at),
            },
        ),
        Goal::ListTail(acc) => lift_many(
            match look(s, r) {
                Ok((t, r1)) => if !is_tok(t.0, Tok::Comma) {
                    Ok((acc, r1))
                } else {
                    match take(s, r1) {
                        Ok((_, r2)) => if below(s, r2, r) {
                            match one(gram(s, r2, Goal::Expr)) {
                                Ok((e, r3)) => if below(s, r3, r) {
                                    many(gram(s, r3, Goal::ListTail(acc.push(e))))
                                } else {
                                    Err(stalled())
                                },
                                Err(at) => Err(at),
                            }
                        } else {
                            Err(stalled())
                        },
                        Err(at) => Err(at),
                    }
                },
                Err(at) => Err(at),
            },
        ),
        Goal::Args => lift_many(
            match look(s, r) {
                Ok((t, r1)) => if is_tok(t.0, Tok::RParen) {
                    Ok((Seq::empty(), r1))
                } else if within(s, r1, r) {
                    match one(gram(s, r1, Goal::Expr)) {
                        Ok((first, r2)) => if within(s, r2, r) {
                            many(gram(s, r2, Goal::ListTail(seq![first])))
                        } else {
                            Err(stalled())
                        },
                        Err(at) => Err(at),
                    }
                } else {
                    Err(stalled())
                },
                Err(at) => Err(at),
            },
        ),
        Goal::Entry => lift_entry(
            match take(s, r) {
                Ok((t, r1)) => match key_name(t.0) {
                    Some(key) => match g_expect(s, r1, Tok::Colon) {
                        Ok((_, r2)) => if below(s, r2, r) {
                            match one(gram(s, r2, Goal::Expr)) {
                                Ok((v, r3)) => Ok(((key, v), r3)),
                                Err(at) => Err(at),
                            }
                        } else {
                            Err(stalled())
                        },
                        Err(at) => Err(at),
                    },
                    None => Err(got("expected object key, got "@, t)),
                },
                Err(at) => Err(at),
            },
        ),
        Goal::EntriesTail(acc) => lift_entries(
            match look(s, r) {
                Ok((t, r1)) => if !is_tok(t.0, Tok::Comma) {
                    Ok((acc, r1))
                } else {
                    match take(s, r1) {
                        Ok((_, r2)) => if below(s, r2, r) {
                            match entry_of(gram(s, r2, Goal::Entry)) {
                                Ok((en, r3)) => if below(s, r3, r) {
                                    entries(gram(s, r3, Goal::EntriesTail(acc.push(en))))
                                } else {
                                    Err(stalled())
                                },
                                Err(at) => Err(at),
                            }
                        } else {
                            Err(stalled())
                        },
                        Err(at) => Err(at),
                    }
                },
                Err(at) => Err(at),
            },
        ),
    }
}

/// A full expression.
pub open spec fn g_expr(s: Seq<char>, r: Reading) -> Result<(ExprV, Reading), Fault> {
    one(gram(s, r, Goal::Expr))
}

/// An expression with pipes.
pub open spec fn g_pipe(s: Seq<char>, r: Reading) -> Result<(ExprV, Reading), Fault> {
    one(gram(s, r, Goal::Pipe))
}

/// The pipes that follow `e`.
pub open spec fn g_pipe_tail(s: Seq<char>, r: Reading, e: ExprV) -> Result<(ExprV, Reading), Fault> {
    one(gram(s, r, Goal::PipeTail(e)))
}

/// The `:arg` list of a pipe, after `args`.
pub open spec fn g_pipe_args(s: Seq<char>, r: Reading, args: Seq<ExprV>) -> Result<
    (Seq<ExprV>, Reading),
    Fault,
> {
    many(gram(s, r, Goal::PipeArgs(args)))
}

/// Operands and operators that bind at least as tightly as `min_bp`.
pub open spec fn g_binary(s: Seq<char>, r: Reading, min_bp: int) -> Result<(ExprV, Reading), Fault> {
    one(gram(s, r, Goal::Binary(min_bp)))
}

/// The operators and right operands that follow `left`.
pub open spec fn g_binary_tail(s: Seq<char>, r: Reading, left: ExprV, min_bp: int) -> Result<
    (ExprV, Reading),
    Fault,
> {
    one(gram(s, r, Goal::BinaryTail(left, min_bp)))
}

/// `!expr`, `-expr`, or a postfix expression.
pub open spec fn g_unary(s: Seq<char>, r: Reading) -> Result<(ExprV, Reading), Fault> {
    one(gram(s, r, Goal::Unary))
}

/// An atom and the postfix forms that follow it.
pub open spec fn g_postfix(s: Seq<char>, r: Reading) -> Result<(ExprV, Reading), Fault> {
    one(gram(s, r, Goal::Postfix))
}

/// The postfix forms that follow `e`.
pub open spec fn g_postfix_tail(s: Seq<char>, r: Reading, e: ExprV) -> Result<(ExprV, Reading), Fault> {
    one(gram(s, r, Goal::PostfixTail(e)))
}

/// A literal, a name, `(expr)`, an array literal or an object literal.
pub open spec fn g_atom(s: Seq<char>, r: Reading) -> Result<(ExprV, Reading), Fault> {
    one(gram(s, r, Goal::Atom))
}

/// The `, expr` items that follow `acc`.
pub open spec fn g_list_tail(s: Seq<char>, r: Reading, acc: Seq<ExprV>) -> Result<
    (Seq<ExprV>, Reading),
    Fault,
> {
    many(gram(s, r, Goal::ListTail(acc)))
}

/// The arguments of a call.
pub open spec fn g_args(s: Seq<char>, r: Reading) -> Result<(Seq<ExprV>, Reading), Fault> {
    many(gram(s, r, Goal::Args))
}

/// One object entry.
pub open spec fn g_entry(s: Seq<char>, r: Reading) -> Result<((Seq<char>, ExprV), Reading), Fault> {
    entry_of(gram(s, r, Goal::Entry))
}

/// The `, key: value` entries that follow `acc`.
pub open spec fn g_entries_tail(
    s: Seq<char>,
    r: Reading,
    acc: Seq<(Seq<char>, ExprV)>,
) -> Result<(Seq<(Seq<char>, ExprV)>, Reading), Fault> {
    entries(gram(s, r, Goal::EntriesTail(acc)))
}

/// What `g_pipe_tail` at `rc` gives once it has read `| name`, where `nsp`
/// is the name's span and reading goes on from `r3`.
pub open spec fn pipe_rest(
    s: Seq<char>,
    rc: Reading,
    e: ExprV,
    name: Seq<char>,
    nsp: (int, int),
    r3: Reading,
) -> Result<(ExprV, Reading), Fault> {
    match g_pipe_args(s, r3, Seq::empty()) {
        Ok((args, r4)) => if below(s, r4, rc) {
            g_pipe_tail(
                s,
                r4,
                ExprV::Pipe { value: Box::new(e), name, args, span: join(span_of(e), nsp) },
            )
        } else {
            Err(stalled())
        },
        Err(at) => Err(at),
    }
}

/// Where template parsing stands: expression-mode reading, how many block
/// bodies are open, and whether the `}` that closes the innermost one was
/// already read (as the second brace of a `}}` that closed an `@match`).
pub struct PState {
    pub rd: Reading,
    pub depth: usize,
    pub pending: bool,
}

/// The state `st` with reading at `rd`.
pub open spec fn at_rd(st: PState, rd: Reading) -> PState {
    PState { rd, depth: st.depth, pending: st.pending }
}

/// Whether parsing from `a` has strictly less left to read than from `b`.
pub open spec fn tbelow(s: Seq<char>, a: PState, b: PState) -> bool {
    below(s, a.rd, b.rd)
}

/// A text-mode read: the token with its span in bytes, and the state
/// after it.
/// Text mode reads at the position and leaves a token read ahead in
/// expression mode where it is.
pub open spec fn text_read(s: Seq<char>, st: PState) -> ((LexTok, int, int), PState) {
    let t = text_step(s, st.rd.pos, st.depth);
    ((t.0, bpos(s, t.1), bpos(s, t.2)), at_rd(st, Reading { pos: t.2, ahead: st.rd.ahead }))
}

/// A text-mode read inside an `@switch` body: the next token, skipping
/// one run of text that is only whitespace.
pub open spec fn switch_read(s: Seq<char>, st: PState) -> ((LexTok, int, int), PState) {
    let (t1, st1) = text_read(s, st);
    match t1.0 {
        LexTok::Text(w) => if blank(w) {
            text_read(s, st1)
        } else {
            (t1, st1)
        },
        _ => (t1, st1),
    }
}

/// Whether, after whitespace, `@w` follows `pos` as a whole word.
pub open spec fn keyword_ahead(s: Seq<char>, pos: int, w: Seq<char>) -> bool {
    let p = ws_end(s, pos);
    p < s.len() && s[p] == '@' && keyword_follows(s, p, w)
}

/// The state after ASCII whitespace.
pub open spec fn skip_ws(s: Seq<char>, st: PState) -> PState {
    at_rd(st, Reading { pos: ascii_ws_end(s, st.rd.pos), ahead: st.rd.ahead })
}

/// The state with one more block body open.
pub open spec fn enter(st: PState) -> PState {
    PState {
        rd: st.rd,
        depth: if st.depth < usize::MAX {
            (st.depth + 1) as usize
        } else {
            st.depth
        },
        pending: st.pending,
    }
}

/// The state with one block body fewer open.
pub open spec fn leave(st: PState) -> PState {
    PState {
        rd: st.rd,
        depth: if st.depth > 0 {
            (st.depth - 1) as usize
        } else {
            0
        },
        pending: st.pending,
    }
}

/// Whether text holds only Unicode whitespace.
pub open spec fn blank(w: Seq<char>) -> bool {
    forall|i: int| 0 <= i < w.len() ==> is_unicode_ws(#[trigger] w[i])
}

/// The empty span at the end of the source, in bytes.
pub open spec fn end_span(s: Seq<char>) -> (int, int) {
    (blen(s), blen(s))
}

/// Whether a pattern is the wildcard `_`.
pub open spec fn is_wildcard(e: ExprV) -> bool {
    match e {
        ExprV::Ident { name, .. } => name == "_"@,
        _ => false,
    }
}

/// A full expression, from a template state.
pub open spec fn t_expr(s: Seq<char>, st: PState) -> Result<(ExprV, PState), Fault> {
    match g_expr(s, st.rd) {
        Ok((e, rd)) => Ok((e, at_rd(st, rd))),
        Err(at) => Err(at),
    }
}

/// The expression token `k`, from a template state.
pub open spec fn t_expect(s: Seq<char>, st: PState, k: Tok) -> Result<((int, int), PState), Fault> {
    match g_expect(s, st.rd, k) {
        Ok((sp, rd)) => Ok((sp, at_rd(st, rd))),
        Err(at) => Err(at),
    }
}

/// The `}}` that ends an interpolation, from a template state.
pub open spec fn t_interp_end(s: Seq<char>, st: PState) -> Result<((int, int), PState), Fault> {
    match g_interp_end(s, st.rd) {
        Ok((sp, rd)) => Ok((sp, at_rd(st, rd))),
        Err(at) => Err(at),
    }
}

/// The next expression-mode token, from a template state.
pub open spec fn t_take(s: Seq<char>, st: PState) -> Result<((LexTok, int, int), PState), Fault> {
    match take(s, st.rd) {
        Ok((t, rd)) => Ok((t, at_rd(st, rd))),
        Err(at) => Err(at),
    }
}

/// The next expression-mode token, kept read ahead, from a template state.
pub open spec fn t_look(s: Seq<char>, st: PState) -> Result<((LexTok, int, int), PState), Fault> {
    match look(s, st.rd) {
        Ok((t, rd)) => Ok((t, at_rd(st, rd))),
        Err(at) => Err(at),
    }
}

/// What the template grammar is asked to read.
pub enum TGoal {
    /// Nodes up to the end of input or of the block body.
    Nodes,
    /// The nodes that follow the nodes read so far.
    NodesTail(Seq<NodeV>),
    /// One node, or nothing at the end of input or of the block body.
    Node,
    /// A block body: `{`, nodes, then the `}` that ends them.
    Block,
    /// The rest of an `@if` whose `@if` token has the given span.
    If((int, int)),
    /// The `@else @if` and `@else` parts after the branches read so far.
    IfTail(Seq<(ExprV, BlockV, (int, int))>, (int, int)),
    /// The rest of an `@for`.
    For((int, int)),
    /// The rest of an `@switch`.
    Switch((int, int)),
    /// The cases of an `@switch` on the given expression, after the cases
    /// and default read so far.
    SwitchTail(ExprV, Seq<(ExprV, Seq<NodeV>, (int, int))>, Option<Seq<NodeV>>, (int, int)),
    /// The rest of an `@match`.
    Match((int, int)),
    /// The arms of an `@match` on the given expression, after the arms and
    /// default read so far.
    MatchTail(ExprV, Seq<(ExprV, BlockV, (int, int))>, Option<BlockV>, (int, int)),
    /// The rest of an `@include`.
    Include((int, int)),
}

/// What a template rule reads.
pub enum TParsed {
    Nodes(Seq<NodeV>),
    Node(Option<NodeV>),
    Block(BlockV),
}

/// The order in which template rules call each other without reading.
pub open spec fn ttier(g: TGoal) -> nat {
    match g {
        TGoal::Nodes => 2,
        TGoal::NodesTail(_) => 1,
        _ => 0,
    }
}

/// The nodes that a template rule read.
pub open spec fn nodes_of(x: Result<(TParsed, PState), Fault>) -> Result<(Seq<NodeV>, PState), Fault> {
    match x {
        Ok((TParsed::Nodes(ns), st)) => Ok((ns, st)),
        Ok(_) => Err(stalled()),
        Err(at) => Err(at),
    }
}

/// The node, or nothing, that a template rule read.
pub open spec fn node_of(x: Result<(TParsed, PState), Fault>) -> Result<(Option<NodeV>, PState), Fault> {
    match x {
        Ok((TParsed::Node(n), st)) => Ok((n, st)),
        Ok(_) => Err(stalled()),
        Err(at) => Err(at),
    }
}

/// The block that a template rule read.
pub open spec fn block_of(x: Result<(TParsed, PState), Fault>) -> Result<(BlockV, PState), Fault> {
    match x {
        Ok((TParsed::Block(b), st)) => Ok((b, st)),
        Ok(_) => Err(stalled()),
        Err(at) => Err(at),
    }
}

/// The node that a rule for a construct reads.
pub open spec fn made(n: NodeV, st: PState) -> Result<(TParsed, PState), Fault> {
    Ok((TParsed::Node(Some(n)), st))
}

/// The template grammar: what the rule `goal` reads from `st` in `s`.
#[verifier::opaque]
pub open spec fn tgram(s: Seq<char>, st: PState, goal: TGoal) -> Result<(TParsed, PState), Fault>
    decreases rest(s, st.rd), ttier(goal),
{
    match goal {
        TGoal::Nodes => tgram(s, st, TGoal::NodesTail(Seq::empty())),
        TGoal::NodesTail(acc) => match node_of(tgram(s, st, TGoal::Node)) {
            Ok((None, st1)) => Ok((TParsed::Nodes(acc), st1)),
            Ok((Some(n), st1)) => if tbelow(s, st1, st) {
                tgram(s, st1, TGoal::NodesTail(acc.push(n)))
            } else {
                Err(stalled())
            },
            Err(at) => Err(at),
        },
        TGoal::Node => if st.pending {
            Ok((TParsed::Node(None), PState { rd: st.rd, depth: st.depth, pending: false }))
        } else {
            let (t, st1) = text_read(s, st);
            let sp = (t.1, t.2);
            match t.0 {
                LexTok::Text(w) => made(NodeV::Text { text: w, span: sp }, st1),
                LexTok::InterpStart => match t_expr(s, st1) {
                    Ok((e, st2)) => match t_interp_end(s, st2) {
                        Ok((end, st3)) => made(NodeV::Interp { expr: e, span: join(sp, end) }, st3),
                        Err(at) => Err(at),
                    },
                    Err(at) => Err(at),
                },
                LexTok::AtIf => if tbelow(s, st1, st) {
                    tgram(s, st1, TGoal::If(sp))
                } else {
                    Err(stalled())
                },
                LexTok::AtFor => if tbelow(s, st1, st) {
                    tgram(s, st1, TGoal::For(sp))
                } else {
                    Err(stalled())
                },
                LexTok::AtSwitch => if tbelow(s, st1, st) {
                    tgram(s, st1, TGoal::Switch(sp))
                } else {
                    Err(stalled())
                },
                LexTok::AtMatch => if tbelow(s, st1, st) {
                    tgram(s, st1, TGoal::Match(sp))
                } else {
                    Err(stalled())
                },
                LexTok::AtInclude => if tbelow(s, st1, st) {
                    tgram(s, st1, TGoal::Include(sp))
                } else {
                    Err(stalled())
                },
                LexTok::CloseBrace => Ok((TParsed::Node(None), st1)),
                LexTok::Eof => Ok((TParsed::Node(None), st1)),
                _ => Err(got("unexpected token: "@, t)),
            }
        },
        TGoal::Block => match t_expect(s, st, Tok::LBrace) {
            Ok((open, st1)) => if tbelow(s, st1, st) {
                match nodes_of(tgram(s, enter(st1), TGoal::Nodes)) {
                    Ok((ns, st2)) => {
                        let st3 = leave(st2);
                        Ok(
                            (
                                TParsed::Block(
                                    BlockV { nodes: ns, span: join(open, (bpos(s, st3.rd.pos), bpos(s, st3.rd.pos))) },
                                ),
                                st3,
                            ),
                        )
                    },
                    Err(at) => Err(at),
                }
            } else {
                Err(stalled())
            },
            Err(at) => Err(at),
        },
        TGoal::If(start) => match t_expect(s, st, Tok::LParen) {
            Ok((_, st1)) => match t_expr(s, st1) {
                Ok((c, st2)) => match t_expect(s, st2, Tok::RParen) {
                    Ok((_, st3)) => if tbelow(s, st3, st) {
                        match block_of(tgram(s, st3, TGoal::Block)) {
                            Ok((body, st4)) => if tbelow(s, st4, st) {
                                tgram(
                                    s,
                                    st4,
                                    TGoal::IfTail(seq![(c, body, join(start, end_span(s)))], start),
                                )
                            } else {
                                Err(stalled())
                            },
                            Err(at) => Err(at),
                        }
                    } else {
                        Err(stalled())
                    },
                    Err(at) => Err(at),
                },
                Err(at) => Err(at),
            },
            Err(at) => Err(at),
        },
        TGoal::IfTail(bs, start) => if !keyword_ahead(s, st.rd.pos, "else"@) {
            made(NodeV::If { branches: bs, else_body: None, span: join(start, end_span(s)) }, st)
        } else {
            let (t, st2) = text_read(s, skip_ws(s, st));
            if !(t.0 is AtElse) {
                Err(got("expected @else, got "@, t))
            } else if keyword_ahead(s, st2.rd.pos, "if"@) {
                let (t2, st4) = text_read(s, skip_ws(s, st2));
                if !(t2.0 is AtIf) {
                    Err(got("expected @if, got "@, t2))
                } else {
                    match t_expect(s, st4, Tok::LParen) {
                        Ok((_, st5)) => match t_expr(s, st5) {
                            Ok((c, st6)) => match t_expect(s, st6, Tok::RParen) {
                                Ok((_, st7)) => if tbelow(s, st7, st) {
                                    match block_of(tgram(s, st7, TGoal::Block)) {
                                        Ok((body, st8)) => if tbelow(s, st8, st) {
                                            tgram(
                                                s,
                                                st8,
                                                TGoal::IfTail(
                                                    bs.push(
                                                        (c, body, join((t.1, t.2), end_span(s))),
                                                    ),
                                                    start,
                                                ),
                                            )
                                        } else {
                                            Err(stalled())
                                        },
                                        Err(at) => Err(at),
                                    }
                                } else {
                                    Err(stalled())
                                },
                                Err(at) => Err(at),
                            },
                            Err(at) => Err(at),
                        },
                        Err(at) => Err(at),
                    }
                }
            } else if tbelow(s, st2, st) {
                match block_of(tgram(s, st2, TGoal::Block)) {
                    Ok((eb, st3)) => made(
                        NodeV::If { branches: bs, else_body: Some(eb), span: join(start, end_span(s)) },
                        st3,
                    ),
                    Err(at) => Err(at),
                }
            } else {
                Err(stalled())
            }
        },
        TGoal::For(start) => match t_expect(s, st, Tok::LParen) {
            Ok((_, st1)) => match t_take(s, st1) {
                Ok((b, st2)) => match b.0 {
                    LexTok::Expr(Tok::Ident(binding)) => match t_take(s, st2) {
                        Ok((o, st3)) => if !is_tok(o.0, Tok::Of) {
                            Err(got("expected 'of', got "@, o))
                        } else {
                            match t_expr(s, st3) {
                                Ok((iterable, st4)) => match t_expect(s, st4, Tok::Semi) {
                                    Ok((_, st5)) => match t_take(s, st5) {
                                        Ok((k, st6)) => if !is_tok(k.0, Tok::Track) {
                                            Err(got("expected 'track', got "@, k))
                                        } else {
                                            match t_expr(s, st6) {
                                                Ok((track, st7)) => match t_expect(
                                                    s,
                                                    st7,
                                                    Tok::RParen,
                                                ) {
                                                    Ok((_, st8)) => if tbelow(s, st8, st) {
                                                        match block_of(
                                                            tgram(s, st8, TGoal::Block),
                                                        ) {
                                                            Ok((body, st9)) => made(
                                                                NodeV::For {
                                                                    binding,
                                                                    iterable,
                                                                    track,
                                                                    body,
                                                                    span: join(start, end_span(s)),
                                                                },
                                                                st9,
                                                            ),
                                                            Err(at) => Err(at),
                                                        }
                                                    } else {
                                                        Err(stalled())
                                                    },
                                                    Err(at) => Err(at),
                                                },
                                                Err(at) => Err(at),
                                            }
                                        },
                                        Err(at) => Err(at),
                                    },
                                    Err(at) => Err(at),
                                },
                                Err(at) => Err(at),
                            }
                        },
                        Err(at) => Err(at),
                    },
                    _ => Err(got("expected identifier, got "@, b)),
                },
                Err(at) => Err(at),
            },
            Err(at) => Err(at),
        },
        TGoal::Switch(start) => match t_expect(s, st, Tok::LParen) {
            Ok((_, st1)) => match t_expr(s, st1) {
                Ok((e, st2)) => match t_expect(s, st2, Tok::RParen) {
                    Ok((_, st3)) => match t_expect(s, st3, Tok::LBrace) {
                        Ok((_, st4)) => if tbelow(s, st4, st) {
                            tgram(s, enter(st4), TGoal::SwitchTail(e, Seq::empty(), None, start))
                        } else {
                            Err(stalled())
                        },
                        Err(at) => Err(at),
                    },
                    Err(at) => Err(at),
                },
                Err(at) => Err(at),
            },
            Err(at) => Err(at),
        },
        TGoal::SwitchTail(e, cs, def, start) => {
            let (t, st2) = switch_read(s, st);
            match t.0 {
                LexTok::AtCase => match t_expect(s, st2, Tok::LParen) {
                    Ok((_, st3)) => match t_expr(s, st3) {
                        Ok((v, st4)) => match t_expect(s, st4, Tok::RParen) {
                            Ok((_, st5)) => if tbelow(s, st5, st) {
                                match block_of(tgram(s, st5, TGoal::Block)) {
                                    Ok((body, st6)) => if tbelow(s, st6, st) {
                                        tgram(
                                            s,
                                            st6,
                                            TGoal::SwitchTail(
                                                e,
                                                cs.push(
                                                    (v, body.nodes, join((t.1, t.2), end_span(s))),
                                                ),
                                                def,
                                                start,
                                            ),
                                        )
                                    } else {
                                        Err(stalled())
                                    },
                                    Err(at) => Err(at),
                                }
                            } else {
                                Err(stalled())
                            },
                            Err(at) => Err(at),
                        },
                        Err(at) => Err(at),
                    },
                    Err(at) => Err(at),
                },
                LexTok::AtDefault => if tbelow(s, st2, st) {
                    match block_of(tgram(s, st2, TGoal::Block)) {
                        Ok((body, st3)) => if tbelow(s, st3, st) {
                            tgram(s, st3, TGoal::SwitchTail(e, cs, Some(body.nodes), start))
                        } else {
                            Err(stalled())
                        },
                        Err(at) => Err(at),
                    }
                } else {
                    Err(stalled())
                },
                LexTok::CloseBrace => made(
                    NodeV::Switch {
                        subject: e,
                        cases: cs,
                        default: def,
                        span: join(start, end_span(s)),
                    },
                    leave(st2),
                ),
                LexTok::Eof => Err(
                    Fault {
                        span: (t.1, t.2),
                        message: "unexpected end of input in @switch block"@,
                    },
                ),
                _ => Err(got("expected @case, @default, or '}', got "@, t)),
            }
        },
        TGoal::Match(start) => match t_expect(s, st, Tok::LParen) {
            Ok((_, st1)) => match t_expr(s, st1) {
                Ok((e, st2)) => match t_expect(s, st2, Tok::RParen) {
                    Ok((_, st3)) => match t_expect(s, st3, Tok::LBrace) {
                        Ok((_, st4)) => if tbelow(s, st4, st) {
                            tgram(s, st4, TGoal::MatchTail(e, Seq::empty(), None, start))
                        } else {
                            Err(stalled())
                        },
                        Err(at) => Err(at),
                    },
                    Err(at) => Err(at),
                },
                Err(at) => Err(at),
            },
            Err(at) => Err(at),
        },
        TGoal::MatchTail(e, arms, def, start) => {
            let whole = |a: Seq<(ExprV, BlockV, (int, int))>, d: Option<BlockV>|
                NodeV::Match { subject: e, arms: a, default: d, span: join(start, end_span(s)) };
            match t_look(s, st) {
                Ok((p, st1)) => if is_tok(p.0, Tok::RBrace) {
                    match t_take(s, st1) {
                        Ok((_, st2)) => made(whole(arms, def), st2),
                        Err(at) => Err(at),
                    }
                } else {
                    match t_expr(s, st1) {
                        Ok((pat, st2)) => match t_expect(s, st2, Tok::FatArrow) {
                            Ok((_, st3)) => if tbelow(s, st3, st) {
                                match block_of(tgram(s, st3, TGoal::Block)) {
                                    Ok((body, st4)) => {
                                        let arms2 = if is_wildcard(pat) {
                                            arms
                                        } else {
                                            arms.push((pat, body, join(span_of(pat), body.span)))
                                        };
                                        let def2 = if is_wildcard(pat) {
                                            Some(body)
                                        } else {
                                            def
                                        };
                                        match t_take(s, st4) {
                                            Ok((nx, st5)) => if is_tok(nx.0, Tok::RBrace) {
                                                made(whole(arms2, def2), st5)
                                            } else if nx.0 is InterpEnd && st5.depth > 0 {
                                                made(
                                                    whole(arms2, def2),
                                                    PState { rd: st5.rd, depth: st5.depth, pending: true },
                                                )
                                            } else if !is_tok(nx.0, Tok::Comma) {
                                                Err(got("expected ',' or '}', got "@, nx))
                                            } else if tbelow(s, st5, st) {
                                                tgram(s, st5, TGoal::MatchTail(e, arms2, def2, start))
                                            } else {
                                                Err(stalled())
                                            },
                                            Err(at) => Err(at),
                                        }
                                    },
                                    Err(at) => Err(at),
                                }
                            } else {
                                Err(stalled())
                            },
                            Err(at) => Err(at),
                        },
                        Err(at) => Err(at),
                    }
                },
                Err(at) => Err(at),
            }
        },
        TGoal::Include(start) => match t_expect(s, st, Tok::LParen) {
            Ok((_, st1)) => match t_expr(s, st1) {
                Ok((name, st2)) => match t_expect(s, st2, Tok::RParen) {
                    Ok((end, st3)) => made(NodeV::Include { name, span: join(start, end) }, st3),
                    Err(at) => Err(at),
                },
                Err(at) => Err(at),
            },
            Err(at) => Err(at),
        },
    }
}

/// Nodes up to the end of input or of the block body.
pub open spec fn t_nodes(s: Seq<char>, st: PState) -> Result<(Seq<NodeV>, PState), Fault> {
    nodes_of(tgram(s, st, TGoal::Nodes))
}

/// One node, or nothing at the end of input or of the block body.
pub open spec fn t_node(s: Seq<char>, st: PState) -> Result<(Option<NodeV>, PState), Fault> {
    node_of(tgram(s, st, TGoal::Node))
}

/// A block body.
pub open spec fn t_block(s: Seq<char>, st: PState) -> Result<(BlockV, PState), Fault> {
    block_of(tgram(s, st, TGoal::Block))
}

/// What a construct's rule reads: the node it makes.
pub open spec fn t_rule(s: Seq<char>, st: PState, goal: TGoal) -> Result<(Option<NodeV>, PState), Fault> {
    node_of(tgram(s, st, goal))
}

/// Where parsing a whole template starts.
pub open spec fn start_state() -> PState {
    PState { rd: Reading { pos: 0, ahead: None }, depth: 0, pending: false }
}

/// The span of a template's nodes: from the first node's to the last
/// node's, and empty at the start when there is none.
pub open spec fn body_span(ns: Seq<NodeV>) -> (int, int) {
    if ns.len() == 0 {
        (0, 0)
    } else {
        join(node_span_of(ns[0]), node_span_of(ns.last()))
    }
}

/// The model of the template that the source `s` parses to, or `Err` with
/// the span of the token where the source departs from the grammar (for
/// a character that starts no token, the span of that character).
pub open spec fn template_model(s: Seq<char>) -> Result<BlockV, Fault> {
    match t_nodes(s, start_state()) {
        Ok((ns, _)) => Ok(BlockV { nodes: ns, span: body_span(ns) }),
        Err(at) => Err(at),
    }
}

} // verus!
