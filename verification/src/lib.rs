//! A small template language: `{{ expr }}` interpolation, `@if`,
//! `@for`, `@switch`, `@match` and `@include` blocks, parsed into an AST
//! and rendered against a scope of variables and templates.

pub mod span;
pub mod text;

pub use span::Span;
pub mod op;
pub use op::{BinaryOp, UnaryOp};
pub mod value;
pub use value::{Order, Value};
pub mod error;
pub use error::{
    DivisionByZeroError, EvalError, EvalErrorKind, IncludeDepthError, IndexOutOfBoundsError,
    InvalidIndexError, NotCallableError, NotIterableError, ParseError, TypeError,
    UndefinedFieldError, UndefinedPipeError, UndefinedTemplateError, UndefinedVariableError,
};
pub mod token;
pub use token::Token;
pub mod lexer;
pub mod ast;
pub mod tree;
pub mod grammar;
pub use ast::{
    ArrayExpr, BinaryExpr, BlockNode, CallExpr, Expr, ForNode, IdentExpr, IfBranch, IfNode,
    IncludeNode, IndexExpr, InterpNode, Literal, MatchArm, MatchExpr, MatchNode, MatchNodeArm,
    MemberExpr, Node, ObjectExpr, PipeExpr, SwitchCase, SwitchNode, TextNode, UnaryExpr, ValueExpr,
};
pub mod template;
pub use template::Template;
pub mod parser;
pub mod host;
pub use host::{Number, Reply, Request, Stop};
pub mod scope;
pub use scope::Scope;
pub mod display;
pub mod eval;
pub mod render;
pub mod laws;
pub mod value_laws;
pub use parser::parse;
