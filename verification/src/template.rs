//! A parsed template.

use std::sync::Arc;
use vstd::prelude::*;

use crate::ast::{block_within, BlockNode, Node};
use crate::error::ParseError;
use crate::parser::{is_plain_text, parse_model, parses_as_text};
use crate::text::blen;
use crate::span::Span;

verus! {

/// A parsed template: its source and the block of nodes it parses to.
#[derive(Debug, PartialEq)]
pub struct Template {
    pub(crate) src: Arc<str>,
    pub(crate) block: BlockNode,
}

impl Template {
    /// The template's source.
    pub closed spec fn source(&self) -> Seq<char> {
        self.src@
    }

    /// The template's nodes.
    pub closed spec fn body(&self) -> BlockNode {
        self.block
    }

    pub fn new(src: Arc<str>, block: BlockNode) -> (t: Template)
        ensures
            t.source() == src@,
            t.body() == block,
    {
        Template { src, block }
    }

    /// Parses a template; it gives what `crate::parser::parse` gives (see
    /// `parse_model` and `crate::laws::law_parse_is_a_function`).
    pub fn parse(source: &str) -> (r: Result<Template, ParseError>)
        ensures
            r matches Ok(t) ==> t.source() == source@,
            r matches Ok(t) ==> block_within(t.body(), source@),
            blen(source@) < usize::MAX - 2 && is_plain_text(source@) ==> (r matches Ok(t)
                && parses_as_text(t, source@)),
            parse_model(source@, r),
    {
        crate::parser::parse(source)
    }

    /// The template's source.
    pub fn src(&self) -> (s: &str)
        ensures
            s@ == self.source(),
    {
        &self.src
    }

    /// The template's top-level nodes.
    pub fn nodes(&self) -> (n: &Vec<Node>)
        ensures
            *n == self.body().nodes,
    {
        &self.block.nodes
    }

    /// The template's block of nodes.
    pub fn block(&self) -> (b: &BlockNode)
        ensures
            *b == self.body(),
    {
        &self.block
    }

    /// The span of the template's nodes.
    pub fn span(&self) -> (s: &Span)
        ensures
            *s == self.body().span,
    {
        &self.block.span
    }
}

} // verus!
