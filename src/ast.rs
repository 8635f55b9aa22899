//! The abstract syntax tree of GraphL.
//!
//! Every node owns its children, so a `Graph` is always a finite tree.
use vstd::prelude::*;

verus! {

/// Failures of parsing and printing.
#[derive(Debug, PartialEq, Eq)]
pub enum Error {
    /// The source text is not GraphL; `position` counts characters from the start.
    ParseError { position: usize, message: String },
    /// A context string holds a NUL character at `position`.
    InvalidCString { position: usize },
    /// An identifier breaks the lexical rules of GraphL.
    InvalidIdentifier { context: String },
}

/// `let var = vertex in graph`.
#[derive(Debug, PartialEq, Eq)]
pub struct Binding {
    pub graph: Box<Graph>,
    pub var: String,
    pub vertex: Vertex,
}

/// `let Var = graph_1 in graph_2`, a graph-level binding.
#[derive(Debug, PartialEq, Eq)]
pub struct GraphBinding {
    pub graph_1: Box<Graph>,
    pub graph_2: Box<Graph>,
    pub var: String,
}

/// A process identity, written `<name>`.
#[derive(Debug, PartialEq, Eq)]
pub struct Vertex {
    pub name: Name,
}

#[derive(Debug, PartialEq, Eq)]
#[allow(inconsistent_fields)]
pub enum Name {
    Wildcard,
    VVar { value: String },
    GVar { value: String },
    QuoteGraph { value: Box<Graph> },
    QuoteVertex { value: Box<Vertex> },
}

#[derive(Debug, PartialEq, Eq)]
pub struct GVertex {
    pub graph: Box<Graph>,
    pub vertex: Vertex,
}

#[derive(Debug, PartialEq, Eq)]
pub struct GVar {
    pub graph: Box<Graph>,
    pub var: String,
}

#[derive(Debug, PartialEq, Eq)]
pub struct GEdgeAnon {
    pub binding_1: Binding,
    pub binding_2: Binding,
}

#[derive(Debug, PartialEq, Eq)]
pub struct GEdgeNamed {
    pub binding_1: Binding,
    pub binding_2: Binding,
    pub name: Name,
}

#[derive(Debug, PartialEq, Eq)]
pub struct GRuleAnon {
    pub graph_1: Box<Graph>,
    pub graph_2: Box<Graph>,
}

#[derive(Debug, PartialEq, Eq)]
pub struct GRuleNamed {
    pub graph_1: Box<Graph>,
    pub graph_2: Box<Graph>,
    pub name: Name,
}

#[derive(Debug, PartialEq, Eq)]
pub struct GTensor {
    pub graph_1: Box<Graph>,
    pub graph_2: Box<Graph>,
}

#[derive(Debug, PartialEq, Eq)]
pub struct GContext {
    pub graph: Box<Graph>,
    pub name: Name,
    pub string: String,
}

#[derive(Debug, PartialEq, Eq)]
pub enum Graph {
    Nil,
    Vertex(GVertex),
    Var(GVar),
    Nominate(Binding),
    EdgeAnon(GEdgeAnon),
    EdgeNamed(GEdgeNamed),
    RuleAnon(GRuleAnon),
    RuleNamed(GRuleNamed),
    Subgraph(GraphBinding),
    Tensor(GTensor),
    Context(GContext),
}

} // verus!
