//! The mathematical view of the syntax tree: the same shape, with each
//! `String` seen as its sequence of characters.
use vstd::prelude::*;

use crate::ast::{Binding, Graph, GraphBinding, Name, Vertex};

verus! {

pub enum NameM {
    Wildcard,
    VVar(Seq<char>),
    GVar(Seq<char>),
    QuoteGraph(Box<GraphM>),
    /// A quoted vertex, seen as the name it carries.
    QuoteVertex(Box<NameM>),
}

pub struct BindingM {
    pub var: Seq<char>,
    /// The bound vertex, seen as its name.
    pub vertex: NameM,
    pub graph: Box<GraphM>,
}

pub enum GraphM {
    Nil,
    Vertex(NameM, Box<GraphM>),
    Var(Seq<char>, Box<GraphM>),
    Nominate(BindingM),
    EdgeAnon(BindingM, BindingM),
    EdgeNamed(NameM, BindingM, BindingM),
    RuleAnon(Box<GraphM>, Box<GraphM>),
    RuleNamed(NameM, Box<GraphM>, Box<GraphM>),
    /// `Subgraph(var, graph_1, graph_2)`.
    Subgraph(Seq<char>, Box<GraphM>, Box<GraphM>),
    Tensor(Box<GraphM>, Box<GraphM>),
    /// `Context(name, string, graph)`.
    Context(NameM, Seq<char>, Box<GraphM>),
}

pub open spec fn name_model(n: Name) -> NameM
    decreases n,
{
    match n {
        Name::Wildcard => NameM::Wildcard,
        Name::VVar { value } => NameM::VVar(value@),
        Name::GVar { value } => NameM::GVar(value@),
        Name::QuoteGraph { value } => NameM::QuoteGraph(Box::new(graph_model(*value))),
        Name::QuoteVertex { value } => NameM::QuoteVertex(Box::new(name_model(value.name))),
    }
}

pub open spec fn binding_model(b: Binding) -> BindingM
    decreases b,
{
    BindingM { var: b.var@, vertex: name_model(b.vertex.name), graph: Box::new(graph_model(*b.graph)) }
}

pub open spec fn graph_model(g: Graph) -> GraphM
    decreases g,
{
    match g {
        Graph::Nil => GraphM::Nil,
        Graph::Vertex(v) => GraphM::Vertex(name_model(v.vertex.name), Box::new(graph_model(*v.graph))),
        Graph::Var(v) => GraphM::Var(v.var@, Box::new(graph_model(*v.graph))),
        Graph::Nominate(b) => GraphM::Nominate(binding_model(b)),
        Graph::EdgeAnon(e) => GraphM::EdgeAnon(binding_model(e.binding_1), binding_model(e.binding_2)),
        Graph::EdgeNamed(e) => GraphM::EdgeNamed(
            name_model(e.name),
            binding_model(e.binding_1),
            binding_model(e.binding_2),
        ),
        Graph::RuleAnon(r) => GraphM::RuleAnon(
            Box::new(graph_model(*r.graph_1)),
            Box::new(graph_model(*r.graph_2)),
        ),
        Graph::RuleNamed(r) => GraphM::RuleNamed(
            name_model(r.name),
            Box::new(graph_model(*r.graph_1)),
            Box::new(graph_model(*r.graph_2)),
        ),
        Graph::Subgraph(b) => GraphM::Subgraph(
            b.var@,
            Box::new(graph_model(*b.graph_1)),
            Box::new(graph_model(*b.graph_2)),
        ),
        Graph::Tensor(t) => GraphM::Tensor(
            Box::new(graph_model(*t.graph_1)),
            Box::new(graph_model(*t.graph_2)),
        ),
        Graph::Context(c) => GraphM::Context(
            name_model(c.name),
            c.string@,
            Box::new(graph_model(*c.graph)),
        ),
    }
}

impl View for Graph {
    type V = GraphM;

    open spec fn view(&self) -> GraphM {
        graph_model(*self)
    }
}

impl View for Name {
    type V = NameM;

    open spec fn view(&self) -> NameM {
        name_model(*self)
    }
}

impl View for Vertex {
    type V = NameM;

    open spec fn view(&self) -> NameM {
        name_model(self.name)
    }
}

impl View for Binding {
    type V = BindingM;

    open spec fn view(&self) -> BindingM {
        binding_model(*self)
    }
}

impl View for GraphBinding {
    type V = GraphM;

    /// The graph-level binding, seen as the `Subgraph` node it forms.
    open spec fn view(&self) -> GraphM {
        GraphM::Subgraph(
            self.var@,
            Box::new(graph_model(*self.graph_1)),
            Box::new(graph_model(*self.graph_2)),
        )
    }
}

} // verus!
