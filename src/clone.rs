//! Deep copies of syntax trees.
use vstd::prelude::*;

use crate::ast::{
    Binding, GContext, GEdgeAnon, GEdgeNamed, GRuleAnon, GRuleNamed, GTensor, GVar, GVertex, Graph,
    GraphBinding, Name, Vertex,
};

verus! {

fn copy_string(s: &String) -> (r: String)
    ensures
        r@ == s@,
{
    s.clone()
}

pub fn clone_name(n: &Name) -> (r: Name)
    ensures
        r@ == n@,
    decreases n,
{
    match n {
        Name::Wildcard => Name::Wildcard,
        Name::VVar { value } => Name::VVar { value: copy_string(value) },
        Name::GVar { value } => Name::GVar { value: copy_string(value) },
        Name::QuoteGraph { value } => Name::QuoteGraph { value: Box::new(clone_graph(value)) },
        Name::QuoteVertex { value } => Name::QuoteVertex {
            value: Box::new(Vertex { name: clone_name(&value.name) }),
        },
    }
}

pub fn clone_binding(b: &Binding) -> (r: Binding)
    ensures
        r@ == b@,
    decreases b,
{
    Binding {
        graph: Box::new(clone_graph(&b.graph)),
        var: copy_string(&b.var),
        vertex: Vertex { name: clone_name(&b.vertex.name) },
    }
}

/// A copy of `g` with the same view.
pub fn clone_graph(g: &Graph) -> (r: Graph)
    ensures
        r@ == g@,
    decreases g,
{
    match g {
        Graph::Nil => Graph::Nil,
        Graph::Vertex(v) => Graph::Vertex(
            GVertex {
                graph: Box::new(clone_graph(&v.graph)),
                vertex: Vertex { name: clone_name(&v.vertex.name) },
            },
        ),
        Graph::Var(v) => Graph::Var(
            GVar { graph: Box::new(clone_graph(&v.graph)), var: copy_string(&v.var) },
        ),
        Graph::Nominate(b) => Graph::Nominate(clone_binding(b)),
        Graph::EdgeAnon(e) => Graph::EdgeAnon(
            GEdgeAnon { binding_1: clone_binding(&e.binding_1), binding_2: clone_binding(&e.binding_2) },
        ),
        Graph::EdgeNamed(e) => Graph::EdgeNamed(
            GEdgeNamed {
                binding_1: clone_binding(&e.binding_1),
                binding_2: clone_binding(&e.binding_2),
                name: clone_name(&e.name),
            },
        ),
        Graph::RuleAnon(r) => Graph::RuleAnon(
            GRuleAnon {
                graph_1: Box::new(clone_graph(&r.graph_1)),
                graph_2: Box::new(clone_graph(&r.graph_2)),
            },
        ),
        Graph::RuleNamed(r) => Graph::RuleNamed(
            GRuleNamed {
                graph_1: Box::new(clone_graph(&r.graph_1)),
                graph_2: Box::new(clone_graph(&r.graph_2)),
                name: clone_name(&r.name),
            },
        ),
        Graph::Subgraph(b) => Graph::Subgraph(
            GraphBinding {
                graph_1: Box::new(clone_graph(&b.graph_1)),
                graph_2: Box::new(clone_graph(&b.graph_2)),
                var: copy_string(&b.var),
            },
        ),
        Graph::Tensor(t) => Graph::Tensor(
            GTensor {
                graph_1: Box::new(clone_graph(&t.graph_1)),
                graph_2: Box::new(clone_graph(&t.graph_2)),
            },
        ),
        Graph::Context(c) => Graph::Context(
            GContext {
                graph: Box::new(clone_graph(&c.graph)),
                name: clone_name(&c.name),
                string: copy_string(&c.string),
            },
        ),
    }
}

impl Clone for Graph {
    fn clone(&self) -> (r: Self)
        ensures
            r@ == self@,
    {
        clone_graph(self)
    }
}

} // verus!
