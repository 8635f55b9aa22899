//! The visitor interface: one operation per kind of node, each taking the
//! accumulator by value and returning the next one.
use vstd::prelude::*;

use crate::ast::{GEdgeAnon, GEdgeNamed, Graph, Name, Vertex};

verus! {

/// A consumer of a walk. Each `on_*` spec function says which results the
/// matching `visit_*` method may return for a given accumulator; by default
/// it allows any, so a visitor whose results matter to a proof states them.
pub trait Visitor<A> {
    open spec fn on_nil(&self, acc: A, out: A) -> bool {
        true
    }

    open spec fn on_vertex(&self, acc: A, vertex: Vertex, out: A) -> bool {
        true
    }

    open spec fn on_var(&self, acc: A, var: Seq<char>, out: A) -> bool {
        true
    }

    open spec fn on_nominate(&self, acc: A, var: Seq<char>, vertex: Vertex, out: A) -> bool {
        true
    }

    open spec fn on_edge_anon(&self, acc: A, edge: GEdgeAnon, out: A) -> bool {
        true
    }

    open spec fn on_edge_named(&self, acc: A, edge: GEdgeNamed, out: A) -> bool {
        true
    }

    open spec fn on_rule_anon(&self, acc: A, lhs: Graph, rhs: Graph, out: A) -> bool {
        true
    }

    open spec fn on_rule_named(&self, acc: A, name: Name, lhs: Graph, rhs: Graph, out: A) -> bool {
        true
    }

    open spec fn on_subgraph(&self, acc: A, lhs: Graph, rhs: Graph, var: Seq<char>, out: A) -> bool {
        true
    }

    open spec fn on_tensor(&self, acc: A, lhs: Graph, rhs: Graph, out: A) -> bool {
        true
    }

    open spec fn on_context(&self, acc: A, name: Name, string: Seq<char>, out: A) -> bool {
        true
    }

    fn visit_nil(&self, acc: A) -> (r: A)
        ensures
            self.on_nil(acc, r),
    ;

    fn visit_vertex(&self, acc: A, vertex: &Vertex) -> (r: A)
        ensures
            self.on_vertex(acc, *vertex, r),
    ;

    fn visit_var(&self, acc: A, var: &str) -> (r: A)
        ensures
            self.on_var(acc, var@, r),
    ;

    fn visit_nominate(&self, acc: A, var: &str, vertex: &Vertex) -> (r: A)
        ensures
            self.on_nominate(acc, var@, *vertex, r),
    ;

    fn visit_edge_anon(&self, acc: A, edge: &GEdgeAnon) -> (r: A)
        ensures
            self.on_edge_anon(acc, *edge, r),
    ;

    fn visit_edge_named(&self, acc: A, edge: &GEdgeNamed) -> (r: A)
        ensures
            self.on_edge_named(acc, *edge, r),
    ;

    fn visit_rule_anon(&self, acc: A, lhs: &Graph, rhs: &Graph) -> (r: A)
        ensures
            self.on_rule_anon(acc, *lhs, *rhs, r),
    ;

    fn visit_rule_named(&self, acc: A, name: &Name, lhs: &Graph, rhs: &Graph) -> (r: A)
        ensures
            self.on_rule_named(acc, *name, *lhs, *rhs, r),
    ;

    fn visit_subgraph(&self, acc: A, lhs: &Graph, rhs: &Graph, var: &str) -> (r: A)
        ensures
            self.on_subgraph(acc, *lhs, *rhs, var@, r),
    ;

    fn visit_tensor(&self, acc: A, lhs: &Graph, rhs: &Graph) -> (r: A)
        ensures
            self.on_tensor(acc, *lhs, *rhs, r),
    ;

    fn visit_context(&self, acc: A, name: &Name, string: &str) -> (r: A)
        ensures
            self.on_context(acc, *name, string@, r),
    ;
}

} // verus!
