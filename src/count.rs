//! Counting the nodes of a tree with the walker.
use vstd::prelude::*;

use crate::ast::{GEdgeAnon, GEdgeNamed, Graph, Name, Vertex};
use crate::visitor::Visitor;
use crate::walker::{is_run, preorder_graph, visits, Node, Walker};

verus! {

pub open spec fn bump(a: usize) -> usize {
    if a < usize::MAX {
        (a + 1) as usize
    } else {
        a
    }
}

fn bump_exec(a: usize) -> (r: usize)
    ensures
        r == bump(a),
{
    if a < usize::MAX {
        a + 1
    } else {
        a
    }
}

/// A visitor that counts the nodes it meets, saturating at `usize::MAX`.
pub struct NodeCounter;

impl Visitor<usize> for NodeCounter {
    open spec fn on_nil(&self, acc: usize, out: usize) -> bool {
        out == bump(acc)
    }

    open spec fn on_vertex(&self, acc: usize, vertex: Vertex, out: usize) -> bool {
        out == bump(acc)
    }

    open spec fn on_var(&self, acc: usize, var: Seq<char>, out: usize) -> bool {
        out == bump(acc)
    }

    open spec fn on_nominate(&self, acc: usize, var: Seq<char>, vertex: Vertex, out: usize) -> bool {
        out == bump(acc)
    }

    open spec fn on_edge_anon(&self, acc: usize, edge: GEdgeAnon, out: usize) -> bool {
        out == bump(acc)
    }

    open spec fn on_edge_named(&self, acc: usize, edge: GEdgeNamed, out: usize) -> bool {
        out == bump(acc)
    }

    open spec fn on_rule_anon(&self, acc: usize, lhs: Graph, rhs: Graph, out: usize) -> bool {
        out == bump(acc)
    }

    open spec fn on_rule_named(&self, acc: usize, name: Name, lhs: Graph, rhs: Graph, out: usize) -> bool {
        out == bump(acc)
    }

    open spec fn on_subgraph(&self, acc: usize, lhs: Graph, rhs: Graph, var: Seq<char>, out: usize) -> bool {
        out == bump(acc)
    }

    open spec fn on_tensor(&self, acc: usize, lhs: Graph, rhs: Graph, out: usize) -> bool {
        out == bump(acc)
    }

    open spec fn on_context(&self, acc: usize, name: Name, string: Seq<char>, out: usize) -> bool {
        out == bump(acc)
    }

    fn visit_nil(&self, acc: usize) -> (r: usize) {
        bump_exec(acc)
    }

    fn visit_vertex(&self, acc: usize, vertex: &Vertex) -> (r: usize) {
        bump_exec(acc)
    }

    fn visit_var(&self, acc: usize, var: &str) -> (r: usize) {
        bump_exec(acc)
    }

    fn visit_nominate(&self, acc: usize, var: &str, vertex: &Vertex) -> (r: usize) {
        bump_exec(acc)
    }

    fn visit_edge_anon(&self, acc: usize, edge: &GEdgeAnon) -> (r: usize) {
        bump_exec(acc)
    }

    fn visit_edge_named(&self, acc: usize, edge: &GEdgeNamed) -> (r: usize) {
        bump_exec(acc)
    }

    fn visit_rule_anon(&self, acc: usize, lhs: &Graph, rhs: &Graph) -> (r: usize) {
        bump_exec(acc)
    }

    fn visit_rule_named(&self, acc: usize, name: &Name, lhs: &Graph, rhs: &Graph) -> (r: usize) {
        bump_exec(acc)
    }

    fn visit_subgraph(&self, acc: usize, lhs: &Graph, rhs: &Graph, var: &str) -> (r: usize) {
        bump_exec(acc)
    }

    fn visit_tensor(&self, acc: usize, lhs: &Graph, rhs: &Graph) -> (r: usize) {
        bump_exec(acc)
    }

    fn visit_context(&self, acc: usize, name: &Name, string: &str) -> (r: usize) {
        bump_exec(acc)
    }
}

pub open spec fn capped(n: nat) -> usize {
    if n < usize::MAX {
        n as usize
    } else {
        usize::MAX
    }
}

proof fn lemma_counter_run(ns: Seq<Node>, accs: Seq<usize>, k: int)
    requires
        is_run(NodeCounter, ns, accs),
        accs[0] == 0,
        0 <= k <= ns.len(),
    ensures
        accs[k] == capped(k as nat),
    decreases k,
{
    if k > 0 {
        lemma_counter_run(ns, accs, k - 1);
        let j = k - 1;
        assert(visits(NodeCounter, accs[j], ns[j], accs[j + 1]));
    }
}

/// The number of nodes the walker meets in `g`, or `usize::MAX` if there are
/// more.
pub fn count_nodes(g: &Graph) -> (n: usize)
    ensures
        n == capped(preorder_graph(*g).len()),
{
    let n = Walker::new(g).visit(NodeCounter, 0);
    proof {
        let ns = preorder_graph(*g);
        let accs = choose|accs: Seq<usize>| #[trigger] is_run(NodeCounter, ns, accs) && accs[0] == 0
            && accs.last() == n;
        lemma_counter_run(ns, accs, ns.len() as int);
    }
    n
}

} // verus!
