//! Checking a whole tree with the walker: each node checks its own
//! identifiers and strings, and the first failure is kept.
use vstd::prelude::*;

use crate::ast::{Binding, Error, GEdgeAnon, GEdgeNamed, Graph, Name, Vertex};
use crate::printer::{bad_identifier, check_name, is_check_error, is_lvar_string, is_uvar_string, nul_position};
use crate::syntax::{binding_wf, graph_wf, has_no_nul, is_lvar, is_uvar, name_wf};
use crate::visitor::Visitor;
use crate::walker::{is_run, preorder_binding, preorder_graph, visits, Node, Walker};

verus! {

/// What a node asks of its own fields; its children are nodes of their own.
pub open spec fn node_ok(n: Node) -> bool {
    match n {
        Node::Graph(g) => match g {
            Graph::Nil => true,
            Graph::Vertex(gv) => name_wf(gv.vertex@),
            Graph::Var(gv) => is_lvar(gv.var@),
            Graph::Nominate(b) => is_lvar(b.var@) && name_wf(b.vertex@),
            Graph::EdgeAnon(_) => true,
            Graph::EdgeNamed(e) => name_wf(e.name@),
            Graph::RuleAnon(_) => true,
            Graph::RuleNamed(r) => name_wf(r.name@),
            Graph::Subgraph(b) => is_uvar(b.var@),
            Graph::Tensor(_) => true,
            Graph::Context(c) => name_wf(c.name@) && has_no_nul(c.string@),
        },
        Node::Binding(b) => is_lvar(b.var@) && name_wf(b.vertex@),
    }
}

#[verifier::opaque]
pub open spec fn all_ok(ns: Seq<Node>) -> bool {
    forall|i: int| 0 <= i < ns.len() ==> #[trigger] node_ok(ns[i])
}

proof fn lemma_all_ok_concat(a: Seq<Node>, b: Seq<Node>)
    ensures
        all_ok(a + b) == (all_ok(a) && all_ok(b)),
{
    reveal(all_ok);
    if all_ok(a) && all_ok(b) {
        assert forall|i: int| 0 <= i < (a + b).len() implies #[trigger] node_ok((a + b)[i]) by {
            if i < a.len() {
                assert(node_ok(a[i]));
            } else {
                assert(node_ok(b[i - a.len()]));
            }
        }
    }
    if all_ok(a + b) {
        assert forall|i: int| 0 <= i < a.len() implies #[trigger] node_ok(a[i]) by {
            assert(node_ok((a + b)[i]));
        }
        assert forall|i: int| 0 <= i < b.len() implies #[trigger] node_ok(b[i]) by {
            assert(node_ok((a + b)[a.len() + i]));
        }
    }
}

proof fn lemma_all_ok_cons(n: Node, rest: Seq<Node>)
    ensures
        all_ok(seq![n] + rest) == (node_ok(n) && all_ok(rest)),
{
    reveal(all_ok);
    lemma_all_ok_concat(seq![n], rest);
    assert(all_ok(seq![n]) == node_ok(n)) by {
        if node_ok(n) {
            assert forall|i: int| 0 <= i < seq![n].len() implies #[trigger] node_ok(seq![n][i]) by {
            }
        }
        assert(seq![n][0] == n);
    }
}

/// A tree is well formed exactly when each of its nodes is.
#[verifier::rlimit(40)]
pub proof fn lemma_wf_nodes(g: Graph)
    ensures
        graph_wf(g@) == all_ok(preorder_graph(g)),
    decreases g,
{
    let kids = preorder_graph(g).drop_first();
    assert(preorder_graph(g) =~= seq![Node::Graph(g)] + kids);
    lemma_all_ok_cons(Node::Graph(g), kids);
    match g {
        Graph::Nil => {
            assert(kids =~= Seq::<Node>::empty());
            assert(all_ok(kids)) by {
                reveal(all_ok);
            }
        },
        Graph::Vertex(gv) => {
            lemma_wf_nodes(*gv.graph);
            assert(kids =~= preorder_graph(*gv.graph));
            lemma_one(g, name_wf(gv.vertex@), *gv.graph);
        },
        Graph::Var(gv) => {
            lemma_wf_nodes(*gv.graph);
            assert(kids =~= preorder_graph(*gv.graph));
            lemma_one(g, is_lvar(gv.var@), *gv.graph);
        },
        Graph::Nominate(b) => {
            lemma_wf_nodes(*b.graph);
            assert(kids =~= preorder_graph(*b.graph));
            assert(graph_wf(g@) == binding_wf(b@));
            lemma_one(g, is_lvar(b.var@) && name_wf(b.vertex@), *b.graph);
        },
        Graph::EdgeAnon(e) => {
            lemma_wf_binding_nodes(e.binding_1);
            lemma_wf_binding_nodes(e.binding_2);
            assert(kids =~= preorder_binding(e.binding_1) + preorder_binding(e.binding_2));
            lemma_all_ok_concat(preorder_binding(e.binding_1), preorder_binding(e.binding_2));
            let x = true;
            let y1 = binding_wf(e.binding_1@);
            let y2 = binding_wf(e.binding_2@);
            assert(graph_wf(g@) == (x && y1 && y2));
            assert(node_ok(Node::Graph(g)) == x);
        },
        Graph::EdgeNamed(e) => {
            lemma_wf_binding_nodes(e.binding_1);
            lemma_wf_binding_nodes(e.binding_2);
            assert(kids =~= preorder_binding(e.binding_1) + preorder_binding(e.binding_2));
            lemma_all_ok_concat(preorder_binding(e.binding_1), preorder_binding(e.binding_2));
            let x = name_wf(e.name@);
            let y1 = binding_wf(e.binding_1@);
            let y2 = binding_wf(e.binding_2@);
            assert(graph_wf(g@) == (x && y1 && y2));
            assert(node_ok(Node::Graph(g)) == x);
        },
        Graph::RuleAnon(r) => {
            lemma_wf_nodes(*r.graph_1);
            lemma_wf_nodes(*r.graph_2);
            assert(kids =~= preorder_graph(*r.graph_1) + preorder_graph(*r.graph_2));
            lemma_all_ok_concat(preorder_graph(*r.graph_1), preorder_graph(*r.graph_2));
            let x = true;
            let y1 = graph_wf((*r.graph_1)@);
            let y2 = graph_wf((*r.graph_2)@);
            assert(graph_wf(g@) == (x && y1 && y2));
            assert(node_ok(Node::Graph(g)) == x);
        },
        Graph::RuleNamed(r) => {
            lemma_wf_nodes(*r.graph_1);
            lemma_wf_nodes(*r.graph_2);
            assert(kids =~= preorder_graph(*r.graph_1) + preorder_graph(*r.graph_2));
            lemma_all_ok_concat(preorder_graph(*r.graph_1), preorder_graph(*r.graph_2));
            let x = name_wf(r.name@);
            let y1 = graph_wf((*r.graph_1)@);
            let y2 = graph_wf((*r.graph_2)@);
            assert(graph_wf(g@) == (x && y1 && y2));
            assert(node_ok(Node::Graph(g)) == x);
        },
        Graph::Subgraph(r) => {
            lemma_wf_nodes(*r.graph_1);
            lemma_wf_nodes(*r.graph_2);
            assert(kids =~= preorder_graph(*r.graph_1) + preorder_graph(*r.graph_2));
            lemma_all_ok_concat(preorder_graph(*r.graph_1), preorder_graph(*r.graph_2));
            let x = is_uvar(r.var@);
            let y1 = graph_wf((*r.graph_1)@);
            let y2 = graph_wf((*r.graph_2)@);
            assert(graph_wf(g@) == (x && y1 && y2));
            assert(node_ok(Node::Graph(g)) == x);
        },
        Graph::Tensor(r) => {
            lemma_wf_nodes(*r.graph_1);
            lemma_wf_nodes(*r.graph_2);
            assert(kids =~= preorder_graph(*r.graph_1) + preorder_graph(*r.graph_2));
            lemma_all_ok_concat(preorder_graph(*r.graph_1), preorder_graph(*r.graph_2));
            let x = true;
            let y1 = graph_wf((*r.graph_1)@);
            let y2 = graph_wf((*r.graph_2)@);
            assert(graph_wf(g@) == (x && y1 && y2));
            assert(node_ok(Node::Graph(g)) == x);
        },
        Graph::Context(c) => {
            lemma_wf_nodes(*c.graph);
            assert(kids =~= preorder_graph(*c.graph));
            lemma_one(g, name_wf(c.name@) && has_no_nul(c.string@), *c.graph);
        },
    }
}

/// The one-child case: the node's own condition and its child's.
proof fn lemma_one(g: Graph, x: bool, child: Graph)
    requires
        graph_wf(g@) == (x && graph_wf(child@)),
        node_ok(Node::Graph(g)) == x,
        preorder_graph(g) == seq![Node::Graph(g)] + preorder_graph(child),
        graph_wf(child@) == all_ok(preorder_graph(child)),
    ensures
        graph_wf(g@) == all_ok(preorder_graph(g)),
{
    lemma_all_ok_cons(Node::Graph(g), preorder_graph(child));
}

proof fn lemma_wf_binding_nodes(b: Binding)
    ensures
        binding_wf(b@) == all_ok(preorder_binding(b)),
    decreases b,
{
    lemma_all_ok_cons(Node::Binding(b), preorder_graph(*b.graph));
    lemma_wf_nodes(*b.graph);
}

/// `out` keeps an earlier failure, and otherwise reports whether `ok` holds.
pub open spec fn checked(acc: Option<Error>, ok: bool, out: Option<Error>) -> bool {
    if acc is Some {
        out == acc
    } else if ok {
        out is None
    } else {
        out matches Some(e) && is_check_error(e)
    }
}

pub struct CheckVisitor;

fn keep_or(acc: Option<Error>, r: Result<(), Error>) -> (out: Option<Error>)
    requires
        acc is None,
        r matches Err(e) ==> is_check_error(e),
    ensures
        out is None <==> r is Ok,
        out matches Some(e) ==> is_check_error(e),
{
    match r {
        Ok(()) => None,
        Err(e) => Some(e),
    }
}

impl Visitor<Option<Error>> for CheckVisitor {
    open spec fn on_nil(&self, acc: Option<Error>, out: Option<Error>) -> bool {
        checked(acc, true, out)
    }

    open spec fn on_vertex(&self, acc: Option<Error>, vertex: Vertex, out: Option<Error>) -> bool {
        checked(acc, name_wf(vertex@), out)
    }

    open spec fn on_var(&self, acc: Option<Error>, var: Seq<char>, out: Option<Error>) -> bool {
        checked(acc, is_lvar(var), out)
    }

    open spec fn on_nominate(&self, acc: Option<Error>, var: Seq<char>, vertex: Vertex, out: Option<Error>) -> bool {
        checked(acc, is_lvar(var) && name_wf(vertex@), out)
    }

    open spec fn on_edge_anon(&self, acc: Option<Error>, edge: GEdgeAnon, out: Option<Error>) -> bool {
        checked(acc, true, out)
    }

    open spec fn on_edge_named(&self, acc: Option<Error>, edge: GEdgeNamed, out: Option<Error>) -> bool {
        checked(acc, name_wf(edge.name@), out)
    }

    open spec fn on_rule_anon(&self, acc: Option<Error>, lhs: Graph, rhs: Graph, out: Option<Error>) -> bool {
        checked(acc, true, out)
    }

    open spec fn on_rule_named(&self, acc: Option<Error>, name: Name, lhs: Graph, rhs: Graph, out: Option<Error>) -> bool {
        checked(acc, name_wf(name@), out)
    }

    open spec fn on_subgraph(&self, acc: Option<Error>, lhs: Graph, rhs: Graph, var: Seq<char>, out: Option<Error>) -> bool {
        checked(acc, is_uvar(var), out)
    }

    open spec fn on_tensor(&self, acc: Option<Error>, lhs: Graph, rhs: Graph, out: Option<Error>) -> bool {
        checked(acc, true, out)
    }

    open spec fn on_context(&self, acc: Option<Error>, name: Name, string: Seq<char>, out: Option<Error>) -> bool {
        checked(acc, name_wf(name@) && has_no_nul(string), out)
    }

    fn visit_nil(&self, acc: Option<Error>) -> (r: Option<Error>) {
        acc
    }

    fn visit_vertex(&self, acc: Option<Error>, vertex: &Vertex) -> (r: Option<Error>) {
        if acc.is_some() {
            return acc;
        }
        keep_or(acc, check_name(&vertex.name))
    }

    fn visit_var(&self, acc: Option<Error>, var: &str) -> (r: Option<Error>) {
        if acc.is_some() {
            return acc;
        }
        let v = var.to_owned();
        if is_lvar_string(&v) {
            None
        } else {
            Some(bad_identifier(&v))
        }
    }

    fn visit_nominate(&self, acc: Option<Error>, var: &str, vertex: &Vertex) -> (r: Option<Error>) {
        if acc.is_some() {
            return acc;
        }
        let v = var.to_owned();
        if !is_lvar_string(&v) {
            return Some(bad_identifier(&v));
        }
        keep_or(acc, check_name(&vertex.name))
    }

    fn visit_edge_anon(&self, acc: Option<Error>, edge: &GEdgeAnon) -> (r: Option<Error>) {
        acc
    }

    fn visit_edge_named(&self, acc: Option<Error>, edge: &GEdgeNamed) -> (r: Option<Error>) {
        if acc.is_some() {
            return acc;
        }
        keep_or(acc, check_name(&edge.name))
    }

    fn visit_rule_anon(&self, acc: Option<Error>, lhs: &Graph, rhs: &Graph) -> (r: Option<Error>) {
        acc
    }

    fn visit_rule_named(&self, acc: Option<Error>, name: &Name, lhs: &Graph, rhs: &Graph) -> (r: Option<Error>) {
        if acc.is_some() {
            return acc;
        }
        keep_or(acc, check_name(name))
    }

    fn visit_subgraph(&self, acc: Option<Error>, lhs: &Graph, rhs: &Graph, var: &str) -> (r: Option<Error>) {
        if acc.is_some() {
            return acc;
        }
        let v = var.to_owned();
        if is_uvar_string(&v) {
            None
        } else {
            Some(bad_identifier(&v))
        }
    }

    fn visit_tensor(&self, acc: Option<Error>, lhs: &Graph, rhs: &Graph) -> (r: Option<Error>) {
        acc
    }

    fn visit_context(&self, acc: Option<Error>, name: &Name, string: &str) -> (r: Option<Error>) {
        if acc.is_some() {
            return acc;
        }
        match check_name(name) {
            Err(e) => Some(e),
            Ok(()) => {
                let s = string.to_owned();
                match nul_position(&s) {
                    Some(p) => Some(Error::InvalidCString { position: p }),
                    None => None,
                }
            },
        }
    }
}

proof fn lemma_check_visits(acc: Option<Error>, n: Node, out: Option<Error>)
    requires
        visits(CheckVisitor, acc, n, out),
    ensures
        checked(acc, node_ok(n), out),
{
}

proof fn lemma_check_run(ns: Seq<Node>, accs: Seq<Option<Error>>, k: int)
    requires
        is_run(CheckVisitor, ns, accs),
        accs[0] is None,
        0 <= k <= ns.len(),
    ensures
        (accs[k] is None) == (forall|i: int| 0 <= i < k ==> #[trigger] node_ok(ns[i])),
        accs[k] matches Some(e) ==> is_check_error(e),
    decreases k,
{
    if k > 0 {
        lemma_check_run(ns, accs, k - 1);
        let j = k - 1;
        assert(visits(CheckVisitor, accs[j], ns[j], accs[j + 1]));
        lemma_check_visits(accs[j], ns[j], accs[j + 1]);
        if accs[k] is None {
            assert forall|i: int| 0 <= i < k implies #[trigger] node_ok(ns[i]) by {
                if i < j {
                } else {
                    assert(i == j);
                }
            }
        }
    }
}

/// Checks that `g` is a tree the parser could have produced, visiting its
/// nodes with the walker.
pub fn check_tree(g: &Graph) -> (r: Result<(), Error>)
    ensures
        r is Ok <==> graph_wf(g@),
        r matches Err(e) ==> is_check_error(e),
{
    let found = Walker::new(g).visit(CheckVisitor, None);
    proof {
        let ns = preorder_graph(*g);
        let accs = choose|accs: Seq<Option<Error>>| #[trigger] is_run(CheckVisitor, ns, accs)
            && accs[0] == None::<Error> && accs.last() == found;
        lemma_check_run(ns, accs, ns.len() as int);
        lemma_wf_nodes(*g);
        reveal(all_ok);
    }
    match found {
        None => Ok(()),
        Some(e) => Err(e),
    }
}

} // verus!
