//! The walker: a non-recursive, pre-order, depth-first traversal that drives
//! any `Visitor` with an explicit stack.
use vstd::prelude::*;

use crate::ast::{
    Binding, GContext, GRuleAnon, GRuleNamed, GTensor, GVar, GVertex, Graph, GraphBinding,
};
use crate::visitor::Visitor;

verus! {

/// A node as the walker meets it: a graph, or one end of an edge.
pub enum Node {
    Graph(Graph),
    Binding(Binding),
}

/// The nodes of a graph in the order the walker visits them: a node, then
/// the nodes of its children from left to right.
pub open spec fn preorder_graph(g: Graph) -> Seq<Node>
    decreases g,
{
    seq![Node::Graph(g)] + match g {
        Graph::Nil => Seq::empty(),
        Graph::Vertex(v) => preorder_graph(*v.graph),
        Graph::Var(v) => preorder_graph(*v.graph),
        Graph::Nominate(b) => preorder_graph(*b.graph),
        Graph::EdgeAnon(e) => preorder_binding(e.binding_1) + preorder_binding(e.binding_2),
        Graph::EdgeNamed(e) => preorder_binding(e.binding_1) + preorder_binding(e.binding_2),
        Graph::RuleAnon(r) => preorder_graph(*r.graph_1) + preorder_graph(*r.graph_2),
        Graph::RuleNamed(r) => preorder_graph(*r.graph_1) + preorder_graph(*r.graph_2),
        Graph::Subgraph(b) => preorder_graph(*b.graph_1) + preorder_graph(*b.graph_2),
        Graph::Tensor(t) => preorder_graph(*t.graph_1) + preorder_graph(*t.graph_2),
        Graph::Context(c) => preorder_graph(*c.graph),
    }
}

pub open spec fn preorder_binding(b: Binding) -> Seq<Node>
    decreases b,
{
    seq![Node::Binding(b)] + preorder_graph(*b.graph)
}

/// `out` is a result the visitor may return when it meets node `n` with `acc`.
pub open spec fn visits<A, V: Visitor<A>>(v: V, acc: A, n: Node, out: A) -> bool {
    match n {
        Node::Graph(g) => match g {
            Graph::Nil => v.on_nil(acc, out),
            Graph::Vertex(gv) => v.on_vertex(acc, gv.vertex, out),
            Graph::Var(gv) => v.on_var(acc, gv.var@, out),
            Graph::Nominate(b) => v.on_nominate(acc, b.var@, b.vertex, out),
            Graph::EdgeAnon(e) => v.on_edge_anon(acc, e, out),
            Graph::EdgeNamed(e) => v.on_edge_named(acc, e, out),
            Graph::RuleAnon(r) => v.on_rule_anon(acc, *r.graph_1, *r.graph_2, out),
            Graph::RuleNamed(r) => v.on_rule_named(acc, r.name, *r.graph_1, *r.graph_2, out),
            Graph::Subgraph(b) => v.on_subgraph(acc, *b.graph_1, *b.graph_2, b.var@, out),
            Graph::Tensor(t) => v.on_tensor(acc, *t.graph_1, *t.graph_2, out),
            Graph::Context(c) => v.on_context(acc, c.name, c.string@, out),
        },
        Node::Binding(b) => v.on_nominate(acc, b.var@, b.vertex, out),
    }
}

/// `accs` lists the accumulator before each node of `ns` and after the last:
/// each one is a result of meeting the node before it with its predecessor.
pub open spec fn is_run<A, V: Visitor<A>>(v: V, ns: Seq<Node>, accs: Seq<A>) -> bool {
    &&& accs.len() == ns.len() + 1
    &&& forall|i: int| 0 <= i < ns.len() ==> #[trigger] visits(v, accs[i], ns[i], accs[i + 1])
}

/// `out` is a result of meeting the nodes `ns` in order, starting from `init`.
pub open spec fn folds_to<A, V: Visitor<A>>(v: V, ns: Seq<Node>, init: A, out: A) -> bool {
    exists|accs: Seq<A>| #[trigger] is_run(v, ns, accs) && accs[0] == init && accs.last() == out
}

/// A work item of the walker.
#[derive(Clone, Copy)]
pub enum WalkingStep<'a> {
    Graph(&'a Graph),
    Binding(&'a Binding),
}

pub open spec fn step_node(s: WalkingStep) -> Node {
    match s {
        WalkingStep::Graph(g) => Node::Graph(*g),
        WalkingStep::Binding(b) => Node::Binding(*b),
    }
}

/// The nodes still to visit for a stack whose top is its last element.
pub open spec fn pending(stack: Seq<Node>) -> Seq<Node>
    decreases stack.len(),
{
    if stack.len() == 0 {
        Seq::empty()
    } else {
        preorder_of(stack.last()) + pending(stack.drop_last())
    }
}

pub open spec fn preorder_of(n: Node) -> Seq<Node> {
    match n {
        Node::Graph(g) => preorder_graph(g),
        Node::Binding(b) => preorder_binding(b),
    }
}

pub open spec fn nodes(s: Seq<WalkingStep>) -> Seq<Node> {
    s.map_values(|x: WalkingStep| step_node(x))
}

proof fn lemma_nodes_push<'a>(s: Seq<WalkingStep<'a>>, x: WalkingStep<'a>)
    ensures
        nodes(s.push(x)) == nodes(s).push(step_node(x)),
{
    assert(nodes(s.push(x)) =~= nodes(s).push(step_node(x)));
}

/// Pushes the children of `el`, the first child last, so it is popped first.
fn push_children<'a>(stack: &mut Vec<WalkingStep<'a>>, el: WalkingStep<'a>)
    ensures
        nodes(final(stack)@) == nodes(old(stack)@) + children(step_node(el)).reverse(),
{
    let ghost start = stack@;
    match el {
        WalkingStep::Graph(Graph::Nil) => {},
        WalkingStep::Graph(Graph::Vertex(v)) => stack.push(WalkingStep::Graph(&v.graph)),
        WalkingStep::Graph(Graph::Var(v)) => stack.push(WalkingStep::Graph(&v.graph)),
        WalkingStep::Graph(Graph::Nominate(b)) => stack.push(WalkingStep::Graph(&b.graph)),
        WalkingStep::Graph(Graph::EdgeAnon(e)) => {
            stack.push(WalkingStep::Binding(&e.binding_2));
            stack.push(WalkingStep::Binding(&e.binding_1));
        },
        WalkingStep::Graph(Graph::EdgeNamed(e)) => {
            stack.push(WalkingStep::Binding(&e.binding_2));
            stack.push(WalkingStep::Binding(&e.binding_1));
        },
        WalkingStep::Graph(Graph::RuleAnon(r)) => {
            stack.push(WalkingStep::Graph(&r.graph_2));
            stack.push(WalkingStep::Graph(&r.graph_1));
        },
        WalkingStep::Graph(Graph::RuleNamed(r)) => {
            stack.push(WalkingStep::Graph(&r.graph_2));
            stack.push(WalkingStep::Graph(&r.graph_1));
        },
        WalkingStep::Graph(Graph::Subgraph(b)) => {
            stack.push(WalkingStep::Graph(&b.graph_2));
            stack.push(WalkingStep::Graph(&b.graph_1));
        },
        WalkingStep::Graph(Graph::Tensor(t)) => {
            stack.push(WalkingStep::Graph(&t.graph_2));
            stack.push(WalkingStep::Graph(&t.graph_1));
        },
        WalkingStep::Graph(Graph::Context(c)) => stack.push(WalkingStep::Graph(&c.graph)),
        WalkingStep::Binding(b) => stack.push(WalkingStep::Graph(&b.graph)),
    }
    proof {
        let cs = children(step_node(el));
        if cs.len() == 0 {
            assert(stack@ == start);
            assert(cs.reverse() =~= Seq::<Node>::empty());
            assert(nodes(start) + cs.reverse() =~= nodes(start));
        } else if cs.len() == 1 {
            assert(stack@ =~= start.push(stack@.last()));
            lemma_nodes_push(start, stack@.last());
            assert(cs.reverse() =~= seq![cs[0]]);
            assert(nodes(stack@) =~= nodes(start) + cs.reverse());
        } else {
            let mid = start.push(stack@[start.len() as int]);
            assert(stack@ =~= mid.push(stack@.last()));
            lemma_nodes_push(start, stack@[start.len() as int]);
            lemma_nodes_push(mid, stack@.last());
            assert(cs.reverse() =~= seq![cs[1], cs[0]]);
            assert(nodes(stack@) =~= nodes(start) + cs.reverse());
        }
    }
}

/// Calls the visitor operation that matches the node of `el`.
fn visit_step<A, V: Visitor<A>>(visitor: &V, acc: A, el: WalkingStep) -> (r: A)
    ensures
        visits(*visitor, acc, step_node(el), r),
{
    match el {
        WalkingStep::Graph(Graph::Nil) => visitor.visit_nil(acc),
        WalkingStep::Graph(Graph::Vertex(GVertex { graph, vertex })) => visitor.visit_vertex(
            acc,
            vertex,
        ),
        WalkingStep::Graph(Graph::Var(GVar { graph, var })) => visitor.visit_var(acc, var.as_str()),
        WalkingStep::Graph(Graph::Nominate(Binding { graph, var, vertex })) => visitor.visit_nominate(
            acc,
            var.as_str(),
            vertex,
        ),
        WalkingStep::Graph(Graph::EdgeAnon(edge)) => visitor.visit_edge_anon(acc, edge),
        WalkingStep::Graph(Graph::EdgeNamed(edge)) => visitor.visit_edge_named(acc, edge),
        WalkingStep::Graph(Graph::RuleAnon(GRuleAnon { graph_1, graph_2 })) => visitor.visit_rule_anon(
            acc,
            graph_1,
            graph_2,
        ),
        WalkingStep::Graph(Graph::RuleNamed(GRuleNamed { graph_1, graph_2, name })) => {
            visitor.visit_rule_named(acc, name, graph_1, graph_2)
        },
        WalkingStep::Graph(Graph::Subgraph(GraphBinding { graph_1, graph_2, var })) => {
            visitor.visit_subgraph(acc, graph_1, graph_2, var.as_str())
        },
        WalkingStep::Graph(Graph::Tensor(GTensor { graph_1, graph_2 })) => visitor.visit_tensor(
            acc,
            graph_1,
            graph_2,
        ),
        WalkingStep::Graph(Graph::Context(GContext { graph, name, string })) => {
            visitor.visit_context(acc, name, string.as_str())
        },
        WalkingStep::Binding(Binding { graph, var, vertex }) => visitor.visit_nominate(
            acc,
            var.as_str(),
            vertex,
        ),
    }
}

/// Walks a graph with a visitor.
pub struct Walker<'graph> {
    graph: &'graph Graph,
}

impl<'graph> Walker<'graph> {
    pub closed spec fn root(&self) -> Graph {
        *self.graph
    }

    pub fn new(graph: &'graph Graph) -> (w: Self)
        ensures
            w.root() == *graph,
    {
        Walker { graph }
    }

    /// Meets every node of the graph once, in pre-order: a node is visited
    /// before its children, and a first child with all its nodes before a
    /// second. The accumulator is threaded through the visitor's calls.
    pub fn visit<A, V: Visitor<A>>(&self, visitor: V, initial_accumulator: A) -> (r: A)
        ensures
            folds_to(visitor, preorder_graph(self.root()), initial_accumulator, r),
    {
        let mut stack: Vec<WalkingStep> = Vec::new();
        stack.push(WalkingStep::Graph(self.graph));
        let mut accumulator = initial_accumulator;
        let ghost all = preorder_graph(*self.graph);
        let ghost mut visited: Seq<Node> = Seq::empty();
        let ghost mut accs: Seq<A> = seq![initial_accumulator];
        proof {
            lemma_nodes_push(Seq::empty(), WalkingStep::Graph(self.graph));
            assert(Seq::<WalkingStep>::empty().push(WalkingStep::Graph(self.graph)) =~= stack@);
            lemma_pending_push(Seq::empty(), Node::Graph(*self.graph));
            assert(Seq::<Node>::empty().push(Node::Graph(*self.graph)) =~= nodes(stack@));
            assert(nodes(Seq::<WalkingStep>::empty()) =~= Seq::<Node>::empty());
            assert(preorder_graph(*self.graph) + Seq::<Node>::empty() =~= all);
            assert(visited + all =~= all);
        }
        while stack.len() > 0
            invariant
                all == preorder_graph(*self.graph),
                all == visited + pending(nodes(stack@)),
                is_run(visitor, visited, accs),
                accs[0] == initial_accumulator,
                accs.last() == accumulator,
            decreases all.len() - visited.len(),
        {
            let ghost old_nodes = nodes(stack@);
            let ghost old_acc = accumulator;
            let el = stack.pop().unwrap();
            let ghost n = step_node(el);
            let ghost rest = nodes(stack@);
            proof {
                lemma_nodes_push(stack@, el);
                assert(old_nodes == rest.push(n));
            }
            push_children(&mut stack, el);
            accumulator = visit_step(&visitor, accumulator, el);
            proof {
                let new_nodes = nodes(stack@);
                lemma_pending_step(n, rest, new_nodes);
                let vn = visited.push(n);
                assert(vn.drop_last() =~= visited);
                assert(vn.last() == n);
                let accs2 = accs.push(accumulator);
                assert(is_run(visitor, vn, accs2)) by {
                    assert forall|i: int| 0 <= i < vn.len() implies #[trigger] visits(
                        visitor,
                        accs2[i],
                        vn[i],
                        accs2[i + 1],
                    ) by {
                        if i < visited.len() {
                            assert(visits(visitor, accs[i], visited[i], accs[i + 1]));
                        }
                    }
                }
                visited = vn;
                accs = accs2;
                assert(all =~= visited + pending(new_nodes));
            }
        }
        proof {
            assert(nodes(stack@) =~= Seq::<Node>::empty());
            assert(visited =~= all);
            assert(is_run(visitor, all, accs));
        }
        accumulator
    }
}

proof fn lemma_pending_push(s: Seq<Node>, x: Node)
    ensures
        pending(s.push(x)) == preorder_of(x) + pending(s),
{
    assert(s.push(x).drop_last() =~= s);
}

/// Replacing the top node `n` by its children keeps the pending nodes, less `n`.
proof fn lemma_pending_step(n: Node, rest: Seq<Node>, new_stack: Seq<Node>)
    requires
        new_stack == rest + children(n).reverse(),
    ensures
        pending(rest.push(n)) == seq![n] + pending(new_stack),
{
    let cs = children(n);
    lemma_pending_push(rest, n);
    assert(preorder_of(n) =~= seq![n] + children_preorder(n));
    if cs.len() == 0 {
        assert(new_stack =~= rest);
        assert(children_preorder(n) =~= Seq::<Node>::empty());
    } else if cs.len() == 1 {
        assert(new_stack =~= rest.push(cs[0]));
        lemma_pending_push(rest, cs[0]);
        assert(children_preorder(n) =~= preorder_of(cs[0]));
    } else {
        assert(new_stack =~= rest.push(cs[1]).push(cs[0]));
        lemma_pending_push(rest.push(cs[1]), cs[0]);
        lemma_pending_push(rest, cs[1]);
        assert(children_preorder(n) =~= preorder_of(cs[0]) + preorder_of(cs[1]));
    }
}

/// The nodes below `n`, in visiting order.
pub open spec fn children_preorder(n: Node) -> Seq<Node> {
    let cs = children(n);
    if cs.len() == 0 {
        Seq::empty()
    } else if cs.len() == 1 {
        preorder_of(cs[0])
    } else {
        preorder_of(cs[0]) + preorder_of(cs[1])
    }
}

pub open spec fn children(n: Node) -> Seq<Node> {
    match n {
        Node::Graph(g) => match g {
            Graph::Nil => Seq::empty(),
            Graph::Vertex(v) => seq![Node::Graph(*v.graph)],
            Graph::Var(v) => seq![Node::Graph(*v.graph)],
            Graph::Nominate(b) => seq![Node::Graph(*b.graph)],
            Graph::EdgeAnon(e) => seq![Node::Binding(e.binding_1), Node::Binding(e.binding_2)],
            Graph::EdgeNamed(e) => seq![Node::Binding(e.binding_1), Node::Binding(e.binding_2)],
            Graph::RuleAnon(r) => seq![Node::Graph(*r.graph_1), Node::Graph(*r.graph_2)],
            Graph::RuleNamed(r) => seq![Node::Graph(*r.graph_1), Node::Graph(*r.graph_2)],
            Graph::Subgraph(b) => seq![Node::Graph(*b.graph_1), Node::Graph(*b.graph_2)],
            Graph::Tensor(t) => seq![Node::Graph(*t.graph_1), Node::Graph(*t.graph_2)],
            Graph::Context(c) => seq![Node::Graph(*c.graph)],
        },
        Node::Binding(b) => seq![Node::Graph(*b.graph)],
    }
}

/// `g` is `n` nested bindings, each the continuation of the one before,
/// ending in `Nil`.
pub open spec fn is_chain(g: Graph, n: nat) -> bool
    decreases n,
{
    if n == 0 {
        g is Nil
    } else {
        g is Nominate && is_chain(*g->Nominate_0.graph, (n - 1) as nat)
    }
}

/// Walking a chain of `n` nested bindings meets exactly `n + 1` nodes: the
/// bindings and the final `Nil`.
pub proof fn law_chain_node_count(g: Graph, n: nat)
    requires
        is_chain(g, n),
    ensures
        preorder_graph(g).len() == n + 1,
    decreases n,
{
    if n > 0 {
        law_chain_node_count(*g->Nominate_0.graph, (n - 1) as nat);
    }
}

} // verus!
