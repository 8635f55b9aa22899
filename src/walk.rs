//! A second traversal that renders nested tags directly: every node gives
//! an opening and a closing tag, and the text is all opening tags in walking
//! order followed by all closing tags in reverse. An edge takes the tags of
//! its two nominations into its own, and the walk goes on with the two
//! continuations.
use vstd::prelude::*;

use crate::ast::{GEdgeAnon, GEdgeNamed, Graph, Name, Vertex};
use crate::xml::concat;

verus! {

pub type Tag = (Seq<char>, Seq<char>);

/// Opening and closing tags for each kind of node.
pub trait TagVisitor {
    spec fn nil_tags(&self) -> Tag;

    spec fn vertex_tags(&self, vertex: Vertex) -> Tag;

    spec fn var_tags(&self, var: Seq<char>) -> Tag;

    spec fn nominate_tags(&self, var: Seq<char>, vertex: Vertex) -> Tag;

    spec fn edge_anon_tags(&self, edge: GEdgeAnon, first: Tag, second: Tag) -> Tag;

    spec fn edge_named_tags(&self, edge: GEdgeNamed, first: Tag, second: Tag) -> Tag;

    spec fn rule_anon_tags(&self, lhs: Graph, rhs: Graph) -> Tag;

    spec fn rule_named_tags(&self, name: Name, lhs: Graph, rhs: Graph) -> Tag;

    spec fn subgraph_tags(&self, lhs: Graph, rhs: Graph, var: Seq<char>) -> Tag;

    spec fn tensor_tags(&self, lhs: Graph, rhs: Graph) -> Tag;

    spec fn context_tags(&self, name: Name, string: Seq<char>) -> Tag;

    fn visit_nil(&self) -> (r: (String, String))
        ensures
            (r.0@, r.1@) == self.nil_tags(),
    ;

    fn visit_vertex(&self, vertex: &Vertex) -> (r: (String, String))
        ensures
            (r.0@, r.1@) == self.vertex_tags(*vertex),
    ;

    fn visit_var(&self, var: &str) -> (r: (String, String))
        ensures
            (r.0@, r.1@) == self.var_tags(var@),
    ;

    fn visit_nominate(&self, var: &str, vertex: &Vertex) -> (r: (String, String))
        ensures
            (r.0@, r.1@) == self.nominate_tags(var@, *vertex),
    ;

    fn visit_edge_anon(&self, edge: &GEdgeAnon, first: (String, String), second: (String, String)) -> (r: (String, String))
        ensures
            (r.0@, r.1@) == self.edge_anon_tags(*edge, (first.0@, first.1@), (second.0@, second.1@)),
    ;

    fn visit_edge_named(&self, edge: &GEdgeNamed, first: (String, String), second: (String, String)) -> (r: (String, String))
        ensures
            (r.0@, r.1@) == self.edge_named_tags(*edge, (first.0@, first.1@), (second.0@, second.1@)),
    ;

    fn visit_rule_anon(&self, lhs: &Graph, rhs: &Graph) -> (r: (String, String))
        ensures
            (r.0@, r.1@) == self.rule_anon_tags(*lhs, *rhs),
    ;

    fn visit_rule_named(&self, name: &Name, lhs: &Graph, rhs: &Graph) -> (r: (String, String))
        ensures
            (r.0@, r.1@) == self.rule_named_tags(*name, *lhs, *rhs),
    ;

    fn visit_subgraph(&self, lhs: &Graph, rhs: &Graph, var: &str) -> (r: (String, String))
        ensures
            (r.0@, r.1@) == self.subgraph_tags(*lhs, *rhs, var@),
    ;

    fn visit_tensor(&self, lhs: &Graph, rhs: &Graph) -> (r: (String, String))
        ensures
            (r.0@, r.1@) == self.tensor_tags(*lhs, *rhs),
    ;

    fn visit_context(&self, name: &Name, string: &str) -> (r: (String, String))
        ensures
            (r.0@, r.1@) == self.context_tags(*name, string@),
    ;
}

/// The tags of one node.
pub open spec fn node_tags<V: TagVisitor>(v: V, g: Graph) -> Tag {
    match g {
        Graph::Nil => v.nil_tags(),
        Graph::Vertex(gv) => v.vertex_tags(gv.vertex),
        Graph::Var(gv) => v.var_tags(gv.var@),
        Graph::Nominate(b) => v.nominate_tags(b.var@, b.vertex),
        Graph::EdgeAnon(e) => v.edge_anon_tags(
            e,
            v.nominate_tags(e.binding_1.var@, e.binding_1.vertex),
            v.nominate_tags(e.binding_2.var@, e.binding_2.vertex),
        ),
        Graph::EdgeNamed(e) => v.edge_named_tags(
            e,
            v.nominate_tags(e.binding_1.var@, e.binding_1.vertex),
            v.nominate_tags(e.binding_2.var@, e.binding_2.vertex),
        ),
        Graph::RuleAnon(r) => v.rule_anon_tags(*r.graph_1, *r.graph_2),
        Graph::RuleNamed(r) => v.rule_named_tags(r.name, *r.graph_1, *r.graph_2),
        Graph::Subgraph(b) => v.subgraph_tags(*b.graph_1, *b.graph_2, b.var@),
        Graph::Tensor(t) => v.tensor_tags(*t.graph_1, *t.graph_2),
        Graph::Context(c) => v.context_tags(c.name, c.string@),
    }
}

/// The graphs this traversal goes on with after `g`, in order.
pub open spec fn next_graphs(g: Graph) -> Seq<Graph> {
    match g {
        Graph::Nil => Seq::empty(),
        Graph::Vertex(v) => seq![*v.graph],
        Graph::Var(v) => seq![*v.graph],
        Graph::Nominate(b) => seq![*b.graph],
        Graph::EdgeAnon(e) => seq![*e.binding_1.graph, *e.binding_2.graph],
        Graph::EdgeNamed(e) => seq![*e.binding_1.graph, *e.binding_2.graph],
        Graph::RuleAnon(r) => seq![*r.graph_1, *r.graph_2],
        Graph::RuleNamed(r) => seq![*r.graph_1, *r.graph_2],
        Graph::Subgraph(b) => seq![*b.graph_1, *b.graph_2],
        Graph::Tensor(t) => seq![*t.graph_1, *t.graph_2],
        Graph::Context(c) => seq![*c.graph],
    }
}

/// The graphs in walking order: a graph, then the walks of what follows it.
pub open spec fn walk_order(g: Graph) -> Seq<Graph>
    decreases g,
{
    seq![g] + match g {
        Graph::Nil => Seq::empty(),
        Graph::Vertex(v) => walk_order(*v.graph),
        Graph::Var(v) => walk_order(*v.graph),
        Graph::Nominate(b) => walk_order(*b.graph),
        Graph::EdgeAnon(e) => walk_order(*e.binding_1.graph) + walk_order(*e.binding_2.graph),
        Graph::EdgeNamed(e) => walk_order(*e.binding_1.graph) + walk_order(*e.binding_2.graph),
        Graph::RuleAnon(r) => walk_order(*r.graph_1) + walk_order(*r.graph_2),
        Graph::RuleNamed(r) => walk_order(*r.graph_1) + walk_order(*r.graph_2),
        Graph::Subgraph(b) => walk_order(*b.graph_1) + walk_order(*b.graph_2),
        Graph::Tensor(t) => walk_order(*t.graph_1) + walk_order(*t.graph_2),
        Graph::Context(c) => walk_order(*c.graph),
    }
}

pub open spec fn opens<V: TagVisitor>(v: V, gs: Seq<Graph>) -> Seq<Seq<char>> {
    gs.map_values(|g: Graph| node_tags(v, g).0)
}

pub open spec fn closes<V: TagVisitor>(v: V, gs: Seq<Graph>) -> Seq<Seq<char>> {
    gs.map_values(|g: Graph| node_tags(v, g).1)
}

/// What `visit` returns for `g`.
pub open spec fn tag_text<V: TagVisitor>(v: V, g: Graph) -> Seq<char> {
    concat(opens(v, walk_order(g))) + concat(closes(v, walk_order(g)).reverse())
}

pub open spec fn pending(stack: Seq<Graph>) -> Seq<Graph>
    decreases stack.len(),
{
    if stack.len() == 0 {
        Seq::empty()
    } else {
        walk_order(stack.last()) + pending(stack.drop_last())
    }
}

proof fn lemma_pending_push(s: Seq<Graph>, x: Graph)
    ensures
        pending(s.push(x)) == walk_order(x) + pending(s),
{
    assert(s.push(x).drop_last() =~= s);
}

proof fn lemma_pending_step(g: Graph, rest: Seq<Graph>, new_stack: Seq<Graph>)
    requires
        new_stack == rest + next_graphs(g).reverse(),
    ensures
        pending(rest.push(g)) == seq![g] + pending(new_stack),
{
    let cs = next_graphs(g);
    lemma_pending_push(rest, g);
    if cs.len() == 0 {
        assert(new_stack =~= rest);
        assert(walk_order(g) =~= seq![g]);
    } else if cs.len() == 1 {
        assert(new_stack =~= rest.push(cs[0]));
        lemma_pending_push(rest, cs[0]);
        assert(walk_order(g) =~= seq![g] + walk_order(cs[0]));
    } else {
        assert(new_stack =~= rest.push(cs[1]).push(cs[0]));
        lemma_pending_push(rest.push(cs[1]), cs[0]);
        lemma_pending_push(rest, cs[1]);
        assert(walk_order(g) =~= seq![g] + walk_order(cs[0]) + walk_order(cs[1]));
    }
}

/// Walks a graph with a tag visitor.
pub struct Walker<'graph, 'visitor, V: TagVisitor> {
    graph: &'graph Graph,
    visitor: &'visitor V,
}

impl<'graph, 'visitor, V: TagVisitor> Walker<'graph, 'visitor, V> {
    pub closed spec fn root(&self) -> Graph {
        *self.graph
    }

    pub closed spec fn tag_visitor(&self) -> V {
        *self.visitor
    }

    pub fn new(graph: &'graph Graph, visitor: &'visitor V) -> (w: Self)
        ensures
            w.root() == *graph,
            w.tag_visitor() == *visitor,
    {
        Walker { graph, visitor }
    }

    fn tags_of(&self, g: &Graph) -> (r: (String, String))
        ensures
            (r.0@, r.1@) == node_tags(self.tag_visitor(), *g),
    {
        let v = self.visitor;
        match g {
            Graph::Nil => v.visit_nil(),
            Graph::Vertex(gv) => v.visit_vertex(&gv.vertex),
            Graph::Var(gv) => v.visit_var(gv.var.as_str()),
            Graph::Nominate(b) => v.visit_nominate(b.var.as_str(), &b.vertex),
            Graph::EdgeAnon(e) => {
                let first = v.visit_nominate(e.binding_1.var.as_str(), &e.binding_1.vertex);
                let second = v.visit_nominate(e.binding_2.var.as_str(), &e.binding_2.vertex);
                v.visit_edge_anon(e, first, second)
            },
            Graph::EdgeNamed(e) => {
                let first = v.visit_nominate(e.binding_1.var.as_str(), &e.binding_1.vertex);
                let second = v.visit_nominate(e.binding_2.var.as_str(), &e.binding_2.vertex);
                v.visit_edge_named(e, first, second)
            },
            Graph::RuleAnon(r) => v.visit_rule_anon(&r.graph_1, &r.graph_2),
            Graph::RuleNamed(r) => v.visit_rule_named(&r.name, &r.graph_1, &r.graph_2),
            Graph::Subgraph(b) => v.visit_subgraph(&b.graph_1, &b.graph_2, b.var.as_str()),
            Graph::Tensor(t) => v.visit_tensor(&t.graph_1, &t.graph_2),
            Graph::Context(c) => v.visit_context(&c.name, c.string.as_str()),
        }
    }

    /// All opening tags in walking order, then all closing tags in reverse.
    pub fn visit(&mut self) -> (r: String)
        ensures
            r@ == tag_text(old(self).tag_visitor(), old(self).root()),
            final(self).root() == old(self).root(),
            final(self).tag_visitor() == old(self).tag_visitor(),
    {
        let mut stack: Vec<&Graph> = Vec::new();
        stack.push(self.graph);
        let mut left: Vec<String> = Vec::new();
        let mut right: Vec<String> = Vec::new();
        let ghost v = self.tag_visitor();
        let ghost all = walk_order(*self.graph);
        let ghost mut visited: Seq<Graph> = Seq::empty();
        proof {
            assert(stack@ =~= Seq::<&Graph>::empty().push(self.graph));
            lemma_pending_push(Seq::empty(), *self.graph);
            assert(stack@.map_values(|x: &Graph| *x) =~= seq![*self.graph]);
            assert(Seq::<Graph>::empty().push(*self.graph) =~= seq![*self.graph]);
            assert(walk_order(*self.graph) + Seq::<Graph>::empty() =~= all);
            assert(visited + all =~= all);
        }
        while stack.len() > 0
            invariant
                v == self.tag_visitor(),
                all == walk_order(self.root()),
                all == visited + pending(stack@.map_values(|x: &Graph| *x)),
                left@.map_values(|s: String| s@) == opens(v, visited),
                right@.map_values(|s: String| s@) == closes(v, visited),
            decreases all.len() - visited.len(),
        {
            let ghost old_nodes = stack@.map_values(|x: &Graph| *x);
            let g = stack.pop().unwrap();
            let ghost rest = stack@.map_values(|x: &Graph| *x);
            proof {
                assert(old_nodes =~= rest.push(*g));
            }
            let (open, close) = self.tags_of(g);
            let ghost start = stack@;
            match g {
                Graph::Nil => {},
                Graph::Vertex(gv) => stack.push(&gv.graph),
                Graph::Var(gv) => stack.push(&gv.graph),
                Graph::Nominate(b) => stack.push(&b.graph),
                Graph::EdgeAnon(e) => {
                    stack.push(&e.binding_2.graph);
                    stack.push(&e.binding_1.graph);
                },
                Graph::EdgeNamed(e) => {
                    stack.push(&e.binding_2.graph);
                    stack.push(&e.binding_1.graph);
                },
                Graph::RuleAnon(r) => {
                    stack.push(&r.graph_2);
                    stack.push(&r.graph_1);
                },
                Graph::RuleNamed(r) => {
                    stack.push(&r.graph_2);
                    stack.push(&r.graph_1);
                },
                Graph::Subgraph(b) => {
                    stack.push(&b.graph_2);
                    stack.push(&b.graph_1);
                },
                Graph::Tensor(t) => {
                    stack.push(&t.graph_2);
                    stack.push(&t.graph_1);
                },
                Graph::Context(c) => stack.push(&c.graph),
            }
            let ghost open_v = open@;
            let ghost close_v = close@;
            let ghost l0 = left@;
            let ghost r0 = right@;
            left.push(open);
            right.push(close);
            proof {
                let new_nodes = stack@.map_values(|x: &Graph| *x);
                let cs = next_graphs(*g);
                if cs.len() == 0 {
                    assert(new_nodes =~= rest + cs.reverse());
                } else if cs.len() == 1 {
                    assert(new_nodes =~= rest + cs.reverse());
                } else {
                    assert(new_nodes =~= rest + cs.reverse());
                }
                lemma_pending_step(*g, rest, new_nodes);
                let vn = visited.push(*g);
                assert(opens(v, vn) =~= opens(v, visited).push(open_v));
                assert(closes(v, vn) =~= closes(v, visited).push(close_v));
                assert(left@.map_values(|s: String| s@) =~= l0.map_values(|s: String| s@).push(open_v));
                assert(right@.map_values(|s: String| s@) =~= r0.map_values(|s: String| s@).push(close_v));
                visited = vn;
                assert(all =~= visited + pending(new_nodes));
            }
        }
        proof {
            assert(stack@.map_values(|x: &Graph| *x) =~= Seq::<Graph>::empty());
            assert(visited =~= all);
        }
        let tags = crate::xml::Tags { left, right };
        tags.render()
    }
}

} // verus!
