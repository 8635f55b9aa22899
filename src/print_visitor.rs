//! The printer as a visitor driven by the walker.
//!
//! Each node writes its opening text when it is visited. A node with two
//! children also leaves a frame: the text that goes between its children and
//! the text that closes it. Only `Nil` ends a branch, so visiting `Nil`
//! settles the frames: the innermost frame whose first child is done gets
//! its separator, and every frame whose second child is done gets its
//! closing text.
use vstd::prelude::*;

use crate::ast::{Binding, GEdgeAnon, GEdgeNamed, Graph, Name, Vertex};
use crate::printer::{lemma_print_literals, write_escaped, write_name};
use crate::syntax::{binding_text, escape, graph_text, name_text};
use crate::visitor::Visitor;
use crate::walker::{is_run, preorder_binding, preorder_graph, visits, Node, Walker};

verus! {

/// The kinds of two-child nodes, by what stands between and after the children.
pub open spec fn sep_of(kind: u8) -> Seq<char> {
    if kind == 0 {
        ", "@
    } else if kind == 1 {
        " => "@
    } else {
        " in "@
    }
}

pub open spec fn close_of(kind: u8) -> Seq<char> {
    if kind == 2 {
        ""@
    } else {
        ")"@
    }
}

/// The accumulator: the text so far, and the frames of the two-child nodes
/// still open, innermost last, each with its kind and whether its first child
/// is still being written.
pub struct TextAcc {
    pub text: String,
    pub frames: Vec<(u8, bool)>,
}

pub type AccM = (Seq<char>, Seq<(u8, bool)>);

pub open spec fn acc_model(a: TextAcc) -> AccM {
    (a.text@, a.frames@)
}

/// What follows the end of a branch.
pub open spec fn settle(t: Seq<char>, fs: Seq<(u8, bool)>) -> AccM
    decreases fs.len(),
{
    if fs.len() == 0 {
        (t, fs)
    } else if fs.last().1 {
        (t + sep_of(fs.last().0), fs.drop_last().push((fs.last().0, false)))
    } else {
        settle(t + close_of(fs.last().0), fs.drop_last())
    }
}

pub open spec fn opened(a: TextAcc, out: TextAcc, open: Seq<char>) -> bool {
    acc_model(out) == (a.text@ + open, a.frames@)
}

pub open spec fn opened_pair(a: TextAcc, out: TextAcc, open: Seq<char>, kind: u8) -> bool {
    acc_model(out) == (a.text@ + open, a.frames@.push((kind, true)))
}

pub struct PrintVisitor;

fn push_frame(mut a: TextAcc, open: String, kind: u8) -> (r: TextAcc)
    ensures
        acc_model(r) == (a.text@ + open@, a.frames@.push((kind, true))),
{
    a.text.append(open.as_str());
    a.frames.push((kind, true));
    a
}

fn append_text(mut a: TextAcc, open: String) -> (r: TextAcc)
    ensures
        acc_model(r) == (a.text@ + open@, a.frames@),
{
    a.text.append(open.as_str());
    a
}

impl Visitor<TextAcc> for PrintVisitor {
    open spec fn on_nil(&self, acc: TextAcc, out: TextAcc) -> bool {
        acc_model(out) == settle(acc.text@ + "0"@, acc.frames@)
    }

    open spec fn on_vertex(&self, acc: TextAcc, vertex: Vertex, out: TextAcc) -> bool {
        opened(acc, out, "<"@ + name_text(vertex@) + ">"@ + " | "@)
    }

    open spec fn on_var(&self, acc: TextAcc, var: Seq<char>, out: TextAcc) -> bool {
        opened(acc, out, var + " | "@)
    }

    open spec fn on_nominate(&self, acc: TextAcc, var: Seq<char>, vertex: Vertex, out: TextAcc) -> bool {
        opened(acc, out, "let "@ + var + " = "@ + "<"@ + name_text(vertex@) + ">"@ + " in "@)
    }

    open spec fn on_edge_anon(&self, acc: TextAcc, edge: GEdgeAnon, out: TextAcc) -> bool {
        opened_pair(acc, out, "("@, 0)
    }

    open spec fn on_edge_named(&self, acc: TextAcc, edge: GEdgeNamed, out: TextAcc) -> bool {
        opened_pair(acc, out, "edge "@ + name_text(edge.name@) + " ("@, 0)
    }

    open spec fn on_rule_anon(&self, acc: TextAcc, lhs: Graph, rhs: Graph, out: TextAcc) -> bool {
        opened_pair(acc, out, "rule ("@, 1)
    }

    open spec fn on_rule_named(&self, acc: TextAcc, name: Name, lhs: Graph, rhs: Graph, out: TextAcc) -> bool {
        opened_pair(acc, out, "rule "@ + name_text(name@) + " ("@, 1)
    }

    open spec fn on_subgraph(&self, acc: TextAcc, lhs: Graph, rhs: Graph, var: Seq<char>, out: TextAcc) -> bool {
        opened_pair(acc, out, "let "@ + var + " = "@, 2)
    }

    open spec fn on_tensor(&self, acc: TextAcc, lhs: Graph, rhs: Graph, out: TextAcc) -> bool {
        opened_pair(acc, out, "tensor ("@, 0)
    }

    open spec fn on_context(&self, acc: TextAcc, name: Name, string: Seq<char>, out: TextAcc) -> bool {
        opened(
            acc,
            out,
            "context \""@ + escape(string) + "\" for "@ + name_text(name@) + " in "@,
        )
    }

    fn visit_nil(&self, acc: TextAcc) -> (r: TextAcc) {
        let mut a = acc;
        a.text.append("0");
        let ghost t0 = a.text@;
        let ghost f0 = a.frames@;
        loop
            invariant_except_break
                settle(a.text@, a.frames@) == settle(t0, f0),
            ensures
                acc_model(a) == settle(t0, f0),
            decreases a.frames@.len(),
        {
            let ghost t1 = a.text@;
            let ghost f1 = a.frames@;
            match a.frames.pop() {
                None => {
                    assert(f1.len() == 0);
                    break;
                },
                Some((kind, first)) => {
                    if first {
                        let s = if kind == 0 {
                            ", "
                        } else if kind == 1 {
                            " => "
                        } else {
                            " in "
                        };
                        a.text.append(s);
                        a.frames.push((kind, false));
                        assert(f1.drop_last() =~= a.frames@.drop_last());
                        assert(acc_model(a) == settle(t1, f1));
                        break;
                    } else {
                        let c = if kind == 2 {
                            ""
                        } else {
                            ")"
                        };
                        a.text.append(c);
                    }
                },
            }
        }
        a
    }

    fn visit_vertex(&self, acc: TextAcc, vertex: &Vertex) -> (r: TextAcc) {
        let mut open = String::new();
        open.append("<");
        write_name(&mut open, &vertex.name);
        open.append(">");
        open.append(" | ");
        append_text(acc, open)
    }

    fn visit_var(&self, acc: TextAcc, var: &str) -> (r: TextAcc) {
        let mut open = String::new();
        open.append(var);
        open.append(" | ");
        append_text(acc, open)
    }

    fn visit_nominate(&self, acc: TextAcc, var: &str, vertex: &Vertex) -> (r: TextAcc) {
        let mut open = String::new();
        open.append("let ");
        open.append(var);
        open.append(" = ");
        open.append("<");
        write_name(&mut open, &vertex.name);
        open.append(">");
        open.append(" in ");
        append_text(acc, open)
    }

    fn visit_edge_anon(&self, acc: TextAcc, edge: &GEdgeAnon) -> (r: TextAcc) {
        push_frame(acc, "(".to_owned(), 0)
    }

    fn visit_edge_named(&self, acc: TextAcc, edge: &GEdgeNamed) -> (r: TextAcc) {
        let mut open = String::new();
        open.append("edge ");
        write_name(&mut open, &edge.name);
        open.append(" (");
        push_frame(acc, open, 0)
    }

    fn visit_rule_anon(&self, acc: TextAcc, lhs: &Graph, rhs: &Graph) -> (r: TextAcc) {
        push_frame(acc, "rule (".to_owned(), 1)
    }

    fn visit_rule_named(&self, acc: TextAcc, name: &Name, lhs: &Graph, rhs: &Graph) -> (r: TextAcc) {
        let mut open = String::new();
        open.append("rule ");
        write_name(&mut open, name);
        open.append(" (");
        push_frame(acc, open, 1)
    }

    fn visit_subgraph(&self, acc: TextAcc, lhs: &Graph, rhs: &Graph, var: &str) -> (r: TextAcc) {
        let mut open = String::new();
        open.append("let ");
        open.append(var);
        open.append(" = ");
        push_frame(acc, open, 2)
    }

    fn visit_tensor(&self, acc: TextAcc, lhs: &Graph, rhs: &Graph) -> (r: TextAcc) {
        push_frame(acc, "tensor (".to_owned(), 0)
    }

    fn visit_context(&self, acc: TextAcc, name: &Name, string: &str) -> (r: TextAcc) {
        let mut open = String::new();
        open.append("context \"");
        let owned = string.to_owned();
        write_escaped(&mut open, &owned);
        open.append("\" for ");
        write_name(&mut open, name);
        open.append(" in ");
        append_text(acc, open)
    }
}

proof fn lemma_run_split<A, V: Visitor<A>>(v: V, ns1: Seq<Node>, ns2: Seq<Node>, accs: Seq<A>)
    requires
        is_run(v, ns1 + ns2, accs),
    ensures
        is_run(v, ns1, accs.take(ns1.len() + 1int)),
        is_run(v, ns2, accs.skip(ns1.len() as int)),
        accs.take(ns1.len() + 1int).last() == accs.skip(ns1.len() as int)[0],
        accs.skip(ns1.len() as int).last() == accs.last(),
        accs.take(ns1.len() + 1int)[0] == accs[0],
{
    let ns = ns1 + ns2;
    let a1 = accs.take(ns1.len() + 1int);
    let a2 = accs.skip(ns1.len() as int);
    assert forall|i: int| 0 <= i < ns1.len() implies #[trigger] visits(v, a1[i], ns1[i], a1[i + 1]) by {
        assert(ns[i] == ns1[i]);
        assert(visits(v, accs[i], ns[i], accs[i + 1]));
    }
    assert forall|i: int| 0 <= i < ns2.len() implies #[trigger] visits(v, a2[i], ns2[i], a2[i + 1]) by {
        let j = ns1.len() + i;
        assert(ns[j] == ns2[i]);
        assert(visits(v, accs[j], ns[j], accs[j + 1]));
        assert(a2[i + 1] == accs[j + 1]);
    }
}

/// Settling after a two-child frame whose first child is still open.
proof fn lemma_settle_first(t: Seq<char>, fs: Seq<(u8, bool)>, kind: u8)
    ensures
        settle(t, fs.push((kind, true))) == (t + sep_of(kind), fs.push((kind, false))),
{
    assert(fs.push((kind, true)).drop_last() =~= fs);
}

/// Settling after a two-child frame whose second child is done.
proof fn lemma_settle_second(t: Seq<char>, fs: Seq<(u8, bool)>, kind: u8)
    ensures
        settle(t, fs.push((kind, false))) == settle(t + close_of(kind), fs),
{
    assert(fs.push((kind, false)).drop_last() =~= fs);
}

/// A run over a graph's nodes writes the graph's text, then settles.
proof fn lemma_print_graph(g: Graph, accs: Seq<TextAcc>)
    requires
        is_run(PrintVisitor, preorder_graph(g), accs),
    ensures
        acc_model(accs.last()) == settle(accs[0].text@ + graph_text(g@), accs[0].frames@),
    decreases g,
{
    lemma_print_literals();
    reveal_strlit("");
    assert(""@ =~= Seq::<char>::empty());
    let v = PrintVisitor;
    let head = seq![Node::Graph(g)];
    let kids = preorder_graph(g).drop_first();
    assert(preorder_graph(g) =~= head + kids);
    lemma_run_split(v, head, kids, accs);
    let rest = accs.skip(1);
    assert(visits(v, accs[0], head[0], accs.take(2)[1]));
    let t = accs[0].text@;
    let fs = accs[0].frames@;
    match g {
        Graph::Nil => {
            assert(kids.len() == 0);
            assert(rest.len() == 1);
        },
        Graph::Vertex(gv) => {
            assert(kids == preorder_graph(*gv.graph));
            lemma_print_graph(*gv.graph, rest);
            assert(t + ("<"@ + name_text(gv.vertex@) + ">"@ + " | "@) + graph_text(gv.graph@)
                =~= t + graph_text(g@));
        },
        Graph::Var(gv) => {
            assert(kids == preorder_graph(*gv.graph));
            lemma_print_graph(*gv.graph, rest);
            assert(t + (gv.var@ + " | "@) + graph_text(gv.graph@) =~= t + graph_text(g@));
        },
        Graph::Nominate(b) => {
            assert(kids == preorder_graph(*b.graph));
            lemma_print_graph(*b.graph, rest);
            assert(graph_text(g@) == binding_text(b@));
            assert(t + ("let "@ + b.var@ + " = "@ + "<"@ + name_text(b.vertex@) + ">"@ + " in "@)
                + graph_text(b.graph@) =~= t + binding_text(b@));
        },
        Graph::EdgeAnon(e) => {
            assert(kids =~= preorder_binding(e.binding_1) + preorder_binding(e.binding_2));
            assert(acc_model(accs[1]) == (t + "("@, fs.push((0, true))));
            assert forall|a: Seq<TextAcc>| is_run(v, preorder_binding(e.binding_1), a) implies acc_model(
                #[trigger] a.last(),
            ) == settle(a[0].text@ + binding_text(e.binding_1@), a[0].frames@) by {
                lemma_print_binding(e.binding_1, a);
            }
            assert forall|a: Seq<TextAcc>| is_run(v, preorder_binding(e.binding_2), a) implies acc_model(
                #[trigger] a.last(),
            ) == settle(a[0].text@ + binding_text(e.binding_2@), a[0].frames@) by {
                lemma_print_binding(e.binding_2, a);
            }
            assert(graph_text(g@) =~= "("@ + binding_text(e.binding_1@) + sep_of(0) + binding_text(e.binding_2@) + close_of(0));
            lemma_print_two(
                g,
                preorder_binding(e.binding_1),
                preorder_binding(e.binding_2),
                accs,
                "("@,
                0,
                binding_text(e.binding_1@),
                binding_text(e.binding_2@),
            );
        },
        Graph::EdgeNamed(e) => {
            assert(kids =~= preorder_binding(e.binding_1) + preorder_binding(e.binding_2));
            assert(acc_model(accs[1]) == (t + "edge "@ + name_text(e.name@) + " ("@, fs.push((0, true))));
            assert forall|a: Seq<TextAcc>| is_run(v, preorder_binding(e.binding_1), a) implies acc_model(
                #[trigger] a.last(),
            ) == settle(a[0].text@ + binding_text(e.binding_1@), a[0].frames@) by {
                lemma_print_binding(e.binding_1, a);
            }
            assert forall|a: Seq<TextAcc>| is_run(v, preorder_binding(e.binding_2), a) implies acc_model(
                #[trigger] a.last(),
            ) == settle(a[0].text@ + binding_text(e.binding_2@), a[0].frames@) by {
                lemma_print_binding(e.binding_2, a);
            }
            assert(graph_text(g@) =~= "edge "@ + name_text(e.name@) + " ("@ + binding_text(e.binding_1@) + sep_of(0) + binding_text(e.binding_2@) + close_of(0));
            lemma_print_two(
                g,
                preorder_binding(e.binding_1),
                preorder_binding(e.binding_2),
                accs,
                "edge "@ + name_text(e.name@) + " ("@,
                0,
                binding_text(e.binding_1@),
                binding_text(e.binding_2@),
            );
        },
        Graph::RuleAnon(r) => {
            assert(kids =~= preorder_graph(*r.graph_1) + preorder_graph(*r.graph_2));
            assert(acc_model(accs[1]) == (t + "rule ("@, fs.push((1, true))));
            assert forall|a: Seq<TextAcc>| is_run(v, preorder_graph(*r.graph_1), a) implies acc_model(
                #[trigger] a.last(),
            ) == settle(a[0].text@ + graph_text(r.graph_1@), a[0].frames@) by {
                lemma_print_graph(*r.graph_1, a);
            }
            assert forall|a: Seq<TextAcc>| is_run(v, preorder_graph(*r.graph_2), a) implies acc_model(
                #[trigger] a.last(),
            ) == settle(a[0].text@ + graph_text(r.graph_2@), a[0].frames@) by {
                lemma_print_graph(*r.graph_2, a);
            }
            assert(graph_text(g@) =~= "rule ("@ + graph_text(r.graph_1@) + sep_of(1) + graph_text(r.graph_2@) + close_of(1));
            lemma_print_two(
                g,
                preorder_graph(*r.graph_1),
                preorder_graph(*r.graph_2),
                accs,
                "rule ("@,
                1,
                graph_text(r.graph_1@),
                graph_text(r.graph_2@),
            );
        },
        Graph::RuleNamed(r) => {
            assert(kids =~= preorder_graph(*r.graph_1) + preorder_graph(*r.graph_2));
            assert(acc_model(accs[1]) == (t + "rule "@ + name_text(r.name@) + " ("@, fs.push((1, true))));
            assert forall|a: Seq<TextAcc>| is_run(v, preorder_graph(*r.graph_1), a) implies acc_model(
                #[trigger] a.last(),
            ) == settle(a[0].text@ + graph_text(r.graph_1@), a[0].frames@) by {
                lemma_print_graph(*r.graph_1, a);
            }
            assert forall|a: Seq<TextAcc>| is_run(v, preorder_graph(*r.graph_2), a) implies acc_model(
                #[trigger] a.last(),
            ) == settle(a[0].text@ + graph_text(r.graph_2@), a[0].frames@) by {
                lemma_print_graph(*r.graph_2, a);
            }
            assert(graph_text(g@) =~= "rule "@ + name_text(r.name@) + " ("@ + graph_text(r.graph_1@) + sep_of(1) + graph_text(r.graph_2@) + close_of(1));
            lemma_print_two(
                g,
                preorder_graph(*r.graph_1),
                preorder_graph(*r.graph_2),
                accs,
                "rule "@ + name_text(r.name@) + " ("@,
                1,
                graph_text(r.graph_1@),
                graph_text(r.graph_2@),
            );
        },
        Graph::Subgraph(b) => {
            assert(kids =~= preorder_graph(*b.graph_1) + preorder_graph(*b.graph_2));
            assert(acc_model(accs[1]) == (t + "let "@ + b.var@ + " = "@, fs.push((2, true))));
            assert forall|a: Seq<TextAcc>| is_run(v, preorder_graph(*b.graph_1), a) implies acc_model(
                #[trigger] a.last(),
            ) == settle(a[0].text@ + graph_text(b.graph_1@), a[0].frames@) by {
                lemma_print_graph(*b.graph_1, a);
            }
            assert forall|a: Seq<TextAcc>| is_run(v, preorder_graph(*b.graph_2), a) implies acc_model(
                #[trigger] a.last(),
            ) == settle(a[0].text@ + graph_text(b.graph_2@), a[0].frames@) by {
                lemma_print_graph(*b.graph_2, a);
            }
            assert(graph_text(g@) =~= "let "@ + b.var@ + " = "@ + graph_text(b.graph_1@) + sep_of(2) + graph_text(b.graph_2@) + close_of(2));
            lemma_print_two(
                g,
                preorder_graph(*b.graph_1),
                preorder_graph(*b.graph_2),
                accs,
                "let "@ + b.var@ + " = "@,
                2,
                graph_text(b.graph_1@),
                graph_text(b.graph_2@),
            );
        },
        Graph::Tensor(tn) => {
            assert(kids =~= preorder_graph(*tn.graph_1) + preorder_graph(*tn.graph_2));
            assert(acc_model(accs[1]) == (t + "tensor ("@, fs.push((0, true))));
            assert forall|a: Seq<TextAcc>| is_run(v, preorder_graph(*tn.graph_1), a) implies acc_model(
                #[trigger] a.last(),
            ) == settle(a[0].text@ + graph_text(tn.graph_1@), a[0].frames@) by {
                lemma_print_graph(*tn.graph_1, a);
            }
            assert forall|a: Seq<TextAcc>| is_run(v, preorder_graph(*tn.graph_2), a) implies acc_model(
                #[trigger] a.last(),
            ) == settle(a[0].text@ + graph_text(tn.graph_2@), a[0].frames@) by {
                lemma_print_graph(*tn.graph_2, a);
            }
            assert(graph_text(g@) =~= "tensor ("@ + graph_text(tn.graph_1@) + sep_of(0) + graph_text(tn.graph_2@) + close_of(0));
            lemma_print_two(
                g,
                preorder_graph(*tn.graph_1),
                preorder_graph(*tn.graph_2),
                accs,
                "tensor ("@,
                0,
                graph_text(tn.graph_1@),
                graph_text(tn.graph_2@),
            );
        },
        Graph::Context(c) => {
            assert(kids == preorder_graph(*c.graph));
            lemma_print_graph(*c.graph, rest);
            assert(t + ("context \""@ + escape(c.string@) + "\" for "@ + name_text(c.name@)
                + " in "@) + graph_text(c.graph@) =~= t + graph_text(g@));
        },
    }
}

/// The two-child case: the opening text, the first child, the separator,
/// the second child, and the closing text.
proof fn lemma_print_two(
    g: Graph,
    p1: Seq<Node>,
    p2: Seq<Node>,
    accs: Seq<TextAcc>,
    open: Seq<char>,
    kind: u8,
    text1: Seq<char>,
    text2: Seq<char>,
)
    requires
        is_run(PrintVisitor, seq![Node::Graph(g)] + (p1 + p2), accs),
        acc_model(accs[1]) == (accs[0].text@ + open, accs[0].frames@.push((kind, true))),
        graph_text(g@) == open + text1 + sep_of(kind) + text2 + close_of(kind),
        forall|a: Seq<TextAcc>|
            is_run(PrintVisitor, p1, a) ==> acc_model(#[trigger] a.last()) == settle(
                a[0].text@ + text1,
                a[0].frames@,
            ),
        forall|a: Seq<TextAcc>|
            is_run(PrintVisitor, p2, a) ==> acc_model(#[trigger] a.last()) == settle(
                a[0].text@ + text2,
                a[0].frames@,
            ),
    ensures
        acc_model(accs.last()) == settle(accs[0].text@ + graph_text(g@), accs[0].frames@),
{
    let v = PrintVisitor;
    let t = accs[0].text@;
    let fs = accs[0].frames@;
    lemma_run_split(v, seq![Node::Graph(g)], p1 + p2, accs);
    let rest = accs.skip(1);
    assert(rest[0] == accs[1]);
    lemma_run_split(v, p1, p2, rest);
    let a1 = rest.take(p1.len() + 1int);
    let a2 = rest.skip(p1.len() as int);
    assert(a1[0] == accs[1]);
    lemma_settle_first(t + open + text1, fs, kind);
    assert(acc_model(a1.last()) == (t + open + text1 + sep_of(kind), fs.push((kind, false))));
    lemma_settle_second(t + open + text1 + sep_of(kind) + text2, fs, kind);
    assert(acc_model(a2.last()) == settle(
        t + open + text1 + sep_of(kind) + text2 + close_of(kind),
        fs,
    ));
    assert(t + open + text1 + sep_of(kind) + text2 + close_of(kind) =~= t + graph_text(g@));
}

/// A run over a binding's nodes writes the binding's text, then settles.
proof fn lemma_print_binding(b: Binding, accs: Seq<TextAcc>)
    requires
        is_run(PrintVisitor, preorder_binding(b), accs),
    ensures
        acc_model(accs.last()) == settle(accs[0].text@ + binding_text(b@), accs[0].frames@),
    decreases b,
{
    lemma_print_literals();
    let v = PrintVisitor;
    let head = seq![Node::Binding(b)];
    lemma_run_split(v, head, preorder_graph(*b.graph), accs);
    assert(visits(v, accs[0], head[0], accs.take(2)[1]));
    let rest = accs.skip(1);
    lemma_print_graph(*b.graph, rest);
    let t = accs[0].text@;
    assert(t + ("let "@ + b.var@ + " = "@ + "<"@ + name_text(b.vertex@) + ">"@ + " in "@)
        + graph_text(b.graph@) =~= t + binding_text(b@));
}

/// Printing through the walker writes the canonical text.
pub fn print_graph(g: &Graph) -> (s: String)
    ensures
        s@ == graph_text(g@),
{
    let init = TextAcc { text: String::new(), frames: Vec::new() };
    let ghost start = init;
    let r = Walker::new(g).visit(PrintVisitor, init);
    proof {
        let accs = choose|accs: Seq<TextAcc>| #[trigger] is_run(
            PrintVisitor,
            preorder_graph(*g),
            accs,
        ) && accs[0] == start && accs.last() == r;
        lemma_print_graph(*g, accs);
        assert(Seq::<char>::empty() + graph_text(g@) =~= graph_text(g@));
    }
    r.text
}

} // verus!
