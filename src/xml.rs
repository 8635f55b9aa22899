//! A debug view of a tree as nested XML-like tags, built by the walker: an
//! opening tag when a node is visited, and its closing tag kept apart; the
//! rendering is all opening tags in visiting order, then all closing tags in
//! reverse.
use vstd::prelude::*;

use crate::ast::{GEdgeAnon, GEdgeNamed, Graph, Name, Vertex};
use crate::printer::write_name;
use crate::syntax::name_text;
use crate::visitor::Visitor;
use crate::walk::{Tag, TagVisitor};

verus! {

/// The accumulator: opening and closing tags, in visiting order.
pub struct Tags {
    pub left: Vec<String>,
    pub right: Vec<String>,
}

pub open spec fn texts(v: Seq<String>) -> Seq<Seq<char>> {
    v.map_values(|s: String| s@)
}

pub open spec fn concat(v: Seq<Seq<char>>) -> Seq<char>
    decreases v.len(),
{
    if v.len() == 0 {
        Seq::empty()
    } else {
        concat(v.drop_last()) + v.last()
    }
}

/// `out` is `acc` with one more opening and one more closing tag.
pub open spec fn tagged(acc: Tags, out: Tags, open: Seq<char>, close: Seq<char>) -> bool {
    texts(out.left@) == texts(acc.left@).push(open) && texts(out.right@) == texts(acc.right@).push(
        close,
    )
}

impl Tags {
    pub fn new() -> (t: Tags)
        ensures
            t.left@.len() == 0,
            t.right@.len() == 0,
    {
        Tags { left: Vec::new(), right: Vec::new() }
    }

    fn with(self, open: String, close: String) -> (r: Tags)
        ensures
            tagged(self, r, open@, close@),
    {
        let mut r = self;
        let ghost l0 = r.left@;
        let ghost r0 = r.right@;
        r.left.push(open);
        r.right.push(close);
        assert(texts(r.left@) =~= texts(l0).push(open@));
        assert(texts(r.right@) =~= texts(r0).push(close@));
        r
    }

    /// All opening tags in order, then all closing tags in reverse order.
    pub fn render(&self) -> (s: String)
        ensures
            s@ == concat(texts(self.left@)) + concat(texts(self.right@).reverse()),
    {
        let mut s = String::new();
        let mut k: usize = 0;
        while k < self.left.len()
            invariant
                k <= self.left@.len(),
                s@ == concat(texts(self.left@).take(k as int)),
            decreases self.left@.len() - k,
        {
            s.append(self.left[k].as_str());
            k = k + 1;
            assert(texts(self.left@).take(k as int).drop_last() =~= texts(self.left@).take(
                k - 1,
            ));
        }
        assert(texts(self.left@).take(k as int) =~= texts(self.left@));
        let ghost opened = s@;
        let mut j: usize = self.right.len();
        while j > 0
            invariant
                j <= self.right@.len(),
                s@ == opened + concat(texts(self.right@).reverse().take(self.right@.len() - j)),
            decreases j,
        {
            j = j - 1;
            let ghost before = texts(self.right@).reverse().take(self.right@.len() - j - 1);
            s.append(self.right[j].as_str());
            proof {
                let rs = texts(self.right@).reverse();
                let t = rs.take(self.right@.len() - j);
                assert(t.drop_last() =~= before);
                assert(t.last() == self.right@[j as int]@);
            }
        }
        assert(texts(self.right@).reverse().take(self.right@.len() as int) =~= texts(
            self.right@,
        ).reverse());
        s
    }
}

pub open spec fn name_tag(n: Name) -> Seq<char> {
    name_text(n@)
}

/// The visitor of the debug view.
pub struct XmlVisitor;

fn name_string(n: &Name) -> (s: String)
    ensures
        s@ == name_tag(*n),
{
    let mut s = String::new();
    write_name(&mut s, n);
    s
}

fn tag3(a: &str, b: &str, c: &str) -> (s: String)
    ensures
        s@ == a@ + b@ + c@,
{
    let mut s = String::new();
    s.append(a);
    s.append(b);
    s.append(c);
    s
}

fn fixed(a: &str) -> (s: String)
    ensures
        s@ == a@,
{
    a.to_owned()
}

impl Visitor<Tags> for XmlVisitor {
    open spec fn on_nil(&self, acc: Tags, out: Tags) -> bool {
        tagged(acc, out, "<nil/>\n"@, ""@)
    }

    open spec fn on_vertex(&self, acc: Tags, vertex: Vertex, out: Tags) -> bool {
        tagged(acc, out, "<vertex "@ + name_tag(vertex.name) + ">\n"@, "</vertex>\n"@)
    }

    open spec fn on_var(&self, acc: Tags, var: Seq<char>, out: Tags) -> bool {
        tagged(acc, out, "<var "@ + var + ">\n"@, "</var>\n"@)
    }

    open spec fn on_nominate(&self, acc: Tags, var: Seq<char>, vertex: Vertex, out: Tags) -> bool {
        tagged(
            acc,
            out,
            "<nominate "@ + var + " for vertex "@ + name_tag(vertex.name) + ">\n"@,
            "</nominate>\n"@,
        )
    }

    open spec fn on_edge_anon(&self, acc: Tags, edge: GEdgeAnon, out: Tags) -> bool {
        tagged(acc, out, "<edge>\n"@, "</edge>\n"@)
    }

    open spec fn on_edge_named(&self, acc: Tags, edge: GEdgeNamed, out: Tags) -> bool {
        tagged(acc, out, "<edge "@ + name_tag(edge.name) + ">\n"@, "</edge>\n"@)
    }

    open spec fn on_rule_anon(&self, acc: Tags, lhs: Graph, rhs: Graph, out: Tags) -> bool {
        tagged(acc, out, "<rule>\n"@, "</rule>\n"@)
    }

    open spec fn on_rule_named(&self, acc: Tags, name: Name, lhs: Graph, rhs: Graph, out: Tags) -> bool {
        tagged(acc, out, "<rule "@ + name_tag(name) + ">\n"@, "</rule>\n"@)
    }

    open spec fn on_subgraph(&self, acc: Tags, lhs: Graph, rhs: Graph, var: Seq<char>, out: Tags) -> bool {
        tagged(acc, out, "<subgraph "@ + var + ">\n"@, "</subgraph>\n"@)
    }

    open spec fn on_tensor(&self, acc: Tags, lhs: Graph, rhs: Graph, out: Tags) -> bool {
        tagged(acc, out, "<tensor>\n"@, "</tensor>\n"@)
    }

    open spec fn on_context(&self, acc: Tags, name: Name, string: Seq<char>, out: Tags) -> bool {
        tagged(
            acc,
            out,
            "<context for "@ + name_tag(name) + " with "@ + string + ">\n"@,
            "</context>\n"@,
        )
    }

    fn visit_nil(&self, acc: Tags) -> (r: Tags) {
        acc.with(fixed("<nil/>\n"), fixed(""))
    }

    fn visit_vertex(&self, acc: Tags, vertex: &Vertex) -> (r: Tags) {
        let n = name_string(&vertex.name);
        acc.with(tag3("<vertex ", n.as_str(), ">\n"), fixed("</vertex>\n"))
    }

    fn visit_var(&self, acc: Tags, var: &str) -> (r: Tags) {
        acc.with(tag3("<var ", var, ">\n"), fixed("</var>\n"))
    }

    fn visit_nominate(&self, acc: Tags, var: &str, vertex: &Vertex) -> (r: Tags) {
        let n = name_string(&vertex.name);
        let mut open = tag3("<nominate ", var, " for vertex ");
        open.append(n.as_str());
        open.append(">\n");
        acc.with(open, fixed("</nominate>\n"))
    }

    fn visit_edge_anon(&self, acc: Tags, edge: &GEdgeAnon) -> (r: Tags) {
        acc.with(fixed("<edge>\n"), fixed("</edge>\n"))
    }

    fn visit_edge_named(&self, acc: Tags, edge: &GEdgeNamed) -> (r: Tags) {
        let n = name_string(&edge.name);
        acc.with(tag3("<edge ", n.as_str(), ">\n"), fixed("</edge>\n"))
    }

    fn visit_rule_anon(&self, acc: Tags, lhs: &Graph, rhs: &Graph) -> (r: Tags) {
        acc.with(fixed("<rule>\n"), fixed("</rule>\n"))
    }

    fn visit_rule_named(&self, acc: Tags, name: &Name, lhs: &Graph, rhs: &Graph) -> (r: Tags) {
        let n = name_string(name);
        acc.with(tag3("<rule ", n.as_str(), ">\n"), fixed("</rule>\n"))
    }

    fn visit_subgraph(&self, acc: Tags, lhs: &Graph, rhs: &Graph, var: &str) -> (r: Tags) {
        acc.with(tag3("<subgraph ", var, ">\n"), fixed("</subgraph>\n"))
    }

    fn visit_tensor(&self, acc: Tags, lhs: &Graph, rhs: &Graph) -> (r: Tags) {
        acc.with(fixed("<tensor>\n"), fixed("</tensor>\n"))
    }

    fn visit_context(&self, acc: Tags, name: &Name, string: &str) -> (r: Tags) {
        let n = name_string(name);
        let mut open = tag3("<context for ", n.as_str(), " with ");
        open.append(string);
        open.append(">\n");
        acc.with(open, fixed("</context>\n"))
    }
}

/// The debug view as tag pairs, for `crate::walk`; an edge's opening tag
/// holds its two nominations, and so does its closing tag.
pub struct XmlTagVisitor;

fn pair(open: String, close: String) -> (r: (String, String))
    ensures
        r.0@ == open@,
        r.1@ == close@,
{
    (open, close)
}

impl TagVisitor for XmlTagVisitor {
    open spec fn nil_tags(&self) -> Tag {
        ("<nil/>\n"@, ""@)
    }

    open spec fn vertex_tags(&self, vertex: Vertex) -> Tag {
        ("<vertex "@ + name_tag(vertex.name) + ">\n"@, "</vertex>\n"@)
    }

    open spec fn var_tags(&self, var: Seq<char>) -> Tag {
        ("<var "@ + var + ">\n"@, "</var>\n"@)
    }

    open spec fn nominate_tags(&self, var: Seq<char>, vertex: Vertex) -> Tag {
        ("<nominate "@ + var + " for vertex "@ + name_tag(vertex.name) + ">\n"@, "</nominate>\n"@)
    }

    open spec fn edge_anon_tags(&self, edge: GEdgeAnon, first: Tag, second: Tag) -> Tag {
        ("<edge>\n"@ + first.0 + second.0, first.1 + second.1 + "</edge>\n"@)
    }

    open spec fn edge_named_tags(&self, edge: GEdgeNamed, first: Tag, second: Tag) -> Tag {
        (
            "<edge "@ + name_tag(edge.name) + ">\n"@ + first.0 + second.0,
            first.1 + second.1 + "</edge>\n"@,
        )
    }

    open spec fn rule_anon_tags(&self, lhs: Graph, rhs: Graph) -> Tag {
        ("<rule>\n"@, "</rule>\n"@)
    }

    open spec fn rule_named_tags(&self, name: Name, lhs: Graph, rhs: Graph) -> Tag {
        ("<rule "@ + name_tag(name) + ">\n"@, "</rule>\n"@)
    }

    open spec fn subgraph_tags(&self, lhs: Graph, rhs: Graph, var: Seq<char>) -> Tag {
        ("<subgraph "@ + var + ">\n"@, "</subgraph>\n"@)
    }

    open spec fn tensor_tags(&self, lhs: Graph, rhs: Graph) -> Tag {
        ("<tensor>\n"@, "</tensor>\n"@)
    }

    open spec fn context_tags(&self, name: Name, string: Seq<char>) -> Tag {
        ("<context for "@ + name_tag(name) + " with "@ + string + ">\n"@, "</context>\n"@)
    }

    fn visit_nil(&self) -> (r: (String, String)) {
        pair(fixed("<nil/>\n"), fixed(""))
    }

    fn visit_vertex(&self, vertex: &Vertex) -> (r: (String, String)) {
        let n = name_string(&vertex.name);
        pair(tag3("<vertex ", n.as_str(), ">\n"), fixed("</vertex>\n"))
    }

    fn visit_var(&self, var: &str) -> (r: (String, String)) {
        pair(tag3("<var ", var, ">\n"), fixed("</var>\n"))
    }

    fn visit_nominate(&self, var: &str, vertex: &Vertex) -> (r: (String, String)) {
        let n = name_string(&vertex.name);
        let mut open = tag3("<nominate ", var, " for vertex ");
        open.append(n.as_str());
        open.append(">\n");
        pair(open, fixed("</nominate>\n"))
    }

    fn visit_edge_anon(&self, edge: &GEdgeAnon, first: (String, String), second: (String, String)) -> (r: (String, String)) {
        let open = tag3("<edge>\n", first.0.as_str(), second.0.as_str());
        let close = tag3(first.1.as_str(), second.1.as_str(), "</edge>\n");
        pair(open, close)
    }

    fn visit_edge_named(&self, edge: &GEdgeNamed, first: (String, String), second: (String, String)) -> (r: (String, String)) {
        let n = name_string(&edge.name);
        let mut open = tag3("<edge ", n.as_str(), ">\n");
        open.append(first.0.as_str());
        open.append(second.0.as_str());
        let close = tag3(first.1.as_str(), second.1.as_str(), "</edge>\n");
        pair(open, close)
    }

    fn visit_rule_anon(&self, lhs: &Graph, rhs: &Graph) -> (r: (String, String)) {
        pair(fixed("<rule>\n"), fixed("</rule>\n"))
    }

    fn visit_rule_named(&self, name: &Name, lhs: &Graph, rhs: &Graph) -> (r: (String, String)) {
        let n = name_string(name);
        pair(tag3("<rule ", n.as_str(), ">\n"), fixed("</rule>\n"))
    }

    fn visit_subgraph(&self, lhs: &Graph, rhs: &Graph, var: &str) -> (r: (String, String)) {
        pair(tag3("<subgraph ", var, ">\n"), fixed("</subgraph>\n"))
    }

    fn visit_tensor(&self, lhs: &Graph, rhs: &Graph) -> (r: (String, String)) {
        pair(fixed("<tensor>\n"), fixed("</tensor>\n"))
    }

    fn visit_context(&self, name: &Name, string: &str) -> (r: (String, String)) {
        let n = name_string(name);
        let mut open = tag3("<context for ", n.as_str(), " with ");
        open.append(string);
        open.append(">\n");
        pair(open, fixed("</context>\n"))
    }
}

} // verus!
