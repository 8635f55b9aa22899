use graphl::ast::{GEdgeAnon, GEdgeNamed, Graph, Name, Vertex};
use graphl::parse_to_ast;
use graphl::visitor::Visitor;
use graphl::walker::Walker;

/// Collects the names of bound variables in visiting order.
struct Binders;

impl Visitor<Vec<String>> for Binders {
    fn visit_nil(&self, acc: Vec<String>) -> Vec<String> {
        acc
    }

    fn visit_vertex(&self, acc: Vec<String>, _vertex: &Vertex) -> Vec<String> {
        acc
    }

    fn visit_var(&self, acc: Vec<String>, _var: &str) -> Vec<String> {
        acc
    }

    fn visit_nominate(&self, mut acc: Vec<String>, var: &str, _vertex: &Vertex) -> Vec<String> {
        acc.push(var.to_owned());
        acc
    }

    fn visit_edge_anon(&self, acc: Vec<String>, _edge: &GEdgeAnon) -> Vec<String> {
        acc
    }

    fn visit_edge_named(&self, acc: Vec<String>, _edge: &GEdgeNamed) -> Vec<String> {
        acc
    }

    fn visit_rule_anon(&self, acc: Vec<String>, _lhs: &Graph, _rhs: &Graph) -> Vec<String> {
        acc
    }

    fn visit_rule_named(
        &self,
        acc: Vec<String>,
        _name: &Name,
        _lhs: &Graph,
        _rhs: &Graph,
    ) -> Vec<String> {
        acc
    }

    fn visit_subgraph(&self, mut acc: Vec<String>, _lhs: &Graph, _rhs: &Graph, var: &str) -> Vec<String> {
        acc.push(var.to_owned());
        acc
    }

    fn visit_tensor(&self, acc: Vec<String>, _lhs: &Graph, _rhs: &Graph) -> Vec<String> {
        acc
    }

    fn visit_context(&self, acc: Vec<String>, _name: &Name, _string: &str) -> Vec<String> {
        acc
    }
}

#[test]
fn a_visitor_written_outside_the_library_sees_binders_in_order() {
    let g = parse_to_ast(
        "(let a = <a> in let G = let c = <c> in 0 in 0, let b = <b> in 0)".to_owned(),
    )
    .unwrap();
    let names = Walker::new(&g).visit(Binders, Vec::new());
    assert_eq!(names, vec!["a", "G", "c", "b"]);
}
