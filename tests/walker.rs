use graphl::ast::Graph;
use graphl::parse_to_ast;
use graphl::walker::Walker;
use graphl::xml::{Tags, XmlVisitor};

fn walk(graph: &Graph) -> String {
    let walker = Walker::new(graph);
    walker.visit(XmlVisitor, Tags::new()).render()
}

#[test]
fn walker_test_gnil_visitor() {
    let graph = parse_to_ast("{0}".to_owned()).unwrap();

    assert_eq!(&walk(&graph), "<nil/>\n");
}

#[test]
fn walker_test_nomination_visitor() {
    let graph = parse_to_ast("let a = <a> in <a> | 0".into()).unwrap();

    assert_eq!(
        &walk(&graph),
        "<nominate a for vertex a>\n<vertex a>\n<nil/>\n</vertex>\n</nominate>\n"
    );
}

#[test]
fn walker_test_edge_visitor() {
    let graph = parse_to_ast("(let a = <a> in <a> | 0, let b = <b> in <b> | 0)".into()).unwrap();

    assert_eq!(
        &walk(&graph),
        r#"<edge>
<nominate a for vertex a>
<vertex a>
<nil/>
<nominate b for vertex b>
<vertex b>
<nil/>
</vertex>
</nominate>
</vertex>
</nominate>
</edge>
"#
    );
}

#[test]
fn walker_test_vertex_visitor() {
    let graph = parse_to_ast("<a> | 0".into()).unwrap();

    assert_eq!(&walk(&graph), "<vertex a>\n<nil/>\n</vertex>\n");
}

#[test]
fn walker_test_annonim_edge_visitor() {
    let graph =
        parse_to_ast("{ (let va = <a> in <a> | 0, let vb = <b> in <b> | 0) }".into()).unwrap();

    assert_eq!(
        &walk(&graph),
        r#"<edge>
<nominate va for vertex a>
<vertex a>
<nil/>
<nominate vb for vertex b>
<vertex b>
<nil/>
</vertex>
</nominate>
</vertex>
</nominate>
</edge>
"#
    );
}

#[test]
fn walker_test_linear_graph_with_3_edges() {
    let graph: Graph = parse_to_ast(
        "{
                    (
                      let n2 = <notification> in {
                        (
                          let e2 = <encryption> in {
                            (
                              let e1 = <encryption> in <encryption> | 0,
                              let s = <store> in <store> | 0
                            )
                          } ,
                          let n1 = <notification> in <notification> | 0
                        )
                      },
                      let e3 = <encryption> in e1 | 0
                    )
                  }"
        .into(),
    )
    .unwrap();

    assert_eq!(
        &walk(&graph),
        r#"<edge>
<nominate n2 for vertex notification>
<edge>
<nominate e2 for vertex encryption>
<edge>
<nominate e1 for vertex encryption>
<vertex encryption>
<nil/>
<nominate s for vertex store>
<vertex store>
<nil/>
<nominate n1 for vertex notification>
<vertex notification>
<nil/>
<nominate e3 for vertex encryption>
<var e1>
<nil/>
</var>
</nominate>
</vertex>
</nominate>
</vertex>
</nominate>
</vertex>
</nominate>
</edge>
</nominate>
</edge>
</nominate>
</edge>
"#
    );
}

#[test]
fn walker_test_vertext_context() {
    let graph = parse_to_ast("context \"foo=bar\" for a in <a> | {0}".into()).unwrap();

    assert_eq!(
        &walk(&graph),
        r#"<context for a with foo=bar>
<vertex a>
<nil/>
</vertex>
</context>
"#
    );
}

#[test]
fn edge_opens_before_both_nominations_in_order() {
    let graph = parse_to_ast("(let a = <a> in <a> | 0, let b = <b> in <b> | 0)".into()).unwrap();
    let tags = Walker::new(&graph).visit(XmlVisitor, Tags::new());

    assert_eq!(tags.left[0], "<edge>\n");
    let a = tags.left.iter().position(|t| t == "<nominate a for vertex a>\n").unwrap();
    let b = tags.left.iter().position(|t| t == "<nominate b for vertex b>\n").unwrap();
    let va = tags.left.iter().position(|t| t == "<vertex a>\n").unwrap();
    let vb = tags.left.iter().position(|t| t == "<vertex b>\n").unwrap();
    assert!(0 < a && a < va && va < b && b < vb);
    assert_eq!(tags.left.len(), 7);
    assert_eq!(tags.right.len(), 7);
}
