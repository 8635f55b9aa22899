use graphl::ast::Graph;
use graphl::parse_to_ast;
use graphl::walk::Walker;
use graphl::xml::XmlTagVisitor;

fn walk(graph: &Graph) -> String {
    let visitor = XmlTagVisitor;
    let mut walker = Walker::new(graph, &visitor);
    walker.visit()
}

#[test]
fn walk_test_gnil_visitor() {
    let graph: Graph = parse_to_ast("{0}".to_owned()).unwrap();
    let result = walk(&graph);

    assert_eq!(&result, "<nil/>\n");
}

#[test]
fn walk_test_nomination_visitor() {
    let graph: Graph = parse_to_ast("let a = <a> in <a> | 0".to_owned()).unwrap();
    let result = walk(&graph);

    assert_eq!(
        &result,
        "<nominate a for vertex a>\n<vertex a>\n<nil/>\n</vertex>\n</nominate>\n"
    );
}

#[test]
fn walk_test_edge_visitor() {
    let graph: Graph =
        parse_to_ast("(let a = <a> in <a> | 0, let b = <b> in <b> | 0)".to_owned()).unwrap();
    let result = walk(&graph);

    assert_eq!(
        &result,
        r#"<edge>
<nominate a for vertex a>
<nominate b for vertex b>
<vertex a>
<nil/>
<vertex b>
<nil/>
</vertex>
</vertex>
</nominate>
</nominate>
</edge>
"#
    );
}

#[test]
fn walk_test_vertex_visitor() {
    let graph: Graph = parse_to_ast("<a> | 0".to_owned()).unwrap();
    let result = walk(&graph);

    assert_eq!(&result, "<vertex a>\n<nil/>\n</vertex>\n");
}

#[test]
fn walk_test_annonim_edge_visitor() {
    let graph: Graph =
        parse_to_ast("{ (let va = <a> in <a> | 0, let vb = <b> in <b> | 0) }".to_owned())
            .unwrap();
    let result = walk(&graph);

    assert_eq!(
        &result,
        r#"<edge>
<nominate va for vertex a>
<nominate vb for vertex b>
<vertex a>
<nil/>
<vertex b>
<nil/>
</vertex>
</vertex>
</nominate>
</nominate>
</edge>
"#
    );
}

#[test]
fn walk_test_linear_graph_with_3_edges() {
    let graph: Graph = parse_to_ast(
        "{
                  (
                    let n2 = <notification> in {
                      (
                        let e2 = <encryption> in {
                          (
                            let e1 = <encryption> in <encryption> | 0,
                            let s = <store> in <store> | 0
                          )
                        } ,
                        let n1 = <notification> in <notification> | 0
                      )
                    },
                    let e3 = <encryption> in e1 | 0
                  )
                }"
        .to_owned(),
    )
    .unwrap();
    let result = walk(&graph);

    assert_eq!(
        &result,
        r#"<edge>
<nominate n2 for vertex notification>
<nominate e3 for vertex encryption>
<edge>
<nominate e2 for vertex encryption>
<nominate n1 for vertex notification>
<edge>
<nominate e1 for vertex encryption>
<nominate s for vertex store>
<vertex encryption>
<nil/>
<vertex store>
<nil/>
<vertex notification>
<nil/>
<var e1>
<nil/>
</var>
</vertex>
</vertex>
</vertex>
</nominate>
</nominate>
</edge>
</nominate>
</nominate>
</edge>
</nominate>
</nominate>
</edge>
"#
    );
}

#[test]
fn walk_test_vertext_context() {
    let graph: Graph =
        parse_to_ast("context \"foo=bar\" for a in <a> | {0}".to_owned()).unwrap();
    let result = walk(&graph);

    assert_eq!(
        &result,
        r#"<context for a with foo=bar>
<vertex a>
<nil/>
</vertex>
</context>
"#
    );
}
