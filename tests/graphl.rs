use graphl::ast::{Binding, Error, GContext, GVar, GVertex, Graph, Name, Vertex};
use graphl::check::check_tree;
use graphl::count::count_nodes;
use graphl::print_visitor::print_graph;
use graphl::walker::Walker;
use graphl::xml::{Tags, XmlVisitor};
use graphl::{ast_to_graphl, parse_to_ast, print};

fn vvar(s: &str) -> Name {
    Name::VVar { value: s.to_owned() }
}

fn round_trip(text: &str) {
    let first = parse_to_ast(text.to_owned()).unwrap();
    let printed = ast_to_graphl(parse_to_ast(text.to_owned()).unwrap()).unwrap();
    let second = parse_to_ast(printed).unwrap();
    assert_eq!(first, second, "{}", text);
}

fn position_of(r: Result<Graph, Error>) -> usize {
    match r {
        Err(Error::ParseError { position, .. }) => position,
        other => panic!("expected a parse error, got {:?}", other),
    }
}

#[test]
fn test_curly_braces_are_correctly_inserted() {
    let graphl = r#"< a > | { context "foo" for f in 0 }"#;
    let ast = parse_to_ast(graphl.to_owned()).unwrap();

    let printed_graphl = ast_to_graphl(ast.clone()).unwrap();
    let printed_ast = parse_to_ast(printed_graphl).unwrap();

    assert_eq!(ast, printed_ast)
}

#[test]
fn clone_copies_the_whole_tree() {
    let g = parse_to_ast("rule r (<@{x | 0}> | 0 => context \"s\" for _ in 0)".to_owned()).unwrap();
    let c = g.clone();
    assert_eq!(c, g);
    assert_eq!(ast_to_graphl(c).unwrap(), "rule r (<@{x | 0}> | 0 => context \"s\" for _ in 0)");
}

#[test]
fn nil_has_one_canonical_form() {
    assert_eq!(parse_to_ast("{0}".to_owned()).unwrap(), Graph::Nil);
    assert_eq!(parse_to_ast("0".to_owned()).unwrap(), Graph::Nil);
    assert_eq!(parse_to_ast(" { { 0 } } ".to_owned()).unwrap(), Graph::Nil);
}

#[test]
fn binding_has_the_expected_shape() {
    let g = parse_to_ast("let a = <a> in <a> | 0".to_owned()).unwrap();
    let expected = Graph::Nominate(Binding {
        graph: Box::new(Graph::Vertex(GVertex {
            graph: Box::new(Graph::Nil),
            vertex: Vertex { name: vvar("a") },
        })),
        var: "a".to_owned(),
        vertex: Vertex { name: vvar("a") },
    });
    assert_eq!(g, expected);
}

#[test]
fn edge_has_the_expected_shape() {
    let g = parse_to_ast("(let a = <a> in <a> | 0, let b = <b> in <b> | 0)".to_owned()).unwrap();
    match g {
        Graph::EdgeAnon(e) => {
            for (b, n) in [(&e.binding_1, "a"), (&e.binding_2, "b")] {
                assert_eq!(b.var, n);
                assert_eq!(b.vertex, Vertex { name: vvar(n) });
                assert_eq!(
                    *b.graph,
                    Graph::Vertex(GVertex {
                        graph: Box::new(Graph::Nil),
                        vertex: Vertex { name: vvar(n) },
                    })
                );
            }
        }
        other => panic!("expected an edge, got {:?}", other),
    }
}

#[test]
fn unterminated_vertex_is_reported_where_it_breaks() {
    assert_eq!(position_of(parse_to_ast("<a | 0".to_owned())), 3);
    assert_eq!(position_of(parse_to_ast("let a = <a in 0".to_owned())), 11);
    assert_eq!(position_of(parse_to_ast("<a".to_owned())), 2);
}

#[test]
fn other_parse_errors() {
    assert_eq!(position_of(parse_to_ast("".to_owned())), 0);
    assert_eq!(position_of(parse_to_ast("0 0".to_owned())), 2);
    assert_eq!(position_of(parse_to_ast("let | 0".to_owned())), 4);
    assert_eq!(position_of(parse_to_ast("Big | 0".to_owned())), 0);
    assert_eq!(position_of(parse_to_ast("context \"a\0\" for a in 0".to_owned())), 10);
    assert_eq!(position_of(parse_to_ast("context \"open for a in 0".to_owned())), 24);
}

#[test]
fn every_form_round_trips() {
    for text in [
        "0",
        "<a> | 0",
        "x | 0",
        "let a = <a> in <a> | 0",
        "(let a = <a> in 0, let b = <b> in 0)",
        "edge e (let a = <a> in 0, let b = <b> in 0)",
        "rule (<a> | 0 => 0)",
        "rule R (0 => <b> | 0)",
        "let G = <a> | 0 in 0",
        "tensor (<a> | 0, 0)",
        "context \"x\" for A in 0",
        "<_> | 0",
        "<@{<a> | 0}> | 0",
        "<@<b>> | 0",
        "<Big> | 0",
        "{ (let va = <a> in <a> | 0, let vb = <b> in <b> | 0) }",
    ] {
        round_trip(text);
    }
}

#[test]
fn printer_writes_the_canonical_text() {
    assert_eq!(print("{ <a>|{0} }").unwrap(), "<a> | 0");
    assert_eq!(
        print("(let a=<a> in 0,let b=<b> in e|0)").unwrap(),
        "(let a = <a> in 0, let b = <b> in e | 0)"
    );
    assert_eq!(print("rule r(0=>0)").unwrap(), "rule r (0 => 0)");
    assert_eq!(print("tensor(0,0)").unwrap(), "tensor (0, 0)");
    assert_eq!(print("let X=0 in 0").unwrap(), "let X = 0 in 0");
    assert_eq!(print("edge _ (let a = <a> in 0, let b = <b> in 0)").unwrap(),
        "edge _ (let a = <a> in 0, let b = <b> in 0)");
    assert!(matches!(print("<a"), Err(Error::ParseError { position: 2, .. })));
}

#[test]
fn context_strings_keep_quotes_backslashes_and_placeholders() {
    let text = r#"context "say \"hi\" \\ %inner" for a in 0"#;
    let g = parse_to_ast(text.to_owned()).unwrap();
    match &g {
        Graph::Context(c) => assert_eq!(c.string, r#"say "hi" \ %inner"#),
        other => panic!("expected a context, got {:?}", other),
    }
    let printed = ast_to_graphl(parse_to_ast(text.to_owned()).unwrap()).unwrap();
    assert_eq!(printed, text);
    assert_eq!(parse_to_ast(printed).unwrap(), g);
}

#[test]
fn printer_refuses_bad_identifiers() {
    let upper_var = Graph::Var(GVar { graph: Box::new(Graph::Nil), var: "Bad".to_owned() });
    assert!(matches!(ast_to_graphl(upper_var), Err(Error::InvalidIdentifier { .. })));

    let keyword_var = Graph::Var(GVar { graph: Box::new(Graph::Nil), var: "let".to_owned() });
    assert!(matches!(ast_to_graphl(keyword_var), Err(Error::InvalidIdentifier { .. })));

    let empty_name = Graph::Vertex(GVertex {
        graph: Box::new(Graph::Nil),
        vertex: Vertex { name: vvar("") },
    });
    assert!(matches!(ast_to_graphl(empty_name), Err(Error::InvalidIdentifier { .. })));
}

#[test]
fn printer_refuses_nul_in_context_strings() {
    let g = Graph::Context(GContext {
        graph: Box::new(Graph::Nil),
        name: vvar("a"),
        string: "ab\0c".to_owned(),
    });
    assert_eq!(ast_to_graphl(g), Err(Error::InvalidCString { position: 2 }));
}

#[test]
fn printer_prints_a_built_tree() {
    let g = Graph::Context(GContext {
        graph: Box::new(Graph::Nil),
        name: Name::QuoteVertex { value: Box::new(Vertex { name: Name::Wildcard }) },
        string: "k=v".to_owned(),
    });
    assert_eq!(ast_to_graphl(g).unwrap(), "context \"k=v\" for @<_> in 0");
}

fn chain(n: usize) -> Graph {
    let mut g = Graph::Nil;
    for _ in 0..n {
        g = Graph::Nominate(Binding {
            graph: Box::new(g),
            var: "a".to_owned(),
            vertex: Vertex { name: vvar("a") },
        });
    }
    g
}

fn dismantle(mut g: Graph) {
    loop {
        match g {
            Graph::Nominate(b) => g = *b.graph,
            _ => break,
        }
    }
}

#[test]
fn deep_chains_are_walked_without_recursion() {
    let n = 50_000;
    let g = chain(n);
    assert_eq!(count_nodes(&g), n + 1);
    let tags = Walker::new(&g).visit(XmlVisitor, Tags::new());
    assert_eq!(tags.left.len(), n + 1);
    assert_eq!(tags.left[n], "<nil/>\n");
    dismantle(g);
}

#[test]
fn deep_chains_are_printed_without_recursion() {
    let n = 50_000;
    let g = chain(n);
    assert_eq!(check_tree(&g), Ok(()));
    let text = print_graph(&g);
    assert_eq!(text.len(), n * "let a = <a> in ".len() + 1);
    assert!(text.starts_with("let a = <a> in let a = <a> in "));
    assert!(text.ends_with("in 0"));
    dismantle(g);
}

#[test]
fn count_includes_both_ends_of_an_edge() {
    let g = parse_to_ast("(let a = <a> in <a> | 0, let b = <b> in 0)".to_owned()).unwrap();
    assert_eq!(count_nodes(&g), 6);
}
