//! The recursive-descent parser, proved to compute the grammar of
//! `crate::grammar` exactly.
use vstd::prelude::*;

use crate::ast::{
    Binding, GContext, GEdgeAnon, GEdgeNamed, GRuleAnon, GRuleNamed, GTensor, GVar, GVertex, Graph,
    GraphBinding, Name, Vertex,
};
use crate::grammar::{
    lemma_ident_len, parse_binding, parse_binding_body, parse_edge_body, parse_graph,
    parse_graph_pair, parse_keyword_graph, parse_name, parse_vertex, PResult,
};
use crate::lexer::{
    expect_char_at, expect_word_at, ident_end, is_keyword_at, is_lower_char, is_upper_char,
    lemma_keyword_literals, lemma_skip_step, parse_string_at, skip_ws_at, string_of, word_eq,
};
use crate::model::{BindingM, GraphM, NameM};
use crate::syntax::all_ident_chars;

verus! {

/// `r` is the exec form of the spec result `p` on the input `s`: the same
/// value and rest, or an error at the same place.
pub open spec fn same_result<T, M>(r: Result<(T, usize), usize>, p: PResult<M>, s: Seq<char>, view: spec_fn(T) -> M) -> bool {
    match r {
        Ok((v, j)) => j <= s.len() && p == Ok::<(M, Seq<char>), nat>((view(v), s.skip(j as int))),
        Err(e) => e <= s.len() && p == Err::<(M, Seq<char>), nat>((s.len() - e) as nat),
    }
}

pub open spec fn name_view() -> spec_fn(Name) -> NameM {
    |n: Name| n@
}

pub open spec fn vertex_view() -> spec_fn(Vertex) -> NameM {
    |v: Vertex| v@
}

pub open spec fn binding_view() -> spec_fn(Binding) -> BindingM {
    |b: Binding| b@
}

pub open spec fn graph_view() -> spec_fn(Graph) -> GraphM {
    |g: Graph| g@
}

pub open spec fn binding_pair_view() -> spec_fn((Binding, Binding)) -> (BindingM, BindingM) {
    |p: (Binding, Binding)| (p.0@, p.1@)
}

pub open spec fn graph_pair_view() -> spec_fn((Graph, Graph)) -> (GraphM, GraphM) {
    |p: (Graph, Graph)| (p.0@, p.1@)
}

pub fn parse_name_at(s: &Vec<char>, i: usize) -> (r: Result<(Name, usize), usize>)
    requires
        i <= s.len(),
    ensures
        same_result(r, parse_name(s@.skip(i as int)), s@, name_view()),
    decreases s.len() - i, 1nat,
{
    let t = skip_ws_at(s, i);
    if t >= s.len() {
        return Err(s.len());
    }
    proof {
        lemma_skip_step(s@, t as int);
    }
    if s[t] == '_' {
        return Ok((Name::Wildcard, t + 1));
    }
    if s[t] == '@' {
        let u = skip_ws_at(s, t + 1);
        if u < s.len() && s[u] == '{' {
            proof {
                lemma_skip_step(s@, u as int);
            }
            match parse_graph_at(s, u + 1) {
                Err(e) => Err(e),
                Ok((g, r)) => match expect_char_at(s, r, '}') {
                    Err(e) => Err(e),
                    Ok(r2) => Ok((Name::QuoteGraph { value: Box::new(g) }, r2)),
                },
            }
        } else {
            match parse_vertex_at(s, t + 1) {
                Err(e) => Err(e),
                Ok((v, r)) => Ok((Name::QuoteVertex { value: Box::new(v) }, r)),
            }
        }
    } else {
        let e = ident_end(s, t);
        proof {
            lemma_ident_len(s@.skip(t as int));
        }
        if e > t && is_lower_char(s[t]) && !is_keyword_at(s, t, e) {
            Ok((Name::VVar { value: string_of(s, t, e) }, e))
        } else if e > t && is_upper_char(s[t]) {
            Ok((Name::GVar { value: string_of(s, t, e) }, e))
        } else {
            Err(t)
        }
    }
}

pub fn parse_vertex_at(s: &Vec<char>, i: usize) -> (r: Result<(Vertex, usize), usize>)
    requires
        i <= s.len(),
    ensures
        same_result(r, parse_vertex(s@.skip(i as int)), s@, vertex_view()),
    decreases s.len() - i, 2nat,
{
    match expect_char_at(s, i, '<') {
        Err(e) => Err(e),
        Ok(r) => match parse_name_at(s, r) {
            Err(e) => Err(e),
            Ok((n, r2)) => match expect_char_at(s, r2, '>') {
                Err(e) => Err(e),
                Ok(r3) => Ok((Vertex { name: n }, r3)),
            },
        },
    }
}

/// What follows `let` in a binding.
pub fn parse_binding_body_at(s: &Vec<char>, i: usize) -> (r: Result<(Binding, usize), usize>)
    requires
        i <= s.len(),
    ensures
        same_result(r, parse_binding_body(s@.skip(i as int)), s@, binding_view()),
    decreases s.len() - i, 2nat,
{
    let t = skip_ws_at(s, i);
    let e = ident_end(s, t);
    proof {
        lemma_ident_len(s@.skip(t as int));
        lemma_keyword_literals();
    }
    if !(e > t && is_lower_char(s[t]) && !is_keyword_at(s, t, e)) {
        if e > t {
            proof {
                lemma_skip_step(s@, t as int);
            }
        }
        return Err(t);
    }
    proof {
        lemma_skip_step(s@, t as int);
    }
    match expect_char_at(s, e, '=') {
        Err(x) => Err(x),
        Ok(r1) => match parse_vertex_at(s, r1) {
            Err(x) => Err(x),
            Ok((v, r2)) => match expect_word_at(s, r2, "in") {
                Err(x) => Err(x),
                Ok(r3) => if r3 > i {
                    match parse_graph_at(s, r3) {
                        Err(x) => Err(x),
                        Ok((g, r4)) => Ok(
                            (Binding { graph: Box::new(g), var: string_of(s, t, e), vertex: v }, r4),
                        ),
                    }
                } else {
                    Err(r3)
                },
            },
        },
    }
}

pub fn parse_binding_at(s: &Vec<char>, i: usize) -> (r: Result<(Binding, usize), usize>)
    requires
        i <= s.len(),
    ensures
        same_result(r, parse_binding(s@.skip(i as int)), s@, binding_view()),
    decreases s.len() - i, 3nat,
{
    proof {
        lemma_keyword_literals();
    }
    match expect_word_at(s, i, "let") {
        Err(e) => Err(e),
        Ok(r) => parse_binding_body_at(s, r),
    }
}

/// `binding , binding )`.
pub fn parse_edge_body_at(s: &Vec<char>, i: usize) -> (r: Result<((Binding, Binding), usize), usize>)
    requires
        i <= s.len(),
    ensures
        same_result(r, parse_edge_body(s@.skip(i as int)), s@, binding_pair_view()),
    decreases s.len() - i, 4nat,
{
    match parse_binding_at(s, i) {
        Err(e) => Err(e),
        Ok((b1, r1)) => match expect_char_at(s, r1, ',') {
            Err(e) => Err(e),
            Ok(r2) => if r2 > i {
                match parse_binding_at(s, r2) {
                    Err(e) => Err(e),
                    Ok((b2, r3)) => match expect_char_at(s, r3, ')') {
                        Err(e) => Err(e),
                        Ok(r4) => Ok(((b1, b2), r4)),
                    },
                }
            } else {
                Err(r2)
            },
        },
    }
}

/// `( graph sep graph )`, with `=>` or `,` between.
pub fn parse_graph_pair_at(s: &Vec<char>, i: usize, arrow: bool) -> (r: Result<((Graph, Graph), usize), usize>)
    requires
        i <= s.len(),
    ensures
        same_result(r, parse_graph_pair(s@.skip(i as int), arrow), s@, graph_pair_view()),
    decreases s.len() - i, 2nat,
{
    match expect_char_at(s, i, '(') {
        Err(e) => Err(e),
        Ok(r0) => match parse_graph_at(s, r0) {
            Err(e) => Err(e),
            Ok((g1, r1)) => {
                let sep = if arrow {
                    match expect_char_at(s, r1, '=') {
                        Err(e) => Err(e),
                        Ok(r) => expect_char_at(s, r, '>'),
                    }
                } else {
                    expect_char_at(s, r1, ',')
                };
                match sep {
                    Err(e) => Err(e),
                    Ok(r2) => if r2 > i {
                        match parse_graph_at(s, r2) {
                            Err(e) => Err(e),
                            Ok((g2, r3)) => match expect_char_at(s, r3, ')') {
                                Err(e) => Err(e),
                                Ok(r4) => Ok(((g1, g2), r4)),
                            },
                        }
                    } else {
                        Err(r2)
                    },
                }
            },
        },
    }
}

/// What follows the keyword `s[ws..we]` that starts a graph; `i` is `we`.
#[verifier::rlimit(80)]
pub fn parse_keyword_graph_at(s: &Vec<char>, ws: usize, i: usize) -> (r: Result<(Graph, usize), usize>)
    requires
        ws < i <= s.len(),
        all_ident_chars(s@.subrange(ws as int, i as int)),
    ensures
        same_result(
            r,
            parse_keyword_graph(s@.subrange(ws as int, i as int), s@.skip(i as int)),
            s@,
            graph_view(),
        ),
    decreases s.len() - i, 5nat,
{
    proof {
        lemma_keyword_literals();
    }
    let t = skip_ws_at(s, i);
    if t < s.len() {
        proof {
            lemma_skip_step(s@, t as int);
        }
    }
    if word_eq(s, ws, i, "let") {
        if t < s.len() && is_upper_char(s[t]) {
            let e = ident_end(s, t);
            proof {
                lemma_ident_len(s@.skip(t as int));
            }
            match expect_char_at(s, e, '=') {
                Err(x) => Err(x),
                Ok(r1) => match parse_graph_at(s, r1) {
                    Err(x) => Err(x),
                    Ok((g1, r2)) => match expect_word_at(s, r2, "in") {
                        Err(x) => Err(x),
                        Ok(r3) => if r3 > i {
                            match parse_graph_at(s, r3) {
                                Err(x) => Err(x),
                                Ok((g2, r4)) => Ok(
                                    (
                                        Graph::Subgraph(
                                            GraphBinding {
                                                graph_1: Box::new(g1),
                                                graph_2: Box::new(g2),
                                                var: string_of(s, t, e),
                                            },
                                        ),
                                        r4,
                                    ),
                                ),
                            }
                        } else {
                            Err(r3)
                        },
                    },
                },
            }
        } else {
            match parse_binding_body_at(s, i) {
                Err(x) => Err(x),
                Ok((b, r)) => Ok((Graph::Nominate(b), r)),
            }
        }
    } else if word_eq(s, ws, i, "context") {
        match parse_string_at(s, i) {
            Err(x) => Err(x),
            Ok((text, r1)) => match expect_word_at(s, r1, "for") {
                Err(x) => Err(x),
                Ok(r2) => if r2 > i {
                    match parse_name_at(s, r2) {
                        Err(x) => Err(x),
                        Ok((n, r3)) => match expect_word_at(s, r3, "in") {
                            Err(x) => Err(x),
                            Ok(r4) => if r4 > i {
                                match parse_graph_at(s, r4) {
                                    Err(x) => Err(x),
                                    Ok((g, r5)) => Ok(
                                        (
                                            Graph::Context(
                                                GContext { graph: Box::new(g), name: n, string: text },
                                            ),
                                            r5,
                                        ),
                                    ),
                                }
                            } else {
                                Err(r4)
                            },
                        },
                    }
                } else {
                    Err(r2)
                },
            },
        }
    } else if word_eq(s, ws, i, "edge") {
        match parse_name_at(s, i) {
            Err(x) => Err(x),
            Ok((n, r1)) => match expect_char_at(s, r1, '(') {
                Err(x) => Err(x),
                Ok(r2) => if r2 > i {
                    match parse_edge_body_at(s, r2) {
                        Err(x) => Err(x),
                        Ok(((b1, b2), r3)) => Ok(
                            (
                                Graph::EdgeNamed(
                                    GEdgeNamed { binding_1: b1, binding_2: b2, name: n },
                                ),
                                r3,
                            ),
                        ),
                    }
                } else {
                    Err(r2)
                },
            },
        }
    } else if word_eq(s, ws, i, "rule") {
        if t < s.len() && s[t] == '(' {
            match parse_graph_pair_at(s, i, true) {
                Err(x) => Err(x),
                Ok(((g1, g2), r)) => Ok(
                    (Graph::RuleAnon(GRuleAnon { graph_1: Box::new(g1), graph_2: Box::new(g2) }), r),
                ),
            }
        } else {
            match parse_name_at(s, i) {
                Err(x) => Err(x),
                Ok((n, r1)) => if r1 > i {
                    match parse_graph_pair_at(s, r1, true) {
                        Err(x) => Err(x),
                        Ok(((g1, g2), r2)) => Ok(
                            (
                                Graph::RuleNamed(
                                    GRuleNamed {
                                        graph_1: Box::new(g1),
                                        graph_2: Box::new(g2),
                                        name: n,
                                    },
                                ),
                                r2,
                            ),
                        ),
                    }
                } else {
                    Err(r1)
                },
            }
        }
    } else if word_eq(s, ws, i, "tensor") {
        match parse_graph_pair_at(s, i, false) {
            Err(x) => Err(x),
            Ok(((g1, g2), r)) => Ok(
                (Graph::Tensor(GTensor { graph_1: Box::new(g1), graph_2: Box::new(g2) }), r),
            ),
        }
    } else if is_lower_char(s[ws]) && !is_keyword_at(s, ws, i) {
        match expect_char_at(s, i, '|') {
            Err(x) => Err(x),
            Ok(r1) => match parse_graph_at(s, r1) {
                Err(x) => Err(x),
                Ok((g, r2)) => Ok((Graph::Var(GVar { graph: Box::new(g), var: string_of(s, ws, i) }), r2)),
            },
        }
    } else {
        Err(ws)
    }
}

pub fn parse_graph_at(s: &Vec<char>, i: usize) -> (r: Result<(Graph, usize), usize>)
    requires
        i <= s.len(),
    ensures
        same_result(r, parse_graph(s@.skip(i as int)), s@, graph_view()),
    decreases s.len() - i, 6nat,
{
    let t = skip_ws_at(s, i);
    if t >= s.len() {
        return Err(s.len());
    }
    proof {
        lemma_skip_step(s@, t as int);
    }
    let c = s[t];
    if c == '0' {
        Ok((Graph::Nil, t + 1))
    } else if c == '{' {
        match parse_graph_at(s, t + 1) {
            Err(e) => Err(e),
            Ok((g, r)) => match expect_char_at(s, r, '}') {
                Err(e) => Err(e),
                Ok(r2) => Ok((g, r2)),
            },
        }
    } else if c == '<' {
        match parse_vertex_at(s, t) {
            Err(e) => Err(e),
            Ok((v, r)) => match expect_char_at(s, r, '|') {
                Err(e) => Err(e),
                Ok(r2) => if r2 > i {
                    match parse_graph_at(s, r2) {
                        Err(e) => Err(e),
                        Ok((g, r3)) => Ok((Graph::Vertex(GVertex { graph: Box::new(g), vertex: v }), r3)),
                    }
                } else {
                    Err(r2)
                },
            },
        }
    } else if c == '(' {
        match parse_edge_body_at(s, t + 1) {
            Err(e) => Err(e),
            Ok(((b1, b2), r)) => Ok((Graph::EdgeAnon(GEdgeAnon { binding_1: b1, binding_2: b2 }), r)),
        }
    } else {
        let e = ident_end(s, t);
        proof {
            lemma_ident_len(s@.skip(t as int));
        }
        if e == t {
            Err(t)
        } else {
            parse_keyword_graph_at(s, t, e)
        }
    }
}

} // verus!
