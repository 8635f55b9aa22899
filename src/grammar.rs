//! The grammar of GraphL as recursive-descent spec functions.
//!
//! Each function reads a prefix of `s` and returns what it read with the
//! rest of the input, or `Err(k)` where `k` is the number of characters left
//! at the point of failure. A recursive call on what an earlier call left is
//! made only where that rest is shorter than `s`; this keeps the recursion
//! well founded, and it always holds, since every production reads at least
//! one character.
use vstd::prelude::*;

use crate::model::{BindingM, GraphM, NameM};
use crate::syntax::{
    is_ident_char, is_lvar, is_upper, is_uvar, is_ws, kw_context, kw_edge, kw_for, kw_in, kw_let,
    kw_rule, kw_tensor, all_ident_chars,
};

verus! {

pub type PResult<T> = Result<(T, Seq<char>), nat>;

pub open spec fn skip_ws(s: Seq<char>) -> Seq<char>
    decreases s.len(),
{
    if s.len() > 0 && is_ws(s[0]) {
        skip_ws(s.drop_first())
    } else {
        s
    }
}

pub proof fn lemma_skip_ws_len(s: Seq<char>)
    ensures
        skip_ws(s).len() <= s.len(),
    decreases s.len(),
{
    if s.len() > 0 && is_ws(s[0]) {
        lemma_skip_ws_len(s.drop_first());
    }
}

/// The length of the identifier that `s` starts with.
pub open spec fn ident_len(s: Seq<char>) -> nat
    decreases s.len(),
{
    if s.len() > 0 && is_ident_char(s[0]) {
        1 + ident_len(s.drop_first())
    } else {
        0
    }
}

pub proof fn lemma_ident_len(s: Seq<char>)
    ensures
        ident_len(s) <= s.len(),
        all_ident_chars(s.take(ident_len(s) as int)),
        ident_len(s) < s.len() ==> !is_ident_char(s[ident_len(s) as int]),
    decreases s.len(),
{
    if s.len() > 0 && is_ident_char(s[0]) {
        lemma_ident_len(s.drop_first());
        let n = ident_len(s) as int;
        assert forall|i: int| 0 <= i < n implies #[trigger] is_ident_char(s.take(n)[i]) by {
            if i > 0 {
                assert(s.take(n)[i] == s.drop_first().take(n - 1)[i - 1]);
            }
        }
    }
}

/// The next token is the character `c`.
pub open spec fn expect_char(s: Seq<char>, c: char) -> Result<Seq<char>, nat> {
    let t = skip_ws(s);
    if t.len() > 0 && t[0] == c {
        Ok(t.drop_first())
    } else {
        Err(t.len())
    }
}

/// The next token is the word `w`.
pub open spec fn expect_word(s: Seq<char>, w: Seq<char>) -> Result<Seq<char>, nat> {
    let t = skip_ws(s);
    let n = ident_len(t);
    if n <= t.len() && t.take(n as int) == w {
        Ok(t.skip(n as int))
    } else {
        Err(t.len())
    }
}

pub proof fn lemma_expect_len(s: Seq<char>, c: char, w: Seq<char>)
    ensures
        expect_char(s, c) matches Ok(r) ==> r.len() < s.len(),
        w.len() > 0 ==> (expect_word(s, w) matches Ok(r) ==> r.len() < s.len()),
{
    lemma_skip_ws_len(s);
    lemma_ident_len(skip_ws(s));
}

/// The characters of a string literal after its opening quote, appended to `acc`.
pub open spec fn string_body(s: Seq<char>, acc: Seq<char>) -> PResult<Seq<char>>
    decreases s.len(),
{
    if s.len() == 0 {
        Err(0)
    } else if s[0] == '"' {
        Ok((acc, s.drop_first()))
    } else if s[0] == '\0' {
        Err(s.len())
    } else if s[0] == '\\' {
        if s.len() >= 2 && (s[1] == '"' || s[1] == '\\') {
            string_body(s.skip(2), acc.push(s[1]))
        } else {
            Err(s.len())
        }
    } else {
        string_body(s.drop_first(), acc.push(s[0]))
    }
}

pub open spec fn parse_string(s: Seq<char>) -> PResult<Seq<char>> {
    let t = skip_ws(s);
    if t.len() > 0 && t[0] == '"' {
        string_body(t.drop_first(), Seq::empty())
    } else {
        Err(t.len())
    }
}

pub open spec fn parse_name(s: Seq<char>) -> PResult<NameM>
    decreases s.len(), 1nat,
{
    let t = skip_ws(s);
    proof {
        lemma_skip_ws_len(s);
    }
    if t.len() == 0 {
        Err(0)
    } else if t[0] == '_' {
        Ok((NameM::Wildcard, t.drop_first()))
    } else if t[0] == '@' {
        let u = skip_ws(t.drop_first());
        proof {
            lemma_skip_ws_len(t.drop_first());
        }
        if u.len() > 0 && u[0] == '{' {
            match parse_graph(u.drop_first()) {
                Err(e) => Err(e),
                Ok((g, r)) => match expect_char(r, '}') {
                    Err(e) => Err(e),
                    Ok(r2) => Ok((NameM::QuoteGraph(Box::new(g)), r2)),
                },
            }
        } else {
            match parse_vertex(t.drop_first()) {
                Err(e) => Err(e),
                Ok((n, r)) => Ok((NameM::QuoteVertex(Box::new(n)), r)),
            }
        }
    } else {
        let n = ident_len(t);
        proof {
            lemma_ident_len(t);
        }
        let w = t.take(n as int);
        if is_lvar(w) {
            Ok((NameM::VVar(w), t.skip(n as int)))
        } else if is_uvar(w) {
            Ok((NameM::GVar(w), t.skip(n as int)))
        } else {
            Err(t.len())
        }
    }
}

/// `< name >`, giving the name.
pub open spec fn parse_vertex(s: Seq<char>) -> PResult<NameM>
    decreases s.len(), 2nat,
{
    match expect_char(s, '<') {
        Err(e) => Err(e),
        Ok(r) => {
            proof {
                lemma_expect_len(s, '<', Seq::empty());
            }
            match parse_name(r) {
                Err(e) => Err(e),
                Ok((n, r2)) => match expect_char(r2, '>') {
                    Err(e) => Err(e),
                    Ok(r3) => Ok((n, r3)),
                },
            }
        }
    }
}

/// What follows `let` in a binding: `lvar = vertex in graph`.
pub open spec fn parse_binding_body(s: Seq<char>) -> PResult<BindingM>
    decreases s.len(), 2nat,
{
    let t = skip_ws(s);
    let n = ident_len(t);
    let w = t.take(n as int);
    proof {
        lemma_skip_ws_len(s);
        lemma_ident_len(t);
        lemma_expect_len(t.skip(n as int), '=', Seq::empty());
    }
    if !is_lvar(w) {
        Err(t.len())
    } else {
        match expect_char(t.skip(n as int), '=') {
            Err(e) => Err(e),
            Ok(r1) => match parse_vertex(r1) {
                Err(e) => Err(e),
                Ok((v, r2)) => match expect_word(r2, kw_in()) {
                    Err(e) => Err(e),
                    Ok(r3) => if r3.len() < s.len() {
                        match parse_graph(r3) {
                            Err(e) => Err(e),
                            Ok((g, r4)) => Ok((BindingM { var: w, vertex: v, graph: Box::new(g) }, r4)),
                        }
                    } else {
                        Err(r3.len())
                    },
                },
            },
        }
    }
}

pub open spec fn parse_binding(s: Seq<char>) -> PResult<BindingM>
    decreases s.len(), 3nat,
{
    match expect_word(s, kw_let()) {
        Err(e) => Err(e),
        Ok(r) => {
            proof {
                lemma_expect_len(s, ' ', kw_let());
            }
            parse_binding_body(r)
        }
    }
}

/// `binding , binding )`: the two ends of an edge and what follows them.
pub open spec fn parse_edge_body(s: Seq<char>) -> PResult<(BindingM, BindingM)>
    decreases s.len(), 4nat,
{
    match parse_binding(s) {
        Err(e) => Err(e),
        Ok((b1, r1)) => match expect_char(r1, ',') {
            Err(e) => Err(e),
            Ok(r2) => if r2.len() < s.len() {
                match parse_binding(r2) {
                    Err(e) => Err(e),
                    Ok((b2, r3)) => match expect_char(r3, ')') {
                        Err(e) => Err(e),
                        Ok(r4) => Ok(((b1, b2), r4)),
                    },
                }
            } else {
                Err(r2.len())
            },
        },
    }
}

/// `( graph sep graph )`, where `sep` is `=>` for a rule and `,` for a tensor.
pub open spec fn parse_graph_pair(s: Seq<char>, arrow: bool) -> PResult<(GraphM, GraphM)>
    decreases s.len(), 2nat,
{
    match expect_char(s, '(') {
        Err(e) => Err(e),
        Ok(r0) => {
            proof {
                lemma_expect_len(s, '(', Seq::empty());
            }
            match parse_graph(r0) {
                Err(e) => Err(e),
                Ok((g1, r1)) => {
                    let sep = if arrow {
                        match expect_char(r1, '=') {
                            Err(e) => Err(e),
                            Ok(r) => expect_char(r, '>'),
                        }
                    } else {
                        expect_char(r1, ',')
                    };
                    match sep {
                        Err(e) => Err(e),
                        Ok(r2) => if r2.len() < s.len() {
                            match parse_graph(r2) {
                                Err(e) => Err(e),
                                Ok((g2, r3)) => match expect_char(r3, ')') {
                                    Err(e) => Err(e),
                                    Ok(r4) => Ok(((g1, g2), r4)),
                                },
                            }
                        } else {
                            Err(r2.len())
                        },
                    }
                },
            }
        },
    }
}

/// What follows the keyword that starts a graph.
pub open spec fn parse_keyword_graph(w: Seq<char>, s: Seq<char>) -> PResult<GraphM>
    decreases s.len(), 5nat,
{
    let t = skip_ws(s);
    proof {
        lemma_skip_ws_len(s);
        lemma_expect_len(s, ' ', kw_for());
    }
    if w == kw_let() {
        if t.len() > 0 && is_upper(t[0]) {
            let n = ident_len(t);
            proof {
                lemma_ident_len(t);
                lemma_expect_len(t.skip(n as int), '=', Seq::empty());
            }
            let v = t.take(n as int);
            match expect_char(t.skip(n as int), '=') {
                Err(e) => Err(e),
                Ok(r1) => match parse_graph(r1) {
                    Err(e) => Err(e),
                    Ok((g1, r2)) => match expect_word(r2, kw_in()) {
                        Err(e) => Err(e),
                        Ok(r3) => if r3.len() < s.len() {
                            match parse_graph(r3) {
                                Err(e) => Err(e),
                                Ok((g2, r4)) => Ok((GraphM::Subgraph(v, Box::new(g1), Box::new(g2)), r4)),
                            }
                        } else {
                            Err(r3.len())
                        },
                    },
                },
            }
        } else {
            match parse_binding_body(s) {
                Err(e) => Err(e),
                Ok((b, r)) => Ok((GraphM::Nominate(b), r)),
            }
        }
    } else if w == kw_context() {
        match parse_string(s) {
            Err(e) => Err(e),
            Ok((text, r1)) => match expect_word(r1, kw_for()) {
                Err(e) => Err(e),
                Ok(r2) => if r2.len() < s.len() {
                    match parse_name(r2) {
                        Err(e) => Err(e),
                        Ok((n, r3)) => match expect_word(r3, kw_in()) {
                            Err(e) => Err(e),
                            Ok(r4) => if r4.len() < s.len() {
                                match parse_graph(r4) {
                                    Err(e) => Err(e),
                                    Ok((g, r5)) => Ok((GraphM::Context(n, text, Box::new(g)), r5)),
                                }
                            } else {
                                Err(r4.len())
                            },
                        },
                    }
                } else {
                    Err(r2.len())
                },
            },
        }
    } else if w == kw_edge() {
        match parse_name(s) {
            Err(e) => Err(e),
            Ok((n, r1)) => match expect_char(r1, '(') {
                Err(e) => Err(e),
                Ok(r2) => if r2.len() < s.len() {
                    match parse_edge_body(r2) {
                        Err(e) => Err(e),
                        Ok(((b1, b2), r3)) => Ok((GraphM::EdgeNamed(n, b1, b2), r3)),
                    }
                } else {
                    Err(r2.len())
                },
            },
        }
    } else if w == kw_rule() {
        if t.len() > 0 && t[0] == '(' {
            match parse_graph_pair(s, true) {
                Err(e) => Err(e),
                Ok(((g1, g2), r)) => Ok((GraphM::RuleAnon(Box::new(g1), Box::new(g2)), r)),
            }
        } else {
            match parse_name(s) {
                Err(e) => Err(e),
                Ok((n, r1)) => if r1.len() < s.len() {
                    match parse_graph_pair(r1, true) {
                        Err(e) => Err(e),
                        Ok(((g1, g2), r2)) => Ok(
                            (GraphM::RuleNamed(n, Box::new(g1), Box::new(g2)), r2),
                        ),
                    }
                } else {
                    Err(r1.len())
                },
            }
        }
    } else if w == kw_tensor() {
        match parse_graph_pair(s, false) {
            Err(e) => Err(e),
            Ok(((g1, g2), r)) => Ok((GraphM::Tensor(Box::new(g1), Box::new(g2)), r)),
        }
    } else if is_lvar(w) {
        match expect_char(s, '|') {
            Err(e) => Err(e),
            Ok(r1) => match parse_graph(r1) {
                Err(e) => Err(e),
                Ok((g, r2)) => Ok((GraphM::Var(w, Box::new(g)), r2)),
            },
        }
    } else {
        Err(w.len() + s.len())
    }
}

pub open spec fn parse_graph(s: Seq<char>) -> PResult<GraphM>
    decreases s.len(), 6nat,
{
    let t = skip_ws(s);
    proof {
        lemma_skip_ws_len(s);
    }
    if t.len() == 0 {
        Err(0)
    } else if t[0] == '0' {
        Ok((GraphM::Nil, t.drop_first()))
    } else if t[0] == '{' {
        match parse_graph(t.drop_first()) {
            Err(e) => Err(e),
            Ok((g, r)) => match expect_char(r, '}') {
                Err(e) => Err(e),
                Ok(r2) => Ok((g, r2)),
            },
        }
    } else if t[0] == '<' {
        match parse_vertex(t) {
            Err(e) => Err(e),
            Ok((n, r)) => match expect_char(r, '|') {
                Err(e) => Err(e),
                Ok(r2) => if r2.len() < s.len() {
                    match parse_graph(r2) {
                        Err(e) => Err(e),
                        Ok((g, r3)) => Ok((GraphM::Vertex(n, Box::new(g)), r3)),
                    }
                } else {
                    Err(r2.len())
                },
            },
        }
    } else if t[0] == '(' {
        match parse_edge_body(t.drop_first()) {
            Err(e) => Err(e),
            Ok(((b1, b2), r)) => Ok((GraphM::EdgeAnon(b1, b2), r)),
        }
    } else {
        let n = ident_len(t);
        proof {
            lemma_ident_len(t);
        }
        if n == 0 {
            Err(t.len())
        } else {
            parse_keyword_graph(t.take(n as int), t.skip(n as int))
        }
    }
}

/// A whole text: one graph, with nothing but whitespace after it. The error
/// gives the number of characters left where parsing failed.
pub open spec fn parse_text(s: Seq<char>) -> Result<GraphM, nat> {
    match parse_graph(s) {
        Err(e) => Err(e),
        Ok((g, r)) => {
            let t = skip_ws(r);
            if t.len() == 0 {
                Ok(g)
            } else {
                Err(t.len())
            }
        },
    }
}

} // verus!
