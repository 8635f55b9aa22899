//! Laws relating the parser and the printer.
use vstd::prelude::*;

use crate::grammar::{
    expect_char, expect_word, ident_len, lemma_ident_len, parse_binding, parse_binding_body,
    parse_edge_body, parse_graph, parse_graph_pair, parse_keyword_graph, parse_name, parse_string,
    parse_text, parse_vertex, skip_ws, string_body,
};
use crate::model::{BindingM, GraphM, NameM};
use crate::syntax::{
    all_ident_chars, binding_text, binding_wf, escape, graph_text, graph_wf, has_no_nul,
    is_ident_char, is_lvar, is_uvar, is_ws, kw_context, kw_edge, kw_for, kw_in, kw_let,
    kw_rule, kw_tensor, name_text, name_wf,
};

verus! {

pub open spec fn all_ws(p: Seq<char>) -> bool {
    forall|i: int| 0 <= i < p.len() ==> #[trigger] is_ws(p[i])
}

/// `x` cannot continue an identifier that ends just before it.
pub open spec fn ends_ident(x: Seq<char>) -> bool {
    x.len() > 0 ==> !is_ident_char(x[0])
}

proof fn lemma_skip_ws_prefix(p: Seq<char>, x: Seq<char>)
    requires
        all_ws(p),
    ensures
        skip_ws(p + x) == skip_ws(x),
    decreases p.len(),
{
    if p.len() == 0 {
        assert(p + x =~= x);
    } else {
        assert((p + x).drop_first() =~= p.drop_first() + x);
        assert(is_ws(p[0]));
        lemma_skip_ws_prefix(p.drop_first(), x);
    }
}

/// After whitespace `p`, the text starts with `x`, whose first character is
/// no whitespace.
proof fn lemma_skip_to(p: Seq<char>, x: Seq<char>)
    requires
        all_ws(p),
        x.len() > 0,
        !is_ws(x[0]),
    ensures
        skip_ws(p + x) == x,
{
    lemma_skip_ws_prefix(p, x);
}

proof fn lemma_ident_prefix(w: Seq<char>, x: Seq<char>)
    requires
        all_ident_chars(w),
        ends_ident(x),
    ensures
        ident_len(w + x) == w.len(),
        (w + x).take(w.len() as int) == w,
        (w + x).skip(w.len() as int) == x,
    decreases w.len(),
{
    if w.len() == 0 {
        assert(w + x =~= x);
    } else {
        assert((w + x).drop_first() =~= w.drop_first() + x);
        assert(is_ident_char(w[0]));
        assert(all_ident_chars(w.drop_first())) by {
            assert forall|i: int| 0 <= i < w.drop_first().len() implies #[trigger] is_ident_char(
                w.drop_first()[i],
            ) by {
                assert(is_ident_char(w[i + 1]));
            }
        }
        lemma_ident_prefix(w.drop_first(), x);
    }
    assert((w + x).take(w.len() as int) =~= w);
    assert((w + x).skip(w.len() as int) =~= x);
}

proof fn lemma_expect_char_rt(p: Seq<char>, c: char, x: Seq<char>)
    requires
        all_ws(p),
        !is_ws(c),
    ensures
        expect_char(p + seq![c] + x, c) == Ok::<Seq<char>, nat>(x),
{
    assert(p + seq![c] + x =~= p + (seq![c] + x));
    lemma_skip_to(p, seq![c] + x);
    assert((seq![c] + x).drop_first() =~= x);
}

proof fn lemma_expect_word_rt(p: Seq<char>, w: Seq<char>, x: Seq<char>)
    requires
        all_ws(p),
        w.len() > 0,
        all_ident_chars(w),
        ends_ident(x),
    ensures
        expect_word(p + w + x, w) == Ok::<Seq<char>, nat>(x),
{
    assert(is_ident_char(w[0]));
    assert(p + w + x =~= p + (w + x));
    lemma_skip_to(p, w + x);
    lemma_ident_prefix(w, x);
}

proof fn lemma_string_body_rt(t: Seq<char>, acc: Seq<char>, x: Seq<char>)
    requires
        has_no_nul(t),
    ensures
        string_body(escape(t) + seq!['"'] + x, acc) == Ok::<(Seq<char>, Seq<char>), nat>(
            (acc + t, x),
        ),
    decreases t.len(),
{
    let s = escape(t) + seq!['"'] + x;
    if t.len() == 0 {
        assert(escape(t) =~= Seq::<char>::empty());
        assert(s =~= seq!['"'] + x);
        assert(s.drop_first() =~= x);
        assert(acc + t =~= acc);
    } else {
        let c = t[0];
        let rest = t.drop_first();
        assert(has_no_nul(rest)) by {
            assert forall|i: int| 0 <= i < rest.len() implies rest[i] != '\0' by {
                assert(t[i + 1] != '\0');
            }
        }
        lemma_string_body_rt(rest, acc.push(c), x);
        assert(acc.push(c) + rest =~= acc + t);
        if c == '"' || c == '\\' {
            assert(s =~= seq!['\\', c] + (escape(rest) + seq!['"'] + x));
            assert(s.skip(2) =~= escape(rest) + seq!['"'] + x);
        } else {
            assert(s =~= seq![c] + (escape(rest) + seq!['"'] + x));
            assert(s.drop_first() =~= escape(rest) + seq!['"'] + x);
            assert(c != '\0');
        }
    }
}

proof fn lemma_lvar_not_keyword(v: Seq<char>)
    requires
        is_lvar(v),
    ensures
        v != kw_let(),
        v != kw_in(),
        v != kw_for(),
        v != kw_context(),
        v != kw_edge(),
        v != kw_rule(),
        v != kw_tensor(),
{
}

proof fn lemma_name_text_first(n: NameM)
    requires
        name_wf(n),
    ensures
        name_text(n).len() > 0,
        !is_ws(name_text(n)[0]),
        name_text(n)[0] != '(',
{
}

proof fn lemma_name_rt(n: NameM, p: Seq<char>, x: Seq<char>)
    requires
        name_wf(n),
        all_ws(p),
        ends_ident(x),
    ensures
        parse_name(p + name_text(n) + x) == Ok::<(NameM, Seq<char>), nat>((n, x)),
    decreases n, 0int,
{
    let s = p + name_text(n) + x;
    let t = name_text(n) + x;
    lemma_name_text_first(n);
    assert(s =~= p + t);
    lemma_skip_to(p, t);
    match n {
        NameM::Wildcard => {
            assert(t.drop_first() =~= x);
        },
        NameM::VVar(v) => {
            lemma_ident_prefix(v, x);
        },
        NameM::GVar(v) => {
            lemma_ident_prefix(v, x);
        },
        NameM::QuoteGraph(g) => {
            let gt = graph_text(*g);
            let u = seq!['{'] + gt + seq!['}'] + x;
            assert(t.drop_first() =~= u);
            lemma_skip_to(Seq::empty(), u);
            assert(Seq::<char>::empty() + u =~= u);
            assert(u.drop_first() =~= Seq::<char>::empty() + gt + (seq!['}'] + x));
            lemma_graph_rt(*g, Seq::empty(), seq!['}'] + x);
            assert(seq!['}'] + x =~= Seq::<char>::empty() + seq!['}'] + x);
            lemma_expect_char_rt(Seq::empty(), '}', x);
        },
        NameM::QuoteVertex(v) => {
            let u = seq!['<'] + name_text(*v) + seq!['>'] + x;
            assert(t.drop_first() =~= u);
            assert(Seq::<char>::empty() + u =~= u);
            lemma_skip_to(Seq::empty(), u);
            lemma_vertex_rt(*v, Seq::empty(), x);
        },
    }
}

proof fn lemma_vertex_rt(n: NameM, p: Seq<char>, x: Seq<char>)
    requires
        name_wf(n),
        all_ws(p),
    ensures
        parse_vertex(p + seq!['<'] + name_text(n) + seq!['>'] + x) == Ok::<(NameM, Seq<char>), nat>(
            (n, x),
        ),
    decreases n, 1int,
{
    let nt = name_text(n);
    let s = p + seq!['<'] + nt + seq!['>'] + x;
    assert(s =~= p + seq!['<'] + (nt + seq!['>'] + x));
    lemma_expect_char_rt(p, '<', nt + seq!['>'] + x);
    assert(nt + seq!['>'] + x =~= Seq::<char>::empty() + nt + (seq!['>'] + x));
    lemma_name_rt(n, Seq::empty(), seq!['>'] + x);
    assert(seq!['>'] + x =~= Seq::<char>::empty() + seq!['>'] + x);
    lemma_expect_char_rt(Seq::empty(), '>', x);
}

/// The text of a binding after its `let`.
pub open spec fn binding_body_text(b: BindingM) -> Seq<char> {
    b.var + seq![' ', '=', ' '] + seq!['<'] + name_text(b.vertex) + seq!['>'] + seq![' ', 'i', 'n', ' ']
        + graph_text(*b.graph)
}

proof fn lemma_binding_body_rt(b: BindingM, p: Seq<char>, x: Seq<char>)
    requires
        binding_wf(b),
        all_ws(p),
    ensures
        parse_binding_body(p + binding_body_text(b) + x) == Ok::<(BindingM, Seq<char>), nat>(
            (b, x),
        ),
    decreases b, 0int,
{
    let nt = name_text(b.vertex);
    let gt = graph_text(*b.graph);
    let s = p + binding_body_text(b) + x;
    let after_var = seq![' ', '=', ' '] + seq!['<'] + nt + seq!['>'] + seq![' ', 'i', 'n', ' '] + gt
        + x;
    let t = b.var + after_var;
    assert(s =~= p + t);
    assert(is_ident_char(b.var[0]));
    lemma_skip_to(p, t);
    lemma_ident_prefix(b.var, after_var);
    let r1 = seq![' '] + seq!['<'] + nt + seq!['>'] + (seq![' ', 'i', 'n', ' '] + gt + x);
    assert(after_var =~= seq![' '] + seq!['='] + (seq![' '] + seq!['<'] + nt + seq!['>'] + seq![
        ' ',
        'i',
        'n',
        ' ',
    ] + gt + x));
    assert(seq![' '] + seq!['<'] + nt + seq!['>'] + seq![' ', 'i', 'n', ' '] + gt + x =~= r1);
    lemma_expect_char_rt(seq![' '], '=', r1);
    lemma_vertex_rt(b.vertex, seq![' '], seq![' ', 'i', 'n', ' '] + gt + x);
    let r2 = seq![' ', 'i', 'n', ' '] + gt + x;
    assert(r2 =~= seq![' '] + kw_in() + (seq![' '] + gt + x));
    lemma_expect_word_rt(seq![' '], kw_in(), seq![' '] + gt + x);
    lemma_graph_rt(*b.graph, seq![' '], x);
}

proof fn lemma_binding_rt(b: BindingM, p: Seq<char>, x: Seq<char>)
    requires
        binding_wf(b),
        all_ws(p),
    ensures
        parse_binding(p + binding_text(b) + x) == Ok::<(BindingM, Seq<char>), nat>((b, x)),
    decreases b, 1int,
{
    let body = binding_body_text(b);
    assert(binding_text(b) =~= kw_let() + seq![' '] + body);
    assert(p + binding_text(b) + x =~= p + kw_let() + (seq![' '] + body + x));
    lemma_expect_word_rt(p, kw_let(), seq![' '] + body + x);
    lemma_binding_body_rt(b, seq![' '], x);
}

proof fn lemma_edge_body_rt(g: GraphM, b1: BindingM, b2: BindingM, p: Seq<char>, x: Seq<char>)
    requires
        g == GraphM::EdgeAnon(b1, b2) || (g is EdgeNamed && g->EdgeNamed_1 == b1 && g->EdgeNamed_2 == b2),
        binding_wf(b1),
        binding_wf(b2),
        all_ws(p),
    ensures
        parse_edge_body(p + binding_text(b1) + seq![',', ' '] + binding_text(b2) + seq![')'] + x)
            == Ok::<((BindingM, BindingM), Seq<char>), nat>(((b1, b2), x)),
    decreases g, 1int,
{
    let bt1 = binding_text(b1);
    let bt2 = binding_text(b2);
    let s = p + bt1 + seq![',', ' '] + bt2 + seq![')'] + x;
    let r1 = seq![',', ' '] + bt2 + seq![')'] + x;
    assert(s =~= p + bt1 + r1);
    if g is EdgeAnon {
        assert(decreases_to!(g => g->EdgeAnon_0));
        assert(decreases_to!(g => g->EdgeAnon_1));
    } else {
        assert(decreases_to!(g => g->EdgeNamed_1));
        assert(decreases_to!(g => g->EdgeNamed_2));
    }
    lemma_binding_rt(b1, p, r1);
    assert(r1 =~= Seq::<char>::empty() + seq![','] + (seq![' '] + bt2 + seq![')'] + x));
    lemma_expect_char_rt(Seq::empty(), ',', seq![' '] + bt2 + seq![')'] + x);
    assert(seq![' '] + bt2 + seq![')'] + x =~= seq![' '] + bt2 + (seq![')'] + x));
    lemma_binding_rt(b2, seq![' '], seq![')'] + x);
    assert(seq![')'] + x =~= Seq::<char>::empty() + seq![')'] + x);
    lemma_expect_char_rt(Seq::empty(), ')', x);
}

pub open spec fn pair_sep(arrow: bool) -> Seq<char> {
    if arrow {
        seq![' ', '=', '>', ' ']
    } else {
        seq![',', ' ']
    }
}

#[verifier::rlimit(60)]
proof fn lemma_pair_rt(g: GraphM, g1: GraphM, g2: GraphM, arrow: bool, p: Seq<char>, x: Seq<char>)
    requires
        (g is RuleAnon && *g->RuleAnon_0 == g1 && *g->RuleAnon_1 == g2) || (g is RuleNamed
            && *g->RuleNamed_1 == g1 && *g->RuleNamed_2 == g2) || (g is Tensor && *g->Tensor_0
            == g1 && *g->Tensor_1 == g2),
        graph_wf(g1),
        graph_wf(g2),
        all_ws(p),
    ensures
        parse_graph_pair(
            p + seq!['('] + graph_text(g1) + pair_sep(arrow) + graph_text(g2) + seq![')'] + x,
            arrow,
        ) == Ok::<((GraphM, GraphM), Seq<char>), nat>(((g1, g2), x)),
    decreases g, 1int,
{
    let gt1 = graph_text(g1);
    let gt2 = graph_text(g2);
    let tail = seq![' '] + gt2 + seq![')'] + x;
    let s = p + seq!['('] + gt1 + pair_sep(arrow) + gt2 + seq![')'] + x;
    let r0 = gt1 + (pair_sep(arrow) + gt2 + seq![')'] + x);
    assert(s =~= p + seq!['('] + r0);
    lemma_expect_char_rt(p, '(', r0);
    assert(decreases_to!(g => g1));
    assert(decreases_to!(g => g2));
    assert(r0 =~= Seq::<char>::empty() + gt1 + (pair_sep(arrow) + gt2 + seq![')'] + x));
    lemma_graph_rt(g1, Seq::empty(), pair_sep(arrow) + gt2 + seq![')'] + x);
    if arrow {
        let r1 = pair_sep(arrow) + gt2 + seq![')'] + x;
        assert(r1 =~= seq![' '] + seq!['='] + (seq!['>'] + tail));
        lemma_expect_char_rt(seq![' '], '=', seq!['>'] + tail);
        assert(seq!['>'] + tail =~= Seq::<char>::empty() + seq!['>'] + tail);
        lemma_expect_char_rt(Seq::empty(), '>', tail);
    } else {
        let r1 = pair_sep(arrow) + gt2 + seq![')'] + x;
        assert(r1 =~= Seq::<char>::empty() + seq![','] + tail);
        lemma_expect_char_rt(Seq::empty(), ',', tail);
    }
    assert(tail =~= seq![' '] + gt2 + (seq![')'] + x));
    lemma_graph_rt(g2, seq![' '], seq![')'] + x);
    assert(seq![')'] + x =~= Seq::<char>::empty() + seq![')'] + x);
    lemma_expect_char_rt(Seq::empty(), ')', x);
}

proof fn lemma_graph_rt(g: GraphM, p: Seq<char>, x: Seq<char>)
    requires
        graph_wf(g),
        all_ws(p),
    ensures
        parse_graph(p + graph_text(g) + x) == Ok::<(GraphM, Seq<char>), nat>((g, x)),
    decreases g, 3int,
{
    match g {
        GraphM::Nil => {
            let t = seq!['0'] + x;
            assert(p + graph_text(g) + x =~= p + t);
            lemma_skip_to(p, t);
            assert(t.drop_first() =~= x);
        },
        GraphM::Vertex(n, c) => case_vertex(g, n, *c, p, x),
        GraphM::Var(v, c) => case_var(g, v, *c, p, x),
        GraphM::Nominate(b) => case_nominate(g, b, p, x),
        GraphM::EdgeAnon(b1, b2) => case_edge_anon(g, b1, b2, p, x),
        GraphM::EdgeNamed(n, b1, b2) => case_edge_named(g, n, b1, b2, p, x),
        GraphM::RuleAnon(g1, g2) => case_rule_anon(g, *g1, *g2, p, x),
        GraphM::RuleNamed(n, g1, g2) => case_rule_named(g, n, *g1, *g2, p, x),
        GraphM::Subgraph(v, g1, g2) => case_subgraph(g, v, *g1, *g2, p, x),
        GraphM::Tensor(g1, g2) => case_tensor(g, *g1, *g2, p, x),
        GraphM::Context(n, text, c) => case_context(g, n, text, *c, p, x),
    }
}

/// A graph that starts with the word `w` goes to the keyword productions.
proof fn lemma_keyword_start(p: Seq<char>, w: Seq<char>, y: Seq<char>)
    requires
        all_ws(p),
        w.len() > 0,
        crate::syntax::is_lower(w[0]),
        all_ident_chars(w),
        ends_ident(y),
    ensures
        parse_graph(p + (w + y)) == parse_keyword_graph(w, y),
{
    lemma_skip_to(p, w + y);
    lemma_ident_prefix(w, y);
}

proof fn case_vertex(g: GraphM, n: NameM, c: GraphM, p: Seq<char>, x: Seq<char>)
    requires
        g == GraphM::Vertex(n, Box::new(c)),
        name_wf(n),
        graph_wf(c),
        all_ws(p),
    ensures
        parse_graph(p + graph_text(g) + x) == Ok::<(GraphM, Seq<char>), nat>((g, x)),
    decreases g, 2int,
{
    let ct = graph_text(c);
    let rest = seq![' ', '|', ' '] + ct + x;
    let t = seq!['<'] + name_text(n) + seq!['>'] + rest;
    assert(p + graph_text(g) + x =~= p + t);
    lemma_skip_to(p, t);
    assert(t =~= Seq::<char>::empty() + seq!['<'] + name_text(n) + seq!['>'] + rest);
    assert(decreases_to!(g => n));
    lemma_vertex_rt(n, Seq::empty(), rest);
    assert(rest =~= seq![' '] + seq!['|'] + (seq![' '] + ct + x));
    lemma_expect_char_rt(seq![' '], '|', seq![' '] + ct + x);
    assert(decreases_to!(g => c));
    lemma_graph_rt(c, seq![' '], x);
}

proof fn case_var(g: GraphM, v: Seq<char>, c: GraphM, p: Seq<char>, x: Seq<char>)
    requires
        g == GraphM::Var(v, Box::new(c)),
        is_lvar(v),
        graph_wf(c),
        all_ws(p),
    ensures
        parse_graph(p + graph_text(g) + x) == Ok::<(GraphM, Seq<char>), nat>((g, x)),
    decreases g, 2int,
{
    let ct = graph_text(c);
    let y = seq![' ', '|', ' '] + ct + x;
    assert(p + graph_text(g) + x =~= p + (v + y));
    lemma_keyword_start(p, v, y);
    lemma_lvar_not_keyword(v);
    assert(y =~= seq![' '] + seq!['|'] + (seq![' '] + ct + x));
    lemma_expect_char_rt(seq![' '], '|', seq![' '] + ct + x);
    assert(decreases_to!(g => c));
    lemma_graph_rt(c, seq![' '], x);
}

proof fn case_nominate(g: GraphM, b: BindingM, p: Seq<char>, x: Seq<char>)
    requires
        g == GraphM::Nominate(b),
        binding_wf(b),
        all_ws(p),
    ensures
        parse_graph(p + graph_text(g) + x) == Ok::<(GraphM, Seq<char>), nat>((g, x)),
    decreases g, 2int,
{
    let body = binding_body_text(b);
    let y = seq![' '] + body + x;
    assert(binding_text(b) =~= kw_let() + seq![' '] + body);
    assert(p + graph_text(g) + x =~= p + (kw_let() + y));
    lemma_keyword_start(p, kw_let(), y);
    assert(!crate::syntax::is_upper(b.var[0]));
    assert(body + x =~= b.var + (seq![' ', '=', ' '] + seq!['<'] + name_text(b.vertex) + seq!['>']
        + seq![' ', 'i', 'n', ' '] + graph_text(*b.graph) + x));
    assert(is_ident_char(b.var[0]));
    assert(y =~= seq![' '] + (body + x));
    lemma_skip_to(seq![' '], body + x);
    assert(decreases_to!(g => b));
    lemma_binding_body_rt(b, seq![' '], x);
}

proof fn case_edge_anon(g: GraphM, b1: BindingM, b2: BindingM, p: Seq<char>, x: Seq<char>)
    requires
        g == GraphM::EdgeAnon(b1, b2),
        binding_wf(b1),
        binding_wf(b2),
        all_ws(p),
    ensures
        parse_graph(p + graph_text(g) + x) == Ok::<(GraphM, Seq<char>), nat>((g, x)),
    decreases g, 2int,
{
    let u = binding_text(b1) + seq![',', ' '] + binding_text(b2) + seq![')'] + x;
    let t = seq!['('] + u;
    assert(p + graph_text(g) + x =~= p + t);
    lemma_skip_to(p, t);
    assert(t.drop_first() =~= Seq::<char>::empty() + binding_text(b1) + seq![',', ' ']
        + binding_text(b2) + seq![')'] + x);
    lemma_edge_body_rt(g, b1, b2, Seq::empty(), x);
}

proof fn case_edge_named(
    g: GraphM,
    n: NameM,
    b1: BindingM,
    b2: BindingM,
    p: Seq<char>,
    x: Seq<char>,
)
    requires
        g == GraphM::EdgeNamed(n, b1, b2),
        name_wf(n),
        binding_wf(b1),
        binding_wf(b2),
        all_ws(p),
    ensures
        parse_graph(p + graph_text(g) + x) == Ok::<(GraphM, Seq<char>), nat>((g, x)),
    decreases g, 2int,
{
    let inner = binding_text(b1) + seq![',', ' '] + binding_text(b2) + seq![')'] + x;
    let y = seq![' '] + name_text(n) + (seq![' ', '('] + inner);
    assert(p + graph_text(g) + x =~= p + (kw_edge() + y));
    lemma_keyword_start(p, kw_edge(), y);
    assert(decreases_to!(g => n));
    lemma_name_rt(n, seq![' '], seq![' ', '('] + inner);
    assert(seq![' ', '('] + inner =~= seq![' '] + seq!['('] + inner);
    lemma_expect_char_rt(seq![' '], '(', inner);
    assert(inner =~= Seq::<char>::empty() + binding_text(b1) + seq![',', ' '] + binding_text(b2)
        + seq![')'] + x);
    lemma_edge_body_rt(g, b1, b2, Seq::empty(), x);
}

proof fn case_rule_anon(g: GraphM, g1: GraphM, g2: GraphM, p: Seq<char>, x: Seq<char>)
    requires
        g == GraphM::RuleAnon(Box::new(g1), Box::new(g2)),
        graph_wf(g1),
        graph_wf(g2),
        all_ws(p),
    ensures
        parse_graph(p + graph_text(g) + x) == Ok::<(GraphM, Seq<char>), nat>((g, x)),
    decreases g, 2int,
{
    let pair = seq!['('] + graph_text(g1) + pair_sep(true) + graph_text(g2) + seq![')'] + x;
    let y = seq![' '] + pair;
    assert(p + graph_text(g) + x =~= p + (kw_rule() + y));
    lemma_keyword_start(p, kw_rule(), y);
    lemma_skip_to(seq![' '], pair);
    assert(y =~= seq![' '] + seq!['('] + graph_text(g1) + pair_sep(true) + graph_text(g2) + seq![
        ')',
    ] + x);
    lemma_pair_rt(g, g1, g2, true, seq![' '], x);
}

#[verifier::rlimit(40)]
proof fn case_rule_named(g: GraphM, n: NameM, g1: GraphM, g2: GraphM, p: Seq<char>, x: Seq<char>)
    requires
        g == GraphM::RuleNamed(n, Box::new(g1), Box::new(g2)),
        name_wf(n),
        graph_wf(g1),
        graph_wf(g2),
        all_ws(p),
    ensures
        parse_graph(p + graph_text(g) + x) == Ok::<(GraphM, Seq<char>), nat>((g, x)),
    decreases g, 2int,
{
    let pair = seq!['('] + graph_text(g1) + pair_sep(true) + graph_text(g2) + seq![')'] + x;
    let nt = name_text(n);
    let y = seq![' '] + (nt + (seq![' '] + pair));
    assert(p + graph_text(g) + x =~= p + (kw_rule() + y));
    lemma_keyword_start(p, kw_rule(), y);
    lemma_name_text_first(n);
    lemma_skip_to(seq![' '], nt + (seq![' '] + pair));
    assert(y =~= seq![' '] + nt + (seq![' '] + pair));
    assert(decreases_to!(g => n));
    lemma_name_rt(n, seq![' '], seq![' '] + pair);
    assert(seq![' '] + pair =~= seq![' '] + seq!['('] + graph_text(g1) + pair_sep(true)
        + graph_text(g2) + seq![')'] + x);
    lemma_pair_rt(g, g1, g2, true, seq![' '], x);
}

proof fn case_tensor(g: GraphM, g1: GraphM, g2: GraphM, p: Seq<char>, x: Seq<char>)
    requires
        g == GraphM::Tensor(Box::new(g1), Box::new(g2)),
        graph_wf(g1),
        graph_wf(g2),
        all_ws(p),
    ensures
        parse_graph(p + graph_text(g) + x) == Ok::<(GraphM, Seq<char>), nat>((g, x)),
    decreases g, 2int,
{
    let pair = seq!['('] + graph_text(g1) + pair_sep(false) + graph_text(g2) + seq![')'] + x;
    let y = seq![' '] + pair;
    assert(p + graph_text(g) + x =~= p + (kw_tensor() + y));
    lemma_keyword_start(p, kw_tensor(), y);
    assert(y =~= seq![' '] + seq!['('] + graph_text(g1) + pair_sep(false) + graph_text(g2) + seq![
        ')',
    ] + x);
    lemma_pair_rt(g, g1, g2, false, seq![' '], x);
}

#[verifier::rlimit(40)]
proof fn case_subgraph(g: GraphM, v: Seq<char>, g1: GraphM, g2: GraphM, p: Seq<char>, x: Seq<char>)
    requires
        g == GraphM::Subgraph(v, Box::new(g1), Box::new(g2)),
        is_uvar(v),
        graph_wf(g1),
        graph_wf(g2),
        all_ws(p),
    ensures
        parse_graph(p + graph_text(g) + x) == Ok::<(GraphM, Seq<char>), nat>((g, x)),
    decreases g, 2int,
{
    let gt1 = graph_text(g1);
    let gt2 = graph_text(g2);
    let after_var = seq![' ', '=', ' '] + gt1 + seq![' ', 'i', 'n', ' '] + gt2 + x;
    let y = seq![' '] + (v + after_var);
    assert(p + graph_text(g) + x =~= p + (kw_let() + y));
    lemma_keyword_start(p, kw_let(), y);
    assert(is_ident_char(v[0]));
    lemma_skip_to(seq![' '], v + after_var);
    lemma_ident_prefix(v, after_var);
    let r1 = seq![' '] + gt1 + (seq![' ', 'i', 'n', ' '] + gt2 + x);
    assert(after_var =~= seq![' '] + seq!['='] + r1);
    lemma_expect_char_rt(seq![' '], '=', r1);
    assert(decreases_to!(g => g1));
    lemma_graph_rt(g1, seq![' '], seq![' ', 'i', 'n', ' '] + gt2 + x);
    assert(seq![' ', 'i', 'n', ' '] + gt2 + x =~= seq![' '] + kw_in() + (seq![' '] + gt2 + x));
    lemma_expect_word_rt(seq![' '], kw_in(), seq![' '] + gt2 + x);
    assert(decreases_to!(g => g2));
    lemma_graph_rt(g2, seq![' '], x);
}

#[verifier::rlimit(40)]
proof fn case_context(
    g: GraphM,
    n: NameM,
    text: Seq<char>,
    c: GraphM,
    p: Seq<char>,
    x: Seq<char>,
)
    requires
        g == GraphM::Context(n, text, Box::new(c)),
        name_wf(n),
        has_no_nul(text),
        graph_wf(c),
        all_ws(p),
    ensures
        parse_graph(p + graph_text(g) + x) == Ok::<(GraphM, Seq<char>), nat>((g, x)),
    decreases g, 2int,
{
    let ct = graph_text(c);
    let nt = name_text(n);
    let after_name = seq![' ', 'i', 'n', ' '] + ct + x;
    let after_for = seq![' '] + nt + after_name;
    let after_str = seq![' '] + kw_for() + after_for;
    let lit = seq!['"'] + (escape(text) + seq!['"'] + after_str);
    let y = seq![' '] + lit;
    assert(p + graph_text(g) + x =~= p + (kw_context() + y));
    lemma_keyword_start(p, kw_context(), y);
    lemma_skip_to(seq![' '], lit);
    assert(lit.drop_first() =~= escape(text) + seq!['"'] + after_str);
    lemma_string_body_rt(text, Seq::empty(), after_str);
    assert(Seq::<char>::empty() + text =~= text);
    lemma_expect_word_rt(seq![' '], kw_for(), after_for);
    assert(decreases_to!(g => n));
    lemma_name_rt(n, seq![' '], after_name);
    assert(after_name =~= seq![' '] + kw_in() + (seq![' '] + ct + x));
    lemma_expect_word_rt(seq![' '], kw_in(), seq![' '] + ct + x);
    assert(decreases_to!(g => c));
    lemma_graph_rt(c, seq![' '], x);
}

proof fn wf_string_body(s: Seq<char>, acc: Seq<char>)
    requires
        has_no_nul(acc),
    ensures
        string_body(s, acc) matches Ok((v, _)) ==> has_no_nul(v),
    decreases s.len(),
{
    if s.len() == 0 || s[0] == '"' || s[0] == '\0' {
    } else if s[0] == '\\' {
        if s.len() >= 2 && (s[1] == '"' || s[1] == '\\') {
            assert(has_no_nul(acc.push(s[1]))) by {
                assert forall|i: int| 0 <= i < acc.push(s[1]).len() implies acc.push(s[1])[i]
                    != '\0' by {
                    if i < acc.len() {
                        assert(acc[i] != '\0');
                    }
                }
            }
            wf_string_body(s.skip(2), acc.push(s[1]));
        }
    } else {
        assert(has_no_nul(acc.push(s[0]))) by {
            assert forall|i: int| 0 <= i < acc.push(s[0]).len() implies acc.push(s[0])[i]
                != '\0' by {
                if i < acc.len() {
                    assert(acc[i] != '\0');
                }
            }
        }
        wf_string_body(s.drop_first(), acc.push(s[0]));
    }
}

proof fn wf_name(s: Seq<char>)
    ensures
        parse_name(s) matches Ok((n, _)) ==> name_wf(n),
    decreases s.len(), 1int,
{
    let t = skip_ws(s);
    crate::grammar::lemma_skip_ws_len(s);
    if t.len() > 0 && t[0] == '@' {
        let u = skip_ws(t.drop_first());
        crate::grammar::lemma_skip_ws_len(t.drop_first());
        if u.len() > 0 && u[0] == '{' {
            wf_graph(u.drop_first());
        } else {
            wf_vertex(t.drop_first());
        }
    } else if t.len() > 0 && t[0] != '_' {
        lemma_ident_len(t);
    }
}

proof fn wf_vertex(s: Seq<char>)
    ensures
        parse_vertex(s) matches Ok((n, _)) ==> name_wf(n),
    decreases s.len(), 2int,
{
    if let Ok(r) = expect_char(s, '<') {
        crate::grammar::lemma_expect_len(s, '<', Seq::empty());
        wf_name(r);
    }
}

proof fn wf_binding_body(s: Seq<char>)
    ensures
        parse_binding_body(s) matches Ok((b, _)) ==> binding_wf(b),
    decreases s.len(), 2int,
{
    let t = skip_ws(s);
    let n = ident_len(t);
    crate::grammar::lemma_skip_ws_len(s);
    lemma_ident_len(t);
    crate::grammar::lemma_expect_len(t.skip(n as int), '=', Seq::empty());
    if let Ok(r1) = expect_char(t.skip(n as int), '=') {
        wf_vertex(r1);
        if let Ok((v, r2)) = parse_vertex(r1) {
            if let Ok(r3) = expect_word(r2, kw_in()) {
                if r3.len() < s.len() {
                    wf_graph(r3);
                }
            }
        }
    }
}

proof fn wf_binding(s: Seq<char>)
    ensures
        parse_binding(s) matches Ok((b, _)) ==> binding_wf(b),
    decreases s.len(), 3int,
{
    if let Ok(r) = expect_word(s, kw_let()) {
        crate::grammar::lemma_expect_len(s, ' ', kw_let());
        wf_binding_body(r);
    }
}

proof fn wf_edge_body(s: Seq<char>)
    ensures
        parse_edge_body(s) matches Ok(((b1, b2), _)) ==> binding_wf(b1) && binding_wf(b2),
    decreases s.len(), 4int,
{
    wf_binding(s);
    if let Ok((b1, r1)) = parse_binding(s) {
        if let Ok(r2) = expect_char(r1, ',') {
            if r2.len() < s.len() {
                wf_binding(r2);
            }
        }
    }
}

proof fn wf_graph_pair(s: Seq<char>, arrow: bool)
    ensures
        parse_graph_pair(s, arrow) matches Ok(((g1, g2), _)) ==> graph_wf(g1) && graph_wf(g2),
    decreases s.len(), 2int,
{
    if let Ok(r0) = expect_char(s, '(') {
        crate::grammar::lemma_expect_len(s, '(', Seq::empty());
        wf_graph(r0);
        if let Ok((g1, r1)) = parse_graph(r0) {
            let sep = if arrow {
                match expect_char(r1, '=') {
                    Err(e) => Err(e),
                    Ok(r) => expect_char(r, '>'),
                }
            } else {
                expect_char(r1, ',')
            };
            if let Ok(r2) = sep {
                if r2.len() < s.len() {
                    wf_graph(r2);
                }
            }
        }
    }
}

proof fn wf_keyword_graph(w: Seq<char>, s: Seq<char>)
    requires
        all_ident_chars(w),
    ensures
        parse_keyword_graph(w, s) matches Ok((g, _)) ==> graph_wf(g),
    decreases s.len(), 5int,
{
    let t = skip_ws(s);
    crate::grammar::lemma_skip_ws_len(s);
    crate::grammar::lemma_expect_len(s, ' ', kw_for());
    if w == kw_let() {
        if t.len() > 0 && crate::syntax::is_upper(t[0]) {
            let n = ident_len(t);
            lemma_ident_len(t);
            crate::grammar::lemma_expect_len(t.skip(n as int), '=', Seq::empty());
            if let Ok(r1) = expect_char(t.skip(n as int), '=') {
                wf_graph(r1);
                if let Ok((g1, r2)) = parse_graph(r1) {
                    if let Ok(r3) = expect_word(r2, kw_in()) {
                        if r3.len() < s.len() {
                            wf_graph(r3);
                        }
                    }
                }
            }
        } else {
            wf_binding_body(s);
        }
    } else if w == kw_context() {
        if let Ok((text, r1)) = parse_string(s) {
            if t.len() > 0 && t[0] == '"' {
                wf_string_body(t.drop_first(), Seq::empty());
            }
            if let Ok(r2) = expect_word(r1, kw_for()) {
                if r2.len() < s.len() {
                    wf_name(r2);
                    if let Ok((n, r3)) = parse_name(r2) {
                        if let Ok(r4) = expect_word(r3, kw_in()) {
                            if r4.len() < s.len() {
                                wf_graph(r4);
                            }
                        }
                    }
                }
            }
        }
    } else if w == kw_edge() {
        wf_name(s);
        if let Ok((n, r1)) = parse_name(s) {
            if let Ok(r2) = expect_char(r1, '(') {
                if r2.len() < s.len() {
                    wf_edge_body(r2);
                }
            }
        }
    } else if w == kw_rule() {
        if t.len() > 0 && t[0] == '(' {
            wf_graph_pair(s, true);
        } else {
            wf_name(s);
            if let Ok((n, r1)) = parse_name(s) {
                if r1.len() < s.len() {
                    wf_graph_pair(r1, true);
                }
            }
        }
    } else if w == kw_tensor() {
        wf_graph_pair(s, false);
    } else {
        if let Ok(r1) = expect_char(s, '|') {
            crate::grammar::lemma_expect_len(s, '|', Seq::empty());
            wf_graph(r1);
        }
    }
}

proof fn wf_graph(s: Seq<char>)
    ensures
        parse_graph(s) matches Ok((g, _)) ==> graph_wf(g),
    decreases s.len(), 6int,
{
    let t = skip_ws(s);
    crate::grammar::lemma_skip_ws_len(s);
    if t.len() == 0 || t[0] == '0' {
    } else if t[0] == '{' {
        wf_graph(t.drop_first());
    } else if t[0] == '<' {
        wf_vertex(t);
        if let Ok((n, r)) = parse_vertex(t) {
            if let Ok(r2) = expect_char(r, '|') {
                if r2.len() < s.len() {
                    wf_graph(r2);
                }
            }
        }
    } else if t[0] == '(' {
        wf_edge_body(t.drop_first());
    } else {
        let n = ident_len(t);
        lemma_ident_len(t);
        if n > 0 {
            wf_keyword_graph(t.take(n as int), t.skip(n as int));
        }
    }
}

/// Printing a well-formed tree and parsing the text gives the tree back.
pub proof fn law_round_trip(g: GraphM)
    requires
        graph_wf(g),
    ensures
        parse_text(graph_text(g)) == Ok::<GraphM, nat>(g),
{
    lemma_graph_rt(g, Seq::empty(), Seq::empty());
    assert(Seq::<char>::empty() + graph_text(g) + Seq::<char>::empty() =~= graph_text(g));
}

/// Every tree the parser produces is well formed, so the printer accepts it.
pub proof fn law_parsed_is_wf(s: Seq<char>)
    ensures
        parse_text(s) matches Ok(g) ==> graph_wf(g),
{
    wf_graph(s);
}

/// Parsing, printing and parsing again gives the tree of the first parse.
pub proof fn law_parse_print_parse(s: Seq<char>)
    ensures
        parse_text(s) matches Ok(g) ==> parse_text(graph_text(g)) == Ok::<GraphM, nat>(g),
{
    wf_graph(s);
    if let Ok(g) = parse_text(s) {
        law_round_trip(g);
    }
}

} // verus!
