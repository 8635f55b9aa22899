//! Writing names, and checking that a tree is one the parser could have
//! produced.
//!
//! Whole graphs are printed by the walker (`crate::print_visitor`); the
//! recursive writers here serve the names, whose quoted graphs the walker
//! does not enter.
use vstd::prelude::*;

use crate::ast::{Binding, Error, Graph, Name};
use crate::lexer::{chars_of, is_ident_char_exec, is_keyword_at, is_lower_char, is_upper_char, push_char};
use crate::syntax::{
    binding_text, binding_wf, escape, graph_text, graph_wf, has_no_nul, is_lvar, is_uvar, name_text,
    name_wf, all_ident_chars,
};

verus! {

pub proof fn lemma_print_literals()
    ensures
        "0"@ == seq!['0'],
        "_"@ == seq!['_'],
        "<"@ == seq!['<'],
        ">"@ == seq!['>'],
        "@{"@ == seq!['@', '{'],
        "@<"@ == seq!['@', '<'],
        "}"@ == seq!['}'],
        "("@ == seq!['('],
        ")"@ == seq![')'],
        ", "@ == seq![',', ' '],
        " | "@ == seq![' ', '|', ' '],
        "let "@ == seq!['l', 'e', 't', ' '],
        " = "@ == seq![' ', '=', ' '],
        " in "@ == seq![' ', 'i', 'n', ' '],
        "edge "@ == seq!['e', 'd', 'g', 'e', ' '],
        " ("@ == seq![' ', '('],
        "rule ("@ == seq!['r', 'u', 'l', 'e', ' ', '('],
        "rule "@ == seq!['r', 'u', 'l', 'e', ' '],
        " => "@ == seq![' ', '=', '>', ' '],
        "tensor ("@ == seq!['t', 'e', 'n', 's', 'o', 'r', ' ', '('],
        "context \""@ == seq!['c', 'o', 'n', 't', 'e', 'x', 't', ' ', '"'],
        "\" for "@ == seq!['"', ' ', 'f', 'o', 'r', ' '],
{
    reveal_strlit("0");
    reveal_strlit("_");
    reveal_strlit("<");
    reveal_strlit(">");
    reveal_strlit("@{");
    reveal_strlit("@<");
    reveal_strlit("}");
    reveal_strlit("(");
    reveal_strlit(")");
    reveal_strlit(", ");
    reveal_strlit(" | ");
    reveal_strlit("let ");
    reveal_strlit(" = ");
    reveal_strlit(" in ");
    reveal_strlit("edge ");
    reveal_strlit(" (");
    reveal_strlit("rule (");
    reveal_strlit("rule ");
    reveal_strlit(" => ");
    reveal_strlit("tensor (");
    reveal_strlit("context \"");
    reveal_strlit("\" for ");
    assert("0"@ =~= seq!['0']);
    assert("_"@ =~= seq!['_']);
    assert("<"@ =~= seq!['<']);
    assert(">"@ =~= seq!['>']);
    assert("@{"@ =~= seq!['@', '{']);
    assert("@<"@ =~= seq!['@', '<']);
    assert("}"@ =~= seq!['}']);
    assert("("@ =~= seq!['(']);
    assert(")"@ =~= seq![')']);
    assert(", "@ =~= seq![',', ' ']);
    assert(" | "@ =~= seq![' ', '|', ' ']);
    assert("let "@ =~= seq!['l', 'e', 't', ' ']);
    assert(" = "@ =~= seq![' ', '=', ' ']);
    assert(" in "@ =~= seq![' ', 'i', 'n', ' ']);
    assert("edge "@ =~= seq!['e', 'd', 'g', 'e', ' ']);
    assert(" ("@ =~= seq![' ', '(']);
    assert("rule ("@ =~= seq!['r', 'u', 'l', 'e', ' ', '(']);
    assert("rule "@ =~= seq!['r', 'u', 'l', 'e', ' ']);
    assert(" => "@ =~= seq![' ', '=', '>', ' ']);
    assert("tensor ("@ =~= seq!['t', 'e', 'n', 's', 'o', 'r', ' ', '(']);
    assert("context \""@ =~= seq!['c', 'o', 'n', 't', 'e', 'x', 't', ' ', '"']);
    assert("\" for "@ =~= seq!['"', ' ', 'f', 'o', 'r', ' ']);
}

pub proof fn lemma_escape_append(a: Seq<char>, b: Seq<char>)
    ensures
        escape(a + b) == escape(a) + escape(b),
    decreases a.len(),
{
    if a.len() == 0 {
        assert(a + b =~= b);
    } else {
        assert((a + b).drop_first() =~= a.drop_first() + b);
        lemma_escape_append(a.drop_first(), b);
    }
}

pub(crate) fn write_escaped(out: &mut String, text: &String)
    ensures
        final(out)@ == old(out)@ + escape(text@),
{
    let cs = chars_of(text.as_str());
    let ghost start = out@;
    let mut k: usize = 0;
    while k < cs.len()
        invariant
            k <= cs.len(),
            cs@ == text@,
            out@ == start + escape(cs@.take(k as int)),
        decreases cs.len() - k,
    {
        let c = cs[k];
        proof {
            lemma_escape_append(cs@.take(k as int), seq![c]);
            assert(cs@.take(k + 1) =~= cs@.take(k as int) + seq![c]);
            assert(seq![c].drop_first() =~= Seq::<char>::empty());
        }
        proof {
            reveal_with_fuel(escape, 2);
        }
        let ghost before = out@;
        if c == '"' || c == '\\' {
            push_char(out, '\\');
            push_char(out, c);
            assert(escape(seq![c]) == seq!['\\', c]);
            assert(out@ =~= before + seq!['\\', c]);
        } else {
            push_char(out, c);
            assert(escape(seq![c]) == seq![c]);
            assert(out@ =~= before + seq![c]);
        }
        k = k + 1;
    }
    assert(cs@.take(k as int) =~= text@);
}

pub fn write_name(out: &mut String, n: &Name)
    ensures
        final(out)@ == old(out)@ + name_text(n@),
    decreases n,
{
    proof {
        lemma_print_literals();
    }
    match n {
        Name::Wildcard => out.append("_"),
        Name::VVar { value } => out.append(value.as_str()),
        Name::GVar { value } => out.append(value.as_str()),
        Name::QuoteGraph { value } => {
            out.append("@{");
            write_graph(out, value);
            out.append("}");
        },
        Name::QuoteVertex { value } => {
            out.append("@<");
            write_name(out, &value.name);
            out.append(">");
        },
    }
}

pub fn write_binding(out: &mut String, b: &Binding)
    ensures
        final(out)@ == old(out)@ + binding_text(b@),
    decreases b,
{
    proof {
        lemma_print_literals();
    }
    let ghost start = out@;
    out.append("let ");
    out.append(b.var.as_str());
    out.append(" = ");
    out.append("<");
    write_name(out, &b.vertex.name);
    out.append(">");
    out.append(" in ");
    write_graph(out, &b.graph);
    assert(out@ =~= start + binding_text(b@));
}

/// Appends the canonical text of `g`.
#[verifier::rlimit(60)]
pub fn write_graph(out: &mut String, g: &Graph)
    ensures
        final(out)@ == old(out)@ + graph_text(g@),
    decreases g,
{
    proof {
        lemma_print_literals();
    }
    let ghost start = out@;
    match g {
        Graph::Nil => out.append("0"),
        Graph::Vertex(v) => {
            out.append("<");
            write_name(out, &v.vertex.name);
            out.append(">");
            out.append(" | ");
            write_graph(out, &v.graph);
            assert(out@ =~= start + graph_text(g@));
        },
        Graph::Var(v) => {
            out.append(v.var.as_str());
            out.append(" | ");
            write_graph(out, &v.graph);
            assert(out@ =~= start + graph_text(g@));
        },
        Graph::Nominate(b) => write_binding(out, b),
        Graph::EdgeAnon(e) => {
            out.append("(");
            write_binding(out, &e.binding_1);
            out.append(", ");
            write_binding(out, &e.binding_2);
            out.append(")");
            assert(out@ =~= start + graph_text(g@));
        },
        Graph::EdgeNamed(e) => {
            out.append("edge ");
            write_name(out, &e.name);
            out.append(" (");
            write_binding(out, &e.binding_1);
            out.append(", ");
            write_binding(out, &e.binding_2);
            out.append(")");
            assert(out@ =~= start + graph_text(g@));
        },
        Graph::RuleAnon(r) => {
            out.append("rule (");
            write_graph(out, &r.graph_1);
            out.append(" => ");
            write_graph(out, &r.graph_2);
            out.append(")");
            assert(out@ =~= start + graph_text(g@));
        },
        Graph::RuleNamed(r) => {
            out.append("rule ");
            write_name(out, &r.name);
            out.append(" (");
            write_graph(out, &r.graph_1);
            out.append(" => ");
            write_graph(out, &r.graph_2);
            out.append(")");
            assert(out@ =~= start + graph_text(g@));
        },
        Graph::Subgraph(b) => {
            out.append("let ");
            out.append(b.var.as_str());
            out.append(" = ");
            write_graph(out, &b.graph_1);
            out.append(" in ");
            write_graph(out, &b.graph_2);
            assert(out@ =~= start + graph_text(g@));
        },
        Graph::Tensor(t) => {
            out.append("tensor (");
            write_graph(out, &t.graph_1);
            out.append(", ");
            write_graph(out, &t.graph_2);
            out.append(")");
            assert(out@ =~= start + graph_text(g@));
        },
        Graph::Context(c) => {
            out.append("context \"");
            write_escaped(out, &c.string);
            out.append("\" for ");
            write_name(out, &c.name);
            out.append(" in ");
            write_graph(out, &c.graph);
            assert(out@ =~= start + graph_text(g@));
        },
    }
}

fn all_ident(cs: &Vec<char>) -> (r: bool)
    ensures
        r == all_ident_chars(cs@),
{
    let mut k: usize = 0;
    while k < cs.len()
        invariant
            k <= cs.len(),
            forall|x: int| 0 <= x < k ==> #[trigger] crate::syntax::is_ident_char(cs@[x]),
        decreases cs.len() - k,
    {
        if !is_ident_char_exec(cs[k]) {
            return false;
        }
        k = k + 1;
    }
    true
}

/// Whether `v` is a vertex-level variable.
pub fn is_lvar_string(v: &String) -> (r: bool)
    ensures
        r == is_lvar(v@),
{
    let cs = chars_of(v.as_str());
    if cs.len() == 0 || !is_lower_char(cs[0]) || !all_ident(&cs) {
        return false;
    }
    assert(cs@.subrange(0, cs.len() as int) =~= cs@);
    !is_keyword_at(&cs, 0, cs.len())
}

/// Whether `v` is a graph-level variable.
pub fn is_uvar_string(v: &String) -> (r: bool)
    ensures
        r == is_uvar(v@),
{
    let cs = chars_of(v.as_str());
    cs.len() > 0 && is_upper_char(cs[0]) && all_ident(&cs)
}

/// The first NUL in `v`, if any.
pub fn nul_position(v: &String) -> (r: Option<usize>)
    ensures
        r is None <==> has_no_nul(v@),
        r matches Some(p) ==> p < v@.len() && v@[p as int] == '\0',
{
    let cs = chars_of(v.as_str());
    let mut k: usize = 0;
    while k < cs.len()
        invariant
            k <= cs.len(),
            cs@ == v@,
            forall|x: int| 0 <= x < k ==> cs@[x] != '\0',
        decreases cs.len() - k,
    {
        if cs[k] == '\0' {
            return Some(k);
        }
        k = k + 1;
    }
    None
}

pub(crate) fn bad_identifier(v: &String) -> (e: Error)
    ensures
        e is InvalidIdentifier,
{
    Error::InvalidIdentifier { context: v.clone() }
}

pub open spec fn is_check_error(e: Error) -> bool {
    e is InvalidIdentifier || e is InvalidCString
}

pub fn check_name(n: &Name) -> (r: Result<(), Error>)
    ensures
        r is Ok <==> name_wf(n@),
        r matches Err(e) ==> is_check_error(e),
    decreases n,
{
    match n {
        Name::Wildcard => Ok(()),
        Name::VVar { value } => if is_lvar_string(value) {
            Ok(())
        } else {
            Err(bad_identifier(value))
        },
        Name::GVar { value } => if is_uvar_string(value) {
            Ok(())
        } else {
            Err(bad_identifier(value))
        },
        Name::QuoteGraph { value } => check_graph(value),
        Name::QuoteVertex { value } => check_name(&value.name),
    }
}

pub fn check_binding(b: &Binding) -> (r: Result<(), Error>)
    ensures
        r is Ok <==> binding_wf(b@),
        r matches Err(e) ==> is_check_error(e),
    decreases b,
{
    if !is_lvar_string(&b.var) {
        return Err(bad_identifier(&b.var));
    }
    match check_name(&b.vertex.name) {
        Err(e) => Err(e),
        Ok(()) => check_graph(&b.graph),
    }
}

/// Checks that `g` is a tree the parser could have produced, by recursion;
/// it serves graphs quoted in names, and `crate::check` walks whole trees.
pub fn check_graph(g: &Graph) -> (r: Result<(), Error>)
    ensures
        r is Ok <==> graph_wf(g@),
        r matches Err(e) ==> is_check_error(e),
    decreases g,
{
    match g {
        Graph::Nil => Ok(()),
        Graph::Vertex(v) => match check_name(&v.vertex.name) {
            Err(e) => Err(e),
            Ok(()) => check_graph(&v.graph),
        },
        Graph::Var(v) => if is_lvar_string(&v.var) {
            check_graph(&v.graph)
        } else {
            Err(bad_identifier(&v.var))
        },
        Graph::Nominate(b) => check_binding(b),
        Graph::EdgeAnon(e) => match check_binding(&e.binding_1) {
            Err(x) => Err(x),
            Ok(()) => check_binding(&e.binding_2),
        },
        Graph::EdgeNamed(e) => match check_name(&e.name) {
            Err(x) => Err(x),
            Ok(()) => match check_binding(&e.binding_1) {
                Err(x) => Err(x),
                Ok(()) => check_binding(&e.binding_2),
            },
        },
        Graph::RuleAnon(r) => match check_graph(&r.graph_1) {
            Err(x) => Err(x),
            Ok(()) => check_graph(&r.graph_2),
        },
        Graph::RuleNamed(r) => match check_name(&r.name) {
            Err(x) => Err(x),
            Ok(()) => match check_graph(&r.graph_1) {
            Err(x) => Err(x),
            Ok(()) => check_graph(&r.graph_2),
        },
        },
        Graph::Subgraph(b) => if is_uvar_string(&b.var) {
            match check_graph(&b.graph_1) {
            Err(x) => Err(x),
            Ok(()) => check_graph(&b.graph_2),
        }
        } else {
            Err(bad_identifier(&b.var))
        },
        Graph::Tensor(t) => match check_graph(&t.graph_1) {
            Err(x) => Err(x),
            Ok(()) => check_graph(&t.graph_2),
        },
        Graph::Context(c) => match check_name(&c.name) {
            Err(x) => Err(x),
            Ok(()) => match nul_position(&c.string) {
                Some(p) => Err(Error::InvalidCString { position: p }),
                None => check_graph(&c.graph),
            },
        },
    }
}

} // verus!
