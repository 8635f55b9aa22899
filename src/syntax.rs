//! Lexical rules of GraphL and the canonical text of each tree.
//!
//! Concrete syntax (whitespace may stand between any two tokens):
//!
//! ```text
//! graph   ::= "0"                                   Nil
//!           | "{" graph "}"                         grouping
//!           | vertex "|" graph                      Vertex
//!           | lvar "|" graph                        Var
//!           | binding                               Nominate
//!           | "let" uvar "=" graph "in" graph       Subgraph
//!           | "(" binding "," binding ")"           EdgeAnon
//!           | "edge" name "(" binding "," binding ")"   EdgeNamed
//!           | "rule" "(" graph "=>" graph ")"       RuleAnon
//!           | "rule" name "(" graph "=>" graph ")"  RuleNamed
//!           | "tensor" "(" graph "," graph ")"      Tensor
//!           | "context" string "for" name "in" graph    Context
//! binding ::= "let" lvar "=" vertex "in" graph
//! vertex  ::= "<" name ">"
//! name    ::= "_" | lvar | uvar | "@" "{" graph "}" | "@" vertex
//! ```
//!
//! An identifier is a letter followed by letters, digits, `_` and `'`;
//! `lvar` starts with a lower-case letter and is no keyword, `uvar` starts
//! with an upper-case letter. A string is written between double quotes,
//! with `\"` and `\\` standing for a quote and a backslash; it holds no NUL.
use vstd::prelude::*;

use crate::model::{BindingM, GraphM, NameM};

verus! {

pub open spec fn is_ws(c: char) -> bool {
    c == ' ' || c == '\t' || c == '\n' || c == '\r'
}

pub open spec fn is_lower(c: char) -> bool {
    'a' <= c && c <= 'z'
}

pub open spec fn is_upper(c: char) -> bool {
    'A' <= c && c <= 'Z'
}

pub open spec fn is_ident_char(c: char) -> bool {
    is_lower(c) || is_upper(c) || ('0' <= c && c <= '9') || c == '_' || c == '\''
}

pub open spec fn kw_let() -> Seq<char> {
    seq!['l', 'e', 't']
}

pub open spec fn kw_in() -> Seq<char> {
    seq!['i', 'n']
}

pub open spec fn kw_for() -> Seq<char> {
    seq!['f', 'o', 'r']
}

pub open spec fn kw_context() -> Seq<char> {
    seq!['c', 'o', 'n', 't', 'e', 'x', 't']
}

pub open spec fn kw_edge() -> Seq<char> {
    seq!['e', 'd', 'g', 'e']
}

pub open spec fn kw_rule() -> Seq<char> {
    seq!['r', 'u', 'l', 'e']
}

pub open spec fn kw_tensor() -> Seq<char> {
    seq!['t', 'e', 'n', 's', 'o', 'r']
}

pub open spec fn is_keyword(w: Seq<char>) -> bool {
    w == kw_let() || w == kw_in() || w == kw_for() || w == kw_context() || w == kw_edge()
        || w == kw_rule() || w == kw_tensor()
}

pub open spec fn all_ident_chars(w: Seq<char>) -> bool {
    forall|i: int| 0 <= i < w.len() ==> #[trigger] is_ident_char(w[i])
}

/// A vertex-level variable: lower-case first letter, and no keyword.
pub open spec fn is_lvar(w: Seq<char>) -> bool {
    w.len() > 0 && is_lower(w[0]) && all_ident_chars(w) && !is_keyword(w)
}

/// A graph-level variable: upper-case first letter.
pub open spec fn is_uvar(w: Seq<char>) -> bool {
    w.len() > 0 && is_upper(w[0]) && all_ident_chars(w)
}

pub open spec fn has_no_nul(s: Seq<char>) -> bool {
    forall|i: int| 0 <= i < s.len() ==> s[i] != '\0'
}

pub open spec fn name_wf(n: NameM) -> bool
    decreases n,
{
    match n {
        NameM::Wildcard => true,
        NameM::VVar(v) => is_lvar(v),
        NameM::GVar(v) => is_uvar(v),
        NameM::QuoteGraph(g) => graph_wf(*g),
        NameM::QuoteVertex(v) => name_wf(*v),
    }
}

pub open spec fn binding_wf(b: BindingM) -> bool
    decreases b,
{
    is_lvar(b.var) && name_wf(b.vertex) && graph_wf(*b.graph)
}

/// What the parser can produce: valid identifiers everywhere, and no NUL in a
/// context string.
pub open spec fn graph_wf(g: GraphM) -> bool
    decreases g,
{
    match g {
        GraphM::Nil => true,
        GraphM::Vertex(n, c) => name_wf(n) && graph_wf(*c),
        GraphM::Var(v, c) => is_lvar(v) && graph_wf(*c),
        GraphM::Nominate(b) => binding_wf(b),
        GraphM::EdgeAnon(b1, b2) => binding_wf(b1) && binding_wf(b2),
        GraphM::EdgeNamed(n, b1, b2) => name_wf(n) && binding_wf(b1) && binding_wf(b2),
        GraphM::RuleAnon(g1, g2) => graph_wf(*g1) && graph_wf(*g2),
        GraphM::RuleNamed(n, g1, g2) => name_wf(n) && graph_wf(*g1) && graph_wf(*g2),
        GraphM::Subgraph(v, g1, g2) => is_uvar(v) && graph_wf(*g1) && graph_wf(*g2),
        GraphM::Tensor(g1, g2) => graph_wf(*g1) && graph_wf(*g2),
        GraphM::Context(n, s, c) => name_wf(n) && has_no_nul(s) && graph_wf(*c),
    }
}

/// The body of a string literal: quote and backslash get a backslash before them.
pub open spec fn escape(s: Seq<char>) -> Seq<char>
    decreases s.len(),
{
    if s.len() == 0 {
        Seq::empty()
    } else if s[0] == '"' || s[0] == '\\' {
        seq!['\\', s[0]] + escape(s.drop_first())
    } else {
        seq![s[0]] + escape(s.drop_first())
    }
}

pub open spec fn name_text(n: NameM) -> Seq<char>
    decreases n,
{
    match n {
        NameM::Wildcard => seq!['_'],
        NameM::VVar(v) => v,
        NameM::GVar(v) => v,
        NameM::QuoteGraph(g) => seq!['@', '{'] + graph_text(*g) + seq!['}'],
        NameM::QuoteVertex(v) => seq!['@', '<'] + name_text(*v) + seq!['>'],
    }
}

pub open spec fn binding_text(b: BindingM) -> Seq<char>
    decreases b,
{
    seq!['l', 'e', 't', ' '] + b.var + seq![' ', '=', ' '] + seq!['<'] + name_text(b.vertex) + seq!['>'] + seq![
        ' ',
        'i',
        'n',
        ' ',
    ] + graph_text(*b.graph)
}

/// The canonical text of a graph: what the printer writes.
pub open spec fn graph_text(g: GraphM) -> Seq<char>
    decreases g,
{
    match g {
        GraphM::Nil => seq!['0'],
        GraphM::Vertex(n, c) => seq!['<'] + name_text(n) + seq!['>'] + seq![' ', '|', ' '] + graph_text(*c),
        GraphM::Var(v, c) => v + seq![' ', '|', ' '] + graph_text(*c),
        GraphM::Nominate(b) => binding_text(b),
        GraphM::EdgeAnon(b1, b2) => seq!['('] + binding_text(b1) + seq![',', ' '] + binding_text(
            b2,
        ) + seq![')'],
        GraphM::EdgeNamed(n, b1, b2) => seq!['e', 'd', 'g', 'e', ' '] + name_text(n) + seq![
            ' ',
            '(',
        ] + binding_text(b1) + seq![',', ' '] + binding_text(b2) + seq![')'],
        GraphM::RuleAnon(g1, g2) => seq!['r', 'u', 'l', 'e', ' ', '('] + graph_text(*g1) + seq![
            ' ',
            '=',
            '>',
            ' ',
        ] + graph_text(*g2) + seq![')'],
        GraphM::RuleNamed(n, g1, g2) => seq!['r', 'u', 'l', 'e', ' '] + name_text(n) + seq![
            ' ',
            '(',
        ] + graph_text(*g1) + seq![' ', '=', '>', ' '] + graph_text(*g2) + seq![')'],
        GraphM::Subgraph(v, g1, g2) => seq!['l', 'e', 't', ' '] + v + seq![' ', '=', ' ']
            + graph_text(*g1) + seq![' ', 'i', 'n', ' '] + graph_text(*g2),
        GraphM::Tensor(g1, g2) => seq!['t', 'e', 'n', 's', 'o', 'r', ' ', '('] + graph_text(*g1)
            + seq![',', ' '] + graph_text(*g2) + seq![')'],
        GraphM::Context(n, s, c) => seq!['c', 'o', 'n', 't', 'e', 'x', 't', ' ', '"'] + escape(s)
            + seq!['"', ' ', 'f', 'o', 'r', ' '] + name_text(n) + seq![' ', 'i', 'n', ' ']
            + graph_text(*c),
    }
}

} // verus!
