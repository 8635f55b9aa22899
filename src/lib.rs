//! GraphL: a parser, a printer and a generic tree walker for a small
//! graph-description language.
pub mod ast;
pub mod check;
pub mod clone;
pub mod count;
pub mod grammar;
pub mod laws;
pub mod lexer;
pub mod model;
pub mod parser;
pub mod print_visitor;
pub mod printer;
pub mod rholang;
pub mod syntax;
pub mod visitor;
pub mod walk;
pub mod walker;
pub mod xml;

use vstd::prelude::*;

use crate::ast::{Error, Graph};
use crate::grammar::parse_text;
use crate::lexer::{chars_of, skip_ws_at};
use crate::parser::parse_graph_at;
use crate::print_visitor::print_graph;
use crate::check::check_tree;
use crate::printer::is_check_error;
use crate::syntax::{graph_text, graph_wf};

verus! {

fn parse_error(position: usize, len: usize) -> (e: Error)
    ensures
        e matches Error::ParseError { position: p, .. } && p == position,
{
    let message = if position < len {
        "unexpected input".to_owned()
    } else {
        "unexpected end of input".to_owned()
    };
    Error::ParseError { position, message }
}

/// Parses GraphL source text. On failure the error gives the position, in
/// characters, where the text stops being GraphL.
pub fn parse_to_ast(code: String) -> (r: Result<Graph, Error>)
    ensures
        match parse_text(code@) {
            Ok(m) => r matches Ok(g) && g@ == m,
            Err(left) => r matches Err(Error::ParseError { position, .. }) && position + left
                == code@.len(),
        },
{
    let s = chars_of(code.as_str());
    proof {
        assert(s@.skip(0) =~= s@);
    }
    match parse_graph_at(&s, 0) {
        Err(p) => Err(parse_error(p, s.len())),
        Ok((g, j)) => {
            let k = skip_ws_at(&s, j);
            if k == s.len() {
                assert(s@.skip(k as int).len() == 0);
                Ok(g)
            } else {
                Err(parse_error(k, s.len()))
            }
        },
    }
}

/// Prints a tree as GraphL text. A tree with a malformed identifier, or with
/// a NUL in a context string, has no text and is refused.
pub fn ast_to_graphl(ast: Graph) -> (r: Result<String, Error>)
    ensures
        graph_wf(ast@) ==> (r matches Ok(s) && s@ == graph_text(ast@)),
        !graph_wf(ast@) ==> (r matches Err(e) && is_check_error(e)),
{
    match check_tree(&ast) {
        Err(e) => Err(e),
        Ok(()) => Ok(print_graph(&ast)),
    }
}

/// Parses `document` and prints it back in canonical form.
pub fn print(document: &str) -> (r: Result<String, Error>)
    ensures
        match parse_text(document@) {
            Ok(m) => r matches Ok(s) && s@ == graph_text(m),
            Err(left) => r matches Err(Error::ParseError { position, .. }) && position + left
                == document@.len(),
        },
{
    let code = document.to_owned();
    match parse_to_ast(code) {
        Err(e) => Err(e),
        Ok(g) => Ok(print_graph(&g)),
    }
}

} // verus!
