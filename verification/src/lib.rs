//! Lexical front end for the B language: a source context that hands out
//! stable spans over the source text, and the tokenizer that fills it.

use vstd::prelude::*;

pub mod ast;
pub mod context;
pub mod lex;
pub mod scan;
pub mod state;
pub mod text;

verus! {

/// What parsing gives. No stage fills it yet.
#[derive(Debug, PartialEq, Eq)]
pub struct SyntaxTree {}

/// Turns a token stream into a syntax tree.
pub fn parse(_token_stream: lex::TokenList, _config: &state::CompilationConfiguration) -> (tree:
    SyntaxTree)
    ensures
        tree == (SyntaxTree {  }),
{
    SyntaxTree {  }
}

/// Compiles the source text `source_text` that was loaded from
/// `source_path`: scans it into tokens and parses them.
pub fn compile(
    source_path: String,
    source_text: String,
    config: &state::CompilationConfiguration,
) -> (tree: SyntaxTree)
    requires
        context::scannable(source_text@),
    ensures
        tree == (SyntaxTree {  }),
{
    let tokens: lex::TokenList = lex::lex(source_path, source_text, config);
    let tree: SyntaxTree = parse(tokens, config);
    tree
}

} // verus!
