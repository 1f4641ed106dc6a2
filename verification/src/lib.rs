//! A small statement-oriented scripting language whose numeric literals may be
//! written in Arabic or Roman notation: a strict bidirectional Roman-numeral
//! codec, a lexer, a recursive-descent parser, and a tree-walking evaluator
//! over a mutable variable environment.

use vstd::prelude::*;

pub mod ast;
pub mod environment;
pub mod error;
pub mod evaluator;
pub mod lexer;
pub mod parser;
pub mod roman;
pub mod span;
pub mod text;
pub mod token;

pub use error::NumerusError;
pub use evaluator::Interpreter;
pub use lexer::Lexer;
pub use parser::Parser;
pub use roman::{from_roman, to_roman};

use crate::ast::Program;
use crate::error::SpecNumerusError;
use crate::lexer::{lemma_spec_lex_ends_in_eof, spec_lex, tokens_view};
use crate::parser::spec_parse_program;

verus! {

/// Lex and parse a source text in one step: the program, or the first
/// lexical or syntax error.
pub fn lex_and_parse(source: &str) -> (r: Result<Program, NumerusError>)
    requires
        source@.len() < usize::MAX,
    ensures
        ({
            match spec_lex(source@, 0, 1, 1) {
                Err(e) => r matches Err(re) && re@ == e,
                Ok(ts) => match spec_parse_program(ts, 0) {
                    Err(e) => r matches Err(re) && re@ == e,
                    Ok(sts) => r matches Ok(p) && p@ == sts,
                },
            }
        }),
{
    let mut lexer = Lexer::new(source);
    let tokens = match lexer.tokenize() {
        Ok(t) => t,
        Err(e) => return Err(e),
    };
    proof {
        lemma_spec_lex_ends_in_eof(source@, 0, 1, 1);
        assert(tokens_view(tokens@).last() == tokens@[tokens@.len() - 1]@);
    }
    let mut parser = Parser::new(tokens);
    parser.parse()
}

} // verus!
