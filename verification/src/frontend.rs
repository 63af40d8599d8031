//! The front end: source text in, program syntax tree out. Scanning runs to
//! completion before parsing begins.

use vstd::prelude::*;
use vstd::string::StringSliceAdditionalSpecFns;

use crate::ast::{Program, ProgramView};
use crate::lexer::{spec_tokenize, Tokenizer, TokenizerError};
use crate::parser::{spec_parse_program, ParseError, Parser};

verus! {

/// Errors that halt the front end: lexical or syntactic.
#[derive(Clone, Copy, Debug, PartialEq, Eq, Structural)]
pub enum FrontendError {
    /// The tokenizer rejected a byte or a numeric literal.
    Lexical(TokenizerError),
    /// The parser rejected a token.
    Syntax(ParseError),
}

/// What the front end makes of a source text: the program's mathematical
/// value, or the first error.
pub open spec fn spec_front_end(input: Seq<u8>) -> Result<ProgramView, FrontendError> {
    match spec_tokenize(input) {
        Ok(toks) => match spec_parse_program(toks, 0) {
            Ok((program, pos)) => Ok(program),
            Err(e) => Err(FrontendError::Syntax(e)),
        },
        Err(e) => Err(FrontendError::Lexical(e)),
    }
}

/// The compiler front end, from source text to syntax tree.
pub struct Frontend {}

impl Frontend {
    /// Creates a front end.
    pub fn new() -> Frontend {
        Frontend {  }
    }

    /// Scans a source text to a token stream and parses it to a program,
    /// exactly as [`spec_front_end`] says.
    pub fn process_string(&self, text: &str) -> (r: Result<Program, FrontendError>)
        ensures
            match spec_front_end(text.spec_bytes()) {
                Ok(pv) => r matches Ok(p) && p.deep_view() == pv,
                Err(e) => r == Err::<Program, FrontendError>(e),
            },
    {
        let mut tokenizer = Tokenizer::new();

        match tokenizer.scan(text) {
            Ok(()) => {},
            Err(e) => return Err(FrontendError::Lexical(e)),
        }

        let stream = tokenizer.extract();
        proof {
            match spec_tokenize(text.spec_bytes()) {
                Ok(toks) => {
                    assert(stream@.tokens =~= toks);
                },
                Err(_) => {},
            }
        }

        let mut parser = Parser::new(stream);

        match parser.parse_program() {
            Ok(program) => Ok(program),
            Err(e) => Err(FrontendError::Syntax(e)),
        }
    }
}

} // verus!
