use vstd::prelude::*;
use crate::parser::{spec_parse, ASTNode, ParseError, Parser};

verus! {

/// A compilation unit: the source text of one service program.
pub struct Compiler {
    pub source: String,
}

impl Compiler {
    pub fn new(source: String) -> (r: Compiler)
        ensures
            r.source == source,
    {
        Compiler { source }
    }

    /// Parse the held source into its syntax tree: the result is exactly
    /// `spec_parse` of the text, so compiling is deterministic and pure.
    pub fn compile(&self) -> (r: Result<ASTNode, ParseError>)
        requires
            self.source@.len() < usize::MAX,
        ensures
            match spec_parse(self.source@) {
                Ok(m) => r matches Ok(n) && n@ == m,
                Err(e) => r matches Err(pe) && pe@ == e,
            },
    {
        let mut parser = Parser::new(self.source.as_str());
        parser.parse_service()
    }
}

} // verus!
