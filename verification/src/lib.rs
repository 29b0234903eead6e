pub mod auth;
pub mod collections;
pub mod compiler;
pub mod datetime;
pub mod dispatch;
pub mod lexer;
pub mod parser;
pub mod string;
pub mod text;

use vstd::prelude::*;
use crate::compiler::Compiler;

verus! {

/// The entry point of the language runtime: a source program and the port
/// the compiled service is to be served on. Compiling the source and
/// answering requests against the resulting routing table are verified;
/// reading files and carrying HTTP are a surrounding program's work.
pub struct Aether {
    pub compiler: Compiler,
    pub port: u16,
}

impl Aether {
    /// A runtime over the given source, on the default port 8080.
    pub fn new(source: String) -> (r: Aether)
        ensures
            r.compiler.source == source,
            r.port == 8080,
    {
        Aether { compiler: Compiler::new(source), port: 8080 }
    }

    /// The same runtime on another port.
    pub fn with_port(self, port: u16) -> (r: Aether)
        ensures
            r.compiler == self.compiler,
            r.port == port,
    {
        Aether { compiler: self.compiler, port }
    }
}

} // verus!
