use vstd::prelude::*;

use crate::tokens::Token;

verus! {

/// What the front end records of its progress, phase by phase.
pub struct DebugData {
    pub dubug_stack: Vec<DebugPhase>,
}

pub enum DebugPhase {
    Lexer(LexerDebugData),
    Parser(),
}

/// Where the lexer stood.
pub struct LexerDebugData {
    pub position: usize,
    pub column: usize,
    pub line: usize,
}

/// The tokens that the parser has consumed.
pub struct ParserDebugData {
    pub consumed_tokens: Vec<Token>,
}

} // verus!
