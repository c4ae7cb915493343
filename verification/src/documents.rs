//! Semantic-token candidates the core hands to an editor collaborator: a
//! classified span, addressed by character offset and length.

use vstd::prelude::*;

verus! {

/// A semantic-token candidate awaiting delta encoding: the classified span
/// of one document token.
#[derive(Debug, Clone, PartialEq, Eq, Structural)]
pub struct ImCompleteSemanticToken {
    /// Character offset of the span's start in its document.
    pub start: usize,
    /// Character length of the span.
    pub length: usize,
    /// Index of the classification in the collaborator's legend.
    pub token_type: u32,
}

impl ImCompleteSemanticToken {
    pub fn new(start: usize, length: usize, token_type: u32) -> (r: Self)
        ensures
            r == (ImCompleteSemanticToken { start, length, token_type }),
    {
        Self { start, length, token_type }
    }
}

} // verus!
