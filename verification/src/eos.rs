//! End-of-sequence token handling.
//!
//! A backend derives one `EosTokenHandler` from its model configuration: a
//! single end-of-sequence id, a set of them, or none at all. The generation
//! loop stops at the first token the handler matches.

use vstd::prelude::*;

verus! {

#[derive(Debug, Clone)]
pub enum EosTokenHandler {
    Single(u32),
    Multiple(Vec<u32>),
    NoEos,
}

impl EosTokenHandler {
    /// Whether `token_id` ends a generation under this handler.
    pub open spec fn spec_is_eos(&self, token_id: u32) -> bool {
        match self {
            EosTokenHandler::Single(id) => token_id == *id,
            EosTokenHandler::Multiple(ids) => ids@.contains(token_id),
            EosTokenHandler::NoEos => false,
        }
    }

    #[verifier::loop_isolation(false)]
    pub fn is_eos_token(&self, token_id: u32) -> (r: bool)
        ensures
            r == self.spec_is_eos(token_id),
    {
        match self {
            EosTokenHandler::Single(id) => token_id == *id,
            EosTokenHandler::Multiple(ids) => {
                let mut i: usize = 0;
                while i < ids.len()
                    invariant
                        i <= ids@.len(),
                        forall|j: int| 0 <= j < i ==> ids@[j] != token_id,
                    decreases ids@.len() - i,
                {
                    if ids[i] == token_id {
                        assert(ids@.contains(token_id)) by {
                            assert(ids@[i as int] == token_id);
                        }
                        return true;
                    }
                    i = i + 1;
                }
                false
            },
            EosTokenHandler::NoEos => false,
        }
    }
}

} // verus!
