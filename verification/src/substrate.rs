//! The integrity gate: a root authorization token, checked once per cycle.

use vstd::prelude::*;

verus! {

/// The one token value that authorizes the engine.
pub open spec fn root_token() -> Seq<char> {
    "C_EQUALS_XNXALEXIS_ROOT"@
}

/// Holds the token handed in at construction.  The token never changes.
pub struct SovereignState {
    root_signature: String,
}

impl SovereignState {
    /// The token held.
    pub closed spec fn token(&self) -> Seq<char> {
        self.root_signature@
    }

    /// Whether the token held is the root token: every character equal, no
    /// fewer and no more.
    pub open spec fn intact(&self) -> bool {
        self.token() == root_token()
    }

    pub fn new(signature: &str) -> (state: Self)
        ensures
            state.token() == signature@,
    {
        Self { root_signature: signature.to_owned() }
    }

    /// Compares the token held with the root token.  A mismatch is an answer,
    /// not a failure: the caller decides what follows.
    pub fn verify_integrity(&self) -> (ok: bool)
        ensures
            ok == self.intact(),
    {
        let expected: String = "C_EQUALS_XNXALEXIS_ROOT".to_owned();
        self.root_signature == expected
    }
}

} // verus!
