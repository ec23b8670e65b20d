//! What every commitment scheme offers: to commit to a source value, and to
//! check a commitment against a source value.

use vstd::prelude::*;

verus! {

/// Why no commitment was made.
#[derive(Clone, Copy, Debug, PartialEq, Eq, Structural)]
pub enum CommitError {
    /// The source value asks for more than the scheme is willing to spend.
    ResourceExhausted,
}

/// A commitment to source values of type `S`.
pub trait CommitVerify<S>: Sized {
    /// The commitment is one that `commit` can give for the source value:
    /// all of it that does not come from fresh randomness is as the source
    /// value has it.
    spec fn commits_to(&self, source: &S) -> bool;

    /// The scheme has no commitment to the source value.
    spec fn exhausts(source: &S) -> bool;

    /// Commits to the source value. Fails only where the scheme has no
    /// commitment to it.
    fn commit(source: &S) -> (made: Result<Self, CommitError>)
        ensures
            made is Err <==> Self::exhausts(source),
            made matches Ok(commitment) ==> commitment.commits_to(source),
            made matches Err(error) ==> error == CommitError::ResourceExhausted,
    ;

    /// Whether the commitment is one to the source value.
    fn verify(&self, source: &S) -> (valid: bool)
        ensures
            valid == self.commits_to(source),
    ;
}

} // verus!
