//! The two ways an operation on a remote function can fail.

use vstd::prelude::*;

verus! {

/// Failure of an operation, tagged with the stage it occurred in.
///
/// `G` is the error the remote side reports for a fetch, `U` the one it
/// reports for a replacement. Neither is interpreted here: the cause is
/// carried through untouched.
#[derive(Debug, PartialEq, Eq)]
pub enum Error<G, U> {
    /// Fetching the current configuration failed.
    GetConfig(G),
    /// Replacing the environment failed.
    UpdateConfig(U),
}

impl<G, U> Error<G, U> {
    /// Tags a failed fetch.
    pub fn from_get(cause: G) -> (error: Self)
        ensures
            error == Error::<G, U>::GetConfig(cause),
    {
        Error::GetConfig(cause)
    }

    /// Tags a failed replacement.
    pub fn from_update(cause: U) -> (error: Self)
        ensures
            error == Error::<G, U>::UpdateConfig(cause),
    {
        Error::UpdateConfig(cause)
    }
}

} // verus!
