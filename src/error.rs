//! Errors of the enrollment engine.
use vstd::prelude::*;

verus! {

/// What can go wrong in a call on the client.
#[derive(Clone, Copy, Debug, PartialEq, Eq, Structural)]
pub enum Error {
    /// The store has not been opened with `initialize` yet.
    DatabaseNotReady,
    /// No known experiment has the given slug.
    NoSuchExperiment,
    /// The experiment has no branch with the given slug.
    NoSuchBranch,
    /// Two experiments of a list share a slug.
    DuplicateExperiment,
    /// A URL of the settings server does not parse.
    InvalidUrl,
}

} // verus!
