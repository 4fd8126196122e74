use vstd::prelude::*;

verus! {

/// Why an operation was rejected. A rejected operation changes nothing.
#[derive(Clone, Copy, Debug, PartialEq, Eq)]
pub enum ErrorKind {
    /// An input does not meet what the operation asks of it: a balance is too
    /// small, a mint or an amount is not the expected one, or the caller is
    /// not the one who may act. The caller may retry with other inputs.
    PreconditionFailed,
    /// The record or account operated on does not exist, or exists no more.
    NotFound,
    /// The place that the inputs select is taken, or no address can be
    /// derived for them. The caller must choose another seed or name.
    Collision,
    /// An input contradicts what the system guarantees, such as a vault that
    /// answers to another authority.
    InvariantViolation,
}

/// Whether an operation behaved as `expected` says: on success it returned
/// `Ok` and left the state that `expected` holds; on failure it returned that
/// error and left the state as it was.
pub open spec fn follows<S>(expected: Result<S, ErrorKind>, r: Result<(), ErrorKind>, before: S, after: S) -> bool {
    match expected {
        Ok(s) => r is Ok && after == s,
        Err(e) => r == Err::<(), ErrorKind>(e) && after == before,
    }
}

} // verus!
