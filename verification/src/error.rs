//! The reasons for which an operation on the registry is rejected.

use vstd::prelude::*;

verus! {

/// Why an operation was rejected. A rejected operation changes nothing.
#[derive(Clone, Copy, Debug, PartialEq, Eq, Structural)]
pub enum ErrorCode {
    /// The registry was to be created by someone other than the configured
    /// administrator.
    UnauthorizedAdmin,
    /// The signer of an approval or a rejection is not the registry's
    /// authority.
    ConstraintHasOne,
    /// The program is already in one of the three buckets.
    HookAlreadyExists,
    /// The bucket that would receive the program is full.
    TooManyHooks,
    /// The program is not pending.
    HookNotFound,
}

} // verus!
