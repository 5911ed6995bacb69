//! Whether the lock on disk can be used as it is, or must be resolved
//! again, under the user's lock policy.
use vstd::prelude::*;

verus! {

/// How far the lock on disk is trusted.
#[derive(Debug, Clone, Copy, PartialEq, Eq)]
pub enum LockFileUsage {
    /// Resolve again when the lock is missing or out of date.
    Update,
    /// Fail when the lock is missing or out of date.
    Locked,
    /// Use the lock as it is, never resolving again.
    Frozen,
}

/// What to do about the lock.
#[derive(Debug, Clone, Copy, PartialEq, Eq)]
pub struct LockPlan {
    /// Resolve every environment and platform again, and write the lock.
    pub resolve: bool,
    /// Install an environment after resolving.
    pub install: bool,
}

/// Why the lock cannot be used.
#[derive(Debug, Clone, Copy, PartialEq, Eq)]
pub enum LockUpdateError {
    /// There is no lock and the policy forbids resolving.
    LockMissing,
    /// The lock does not match the manifest and the policy forbids resolving.
    LockOutdated,
}

/// Decides from the policy and the state of the lock. The lock is
/// resolved again only under `Update`, when it is missing or out of date;
/// an install follows a resolution unless `no_install`.
pub fn plan_lock_update(
    usage: LockFileUsage,
    lock_present: bool,
    lock_up_to_date: bool,
    no_install: bool,
) -> (r: Result<LockPlan, LockUpdateError>)
    ensures
        !lock_present && usage != LockFileUsage::Update ==> r == Err::<LockPlan, LockUpdateError>(
            LockUpdateError::LockMissing,
        ),
        lock_present && !lock_up_to_date && usage == LockFileUsage::Locked ==> r == Err::<
            LockPlan,
            LockUpdateError,
        >(LockUpdateError::LockOutdated),
        lock_present && (lock_up_to_date || usage == LockFileUsage::Frozen) ==> r == Ok::<
            LockPlan,
            LockUpdateError,
        >(LockPlan { resolve: false, install: false }),
        usage == LockFileUsage::Update && !(lock_present && lock_up_to_date) ==> r == Ok::<
            LockPlan,
            LockUpdateError,
        >(LockPlan { resolve: true, install: !no_install }),
{
    if !lock_present {
        match usage {
            LockFileUsage::Update => Ok(LockPlan { resolve: true, install: !no_install }),
            _ => Err(LockUpdateError::LockMissing),
        }
    } else if lock_up_to_date {
        Ok(LockPlan { resolve: false, install: false })
    } else {
        match usage {
            LockFileUsage::Update => Ok(LockPlan { resolve: true, install: !no_install }),
            LockFileUsage::Locked => Err(LockUpdateError::LockOutdated),
            LockFileUsage::Frozen => Ok(LockPlan { resolve: false, install: false }),
        }
    }
}

} // verus!
