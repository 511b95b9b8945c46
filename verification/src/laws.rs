use vstd::prelude::*;
use crate::manager::{apply_accepts, apply_step, rollback_accepts, rollback_step};

verus! {

/// Applying a version marks it applied, so within one manager's lifetime
/// a second `apply` of the same version is rejected with
/// `AlreadyApplied` — and a rejected `apply` leaves the manager and its
/// transaction untouched, so the forward action runs at most once per
/// version.
pub proof fn lemma_second_apply_rejected(applied: Set<i64>, version: i64)
    requires
        apply_accepts(applied, version),
    ensures
        !apply_accepts(apply_step(applied, version), version),
{
}

/// What `apply` adds, `rollback` takes away: rolling back a freshly
/// applied version is accepted and restores exactly the applied set the
/// manager started from.
pub proof fn lemma_rollback_undoes_apply(applied: Set<i64>, version: i64)
    requires
        apply_accepts(applied, version),
    ensures
        rollback_accepts(apply_step(applied, version), version),
        rollback_step(apply_step(applied, version), version) == applied,
{
    assert(rollback_step(apply_step(applied, version), version) =~= applied);
}

/// Once a version is rolled back it is pending again, so a further
/// `rollback` of the same version is rejected with `NotApplied` — and a
/// rejected `rollback` leaves the manager and its transaction untouched,
/// so the reverse action of a version runs at most once between two
/// applications of it.
pub proof fn lemma_second_rollback_rejected(applied: Set<i64>, version: i64)
    requires
        rollback_accepts(applied, version),
    ensures
        !rollback_accepts(rollback_step(applied, version), version),
{
}

} // verus!
