//! The persistence sync's phase rule: stale rows from earlier runs are
//! cleaned only after this run's insert batch has committed, since the
//! cleanup assumes every surviving row carries the new batch stamp.

use vstd::prelude::*;

verus! {

/// Where one run's persistence sync stands.
#[derive(Clone, Copy, PartialEq, Eq, Structural, Debug)]
pub enum SyncPhase {
    /// The insert batch has not been tried yet.
    Pending,
    /// The insert batch committed.
    Committed,
    /// The insert batch failed; nothing more may run.
    Failed,
}

/// The phase the sync reaches once the insert batch has ended.
pub open spec fn spec_after_insert(committed: bool) -> SyncPhase {
    if committed {
        SyncPhase::Committed
    } else {
        SyncPhase::Failed
    }
}

/// Records how the insert batch ended.
pub fn after_insert(committed: bool) -> (p: SyncPhase)
    ensures
        p == spec_after_insert(committed),
{
    if committed {
        SyncPhase::Committed
    } else {
        SyncPhase::Failed
    }
}

/// Whether the stale-row cleanup may run: only once the insert batch
/// has committed.
pub fn may_cleanup(p: &SyncPhase) -> (r: bool)
    ensures
        r == (*p == SyncPhase::Committed),
{
    match p {
        SyncPhase::Committed => true,
        _ => false,
    }
}

/// The cleanup runs exactly when the insert batch committed: a failed
/// batch blocks it.
pub proof fn lemma_cleanup_iff_committed(committed: bool)
    ensures
        (spec_after_insert(committed) == SyncPhase::Committed) <==> committed,
{
}

} // verus!
