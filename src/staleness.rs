//! The decision whether an output must be regenerated.

use vstd::prelude::*;
use crate::snapshot::{EntrySpec, Snapshot};

verus! {

/// An output is stale when its artifact is missing, when no snapshot was
/// recorded for it, or when the recorded snapshot differs from the current
/// one.
pub open spec fn rebuild_needed(
    prior: Option<Seq<EntrySpec>>,
    current: Seq<EntrySpec>,
    artifact_exists: bool,
) -> bool {
    !artifact_exists || match prior {
        None => true,
        Some(p) => p != current,
    }
}

/// The recorded snapshot of an output, as plain values.
pub open spec fn prior_view(prior: Option<&Snapshot>) -> Option<Seq<EntrySpec>> {
    match prior {
        None => None,
        Some(p) => Some(p@),
    }
}

/// Whether the output whose recorded snapshot is `prior` must be built again
/// from sources whose snapshot is `current`.
pub fn should_rebuild(prior: Option<&Snapshot>, current: &Snapshot, artifact_exists: bool) -> (r:
    bool)
    ensures
        r == rebuild_needed(prior_view(prior), current@, artifact_exists),
{
    if !artifact_exists {
        return true;
    }
    match prior {
        None => true,
        Some(p) => !p.eq(current),
    }
}

/// A missing artifact is always rebuilt, whatever the snapshots say.
pub proof fn lemma_missing_artifact_rebuilds(
    prior: Option<Seq<EntrySpec>>,
    current: Seq<EntrySpec>,
)
    ensures
        rebuild_needed(prior, current, false),
{
}

/// An output is skipped exactly when its artifact exists and a snapshot was
/// recorded for it that equals the current one.
pub proof fn lemma_skip_exactly_when_unchanged(
    prior: Option<Seq<EntrySpec>>,
    current: Seq<EntrySpec>,
    artifact_exists: bool,
)
    ensures
        !rebuild_needed(prior, current, artifact_exists) <==> (artifact_exists && prior
            == Some(current)),
{
}

} // verus!
