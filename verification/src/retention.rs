//! How long the indexer keeps a transaction it has seen.
//!
//! Each stored transaction carries a retention epoch, and pruning removes the rows whose retention
//! epoch lies before a cutoff. A transaction that commits is kept from the epoch it committed in; one
//! that never does is kept until the last epoch it could have been sequenced in, capped at a
//! ceiling so that a distant `max_epoch` cannot hold its row open for good.

use vstd::prelude::*;

verus! {

/// The retention epoch of a transaction with last valid epoch `max_epoch`, capped at `ceiling`,
/// that committed in `committed_in` if it did.
pub open spec fn spec_retention_epoch(max_epoch: u64, ceiling: u64, committed_in: Option<u64>) -> u64 {
    match committed_in {
        Some(e) => e,
        None => if max_epoch <= ceiling {
            max_epoch
        } else {
            ceiling
        },
    }
}

/// The retention epoch of a stored transaction: the epoch it committed in, once its receipt is
/// indexed, else its `max_epoch` capped at `ceiling`.
pub fn retention_epoch(max_epoch: u64, ceiling: u64, committed_in: Option<u64>) -> (e: u64)
    ensures
        e == spec_retention_epoch(max_epoch, ceiling, committed_in),
{
    match committed_in {
        Some(e) => e,
        None => if max_epoch <= ceiling {
            max_epoch
        } else {
            ceiling
        },
    }
}

/// Whether pruning before `cutoff` removes a row retained until `retention_epoch`.
pub fn is_pruned(retention_epoch: u64, cutoff: u64) -> (pruned: bool)
    ensures
        pruned == (retention_epoch < cutoff),
{
    retention_epoch < cutoff
}

/// No transaction outlives the ceiling unless it committed later: pruning past the ceiling removes
/// every row that has not committed; a committed row is pruned by its commit epoch alone, whatever
/// its `max_epoch`; and a row inside the ceiling keeps its own `max_epoch`.
pub proof fn lemma_retention_is_bounded(max_epoch: u64, ceiling: u64, committed_in: Option<u64>, cutoff: u64)
    ensures
        committed_in is None && cutoff > ceiling ==> spec_retention_epoch(max_epoch, ceiling, committed_in)
            < cutoff,
        committed_in matches Some(e) ==> (spec_retention_epoch(max_epoch, ceiling, committed_in) < cutoff
            <==> e < cutoff),
        committed_in is None && max_epoch <= ceiling ==> spec_retention_epoch(
            max_epoch,
            ceiling,
            committed_in,
        ) == max_epoch,
{
}

} // verus!
