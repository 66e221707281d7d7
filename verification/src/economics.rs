//! The indexer's running XTR totals, and the circulating supply they give.
//!
//! The claimed total and the burn summed from transaction receipts both advance with the synced
//! state, so their difference is internally consistent: it is the supply in circulation. A burn
//! above the claimed total means the stored totals disagree, which is reported rather than wrapped.

use vstd::prelude::*;

verus! {

/// The totals behind the XTR economics the indexer reports, in the smallest unit.
#[derive(Debug, Clone, Copy, PartialEq, Eq, Structural, Default)]
pub struct XtrEconomics {
    /// Total XTR claimed (peg-in), accumulated from claimed-output tombstones.
    pub total_claimed: u128,
    /// Total exhaust burned, from checkpoint headers.
    pub total_exhaust_burned: u128,
    /// Total fees paid by transaction payers, summed from transaction receipts.
    pub fee_volume: u128,
    /// Total exhaust burned, summed from the same transaction receipts as `fee_volume`.
    pub receipt_exhaust_burned: u128,
    /// Number of transaction receipts the indexer has stored.
    pub transaction_receipt_count: u64,
}

/// The stored totals disagree: more was burned than was ever claimed.
#[derive(Debug, Clone, Copy, PartialEq, Eq, Structural)]
pub struct SupplyUnderflow {
    pub claimed: u128,
    pub burnt: u128,
}

/// The XTR in circulation: what was claimed less what receipts burned, or the inconsistency when
/// the burn exceeds the claims.
pub fn total_supply(claimed: u128, receipt_exhaust_burned: u128) -> (r: Result<u128, SupplyUnderflow>)
    ensures
        claimed >= receipt_exhaust_burned ==> r == Ok::<u128, SupplyUnderflow>(
            (claimed - receipt_exhaust_burned) as u128,
        ),
        claimed < receipt_exhaust_burned ==> r == Err::<u128, SupplyUnderflow>(
            SupplyUnderflow { claimed, burnt: receipt_exhaust_burned },
        ),
{
    if claimed >= receipt_exhaust_burned {
        Ok(claimed - receipt_exhaust_burned)
    } else {
        Err(SupplyUnderflow { claimed, burnt: receipt_exhaust_burned })
    }
}

/// The running totals one synced batch adds to.
#[derive(Debug, Clone, Copy, PartialEq, Eq, Structural, Default)]
pub struct XtrTotals {
    pub claimed: u128,
    pub fees: u128,
    pub receipt_burn: u128,
}

impl XtrTotals {
    /// Counts a transaction receipt: what its payer spent in fees and the exhaust burned out of it,
    /// taken from the same receipt so that their ratio is the realised burn share. Totals past
    /// `u128::MAX` are outside what this accepts.
    pub fn add_receipt(&mut self, total_fees_paid: u128, exhaust_burn: u128)
        requires
            old(self).fees + total_fees_paid <= u128::MAX,
            old(self).receipt_burn + exhaust_burn <= u128::MAX,
        ensures
            final(self).fees == old(self).fees + total_fees_paid,
            final(self).receipt_burn == old(self).receipt_burn + exhaust_burn,
            final(self).claimed == old(self).claimed,
    {
        self.fees = self.fees + total_fees_paid;
        self.receipt_burn = self.receipt_burn + exhaust_burn;
    }

    /// Counts a claimed output of `value`. A total past `u128::MAX` is outside what this accepts.
    pub fn add_claim(&mut self, value: u128)
        requires
            old(self).claimed + value <= u128::MAX,
        ensures
            final(self).claimed == old(self).claimed + value,
            final(self).fees == old(self).fees,
            final(self).receipt_burn == old(self).receipt_burn,
    {
        self.claimed = self.claimed + value;
    }
}

/// The accumulated exhaust burn to record after syncing a checkpoint that burned `burn`, given the
/// total recorded so far (`None` when none is): the total plus `burn` when the checkpoint is new,
/// and nothing to record when it was stored before, so that a checkpoint synced again is not
/// counted twice.
pub open spec fn spec_burn_after_checkpoint(already_stored: bool, recorded: Option<u128>, burn: u128) -> Option<int> {
    if already_stored {
        None
    } else {
        Some(
            match recorded {
                Some(r) => r + burn,
                None => burn as int,
            },
        )
    }
}

/// The accumulated exhaust burn to record after syncing a checkpoint, or `None` when nothing is to
/// be recorded because the checkpoint was stored before. A total past `u128::MAX` is outside what
/// this accepts.
pub fn burn_after_checkpoint(already_stored: bool, recorded: Option<u128>, burn: u128) -> (r: Option<u128>)
    requires
        !already_stored ==> (match recorded {
            Some(r) => r + burn,
            None => burn as int,
        }) <= u128::MAX,
    ensures
        match spec_burn_after_checkpoint(already_stored, recorded, burn) {
            Some(total) => r == Some(total as u128),
            None => r is None,
        },
{
    if already_stored {
        return None;
    }
    match recorded {
        Some(r) => Some(r + burn),
        None => Some(burn),
    }
}

/// A checkpoint's burn is counted once: syncing it again, once it is stored, records nothing, and
/// the first sync adds exactly its burn to what was recorded.
pub proof fn lemma_checkpoint_burn_counted_once(recorded: Option<u128>, burn: u128)
    ensures
        spec_burn_after_checkpoint(true, recorded, burn) is None,
        spec_burn_after_checkpoint(false, recorded, burn) == Some(
            (match recorded {
                Some(r) => r as int,
                None => 0int,
            }) + burn,
        ),
{
}

} // verus!
