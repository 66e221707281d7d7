//! Where one streamed transition goes in the commit assembled from its state version.
//!
//! Only transitions whose substate the stream's value filter selects carry a value; the rest arrive
//! as an id and a version and must reach nothing but the cache invalidations. Indexing one, counting
//! it in the economic totals or emitting an event for it would all be reading a value that was never
//! sent.

use vstd::prelude::*;

use tari_engine_types::substate::SubstateId;

use crate::economics::XtrTotals;
use crate::substate_cache::SubstateCacheInvalidation;

verus! {

/// What a created substate is, as far as the commit is concerned.
#[derive(Debug, Clone, Copy, PartialEq, Eq, Structural)]
pub enum CreatedValue {
    /// A published template; `has_metadata` when it carries template metadata under a valid
    /// template address.
    Template { has_metadata: bool },
    /// A UTXO; `address_valid` when its id is a UTXO address, `has_output` when it holds an output.
    Utxo { address_valid: bool, has_output: bool },
    /// A transaction receipt, with what its payer spent in fees and the exhaust burned out of it.
    TransactionReceipt { address_valid: bool, total_fees_paid: u128, exhaust_burn: u128 },
    /// A validator fee pool.
    ValidatorFeePool,
    /// A claimed output of `value`.
    ClaimedOutputTombstone { value: u128 },
    /// Any other value, which the stream is not expected to carry.
    Unexpected,
    /// No value: the substate lies outside what the stream sends values for, or was pruned.
    Absent,
}

/// A streamed transition.
#[derive(Debug, Clone, Copy, PartialEq, Eq, Structural)]
pub enum UpdateKind {
    Create(CreatedValue),
    /// A destroyed substate: a UTXO being spent, or a read-only substate that cannot be.
    Destroy { is_utxo: bool, is_read_only: bool },
}

/// What happens to a UTXO.
#[derive(Debug, Clone, Copy, PartialEq, Eq, Structural)]
pub enum UtxoChange {
    Unspent,
    Spent,
}

/// Something the stream should never carry.
#[derive(Debug, Clone, Copy, PartialEq, Eq, Structural)]
pub enum Anomaly {
    UtxoWithInvalidAddress,
    ReceiptWithInvalidAddress,
    UnexpectedValue,
    DestroyedReadOnly,
}

/// Where a transition goes.
#[derive(Debug, Clone, Copy, PartialEq, Eq, Structural)]
pub struct UpdateRouting {
    /// Recorded among the version's substate transitions.
    pub transition: bool,
    /// Its template metadata enters the template catalogue.
    pub template_catalogue: bool,
    /// A UTXO change to index.
    pub utxo: Option<UtxoChange>,
    /// A transaction receipt to store, and to announce as finalized.
    pub transaction: bool,
    /// A validator fee pool to store.
    pub fee_pool: bool,
    /// Something that should never happen, to be reported.
    pub anomaly: Option<Anomaly>,
}

/// Where a transition goes, for a substate the value filter selects (`selected`) or not.
pub open spec fn spec_route(kind: UpdateKind, selected: bool) -> UpdateRouting {
    let nothing = UpdateRouting {
        transition: false,
        template_catalogue: false,
        utxo: None,
        transaction: false,
        fee_pool: false,
        anomaly: None,
    };
    let recorded = UpdateRouting { transition: true, ..nothing };
    if !selected {
        nothing
    } else {
        match kind {
            UpdateKind::Create(CreatedValue::Template { has_metadata }) => UpdateRouting {
                template_catalogue: has_metadata,
                ..recorded
            },
            UpdateKind::Create(CreatedValue::Utxo { address_valid, has_output }) => if !address_valid {
                UpdateRouting { anomaly: Some(Anomaly::UtxoWithInvalidAddress), ..recorded }
            } else if has_output {
                UpdateRouting { utxo: Some(UtxoChange::Unspent), ..recorded }
            } else {
                recorded
            },
            UpdateKind::Create(CreatedValue::TransactionReceipt { address_valid, .. }) => if address_valid {
                UpdateRouting { transaction: true, ..recorded }
            } else {
                UpdateRouting { anomaly: Some(Anomaly::ReceiptWithInvalidAddress), ..recorded }
            },
            UpdateKind::Create(CreatedValue::ValidatorFeePool) => UpdateRouting {
                fee_pool: true,
                ..recorded
            },
            UpdateKind::Create(CreatedValue::ClaimedOutputTombstone { .. }) => recorded,
            UpdateKind::Create(CreatedValue::Unexpected) => UpdateRouting {
                anomaly: Some(Anomaly::UnexpectedValue),
                ..recorded
            },
            UpdateKind::Create(CreatedValue::Absent) => recorded,
            UpdateKind::Destroy { is_utxo, is_read_only } => if is_utxo {
                UpdateRouting { utxo: Some(UtxoChange::Spent), ..recorded }
            } else if is_read_only {
                UpdateRouting { anomaly: Some(Anomaly::DestroyedReadOnly), ..recorded }
            } else {
                recorded
            },
        }
    }
}

/// What a transition adds to the running totals: a selected receipt under a valid address counts
/// its fees and burn, and a selected claimed output its value.
pub open spec fn spec_totals_after(totals: XtrTotals, kind: UpdateKind, selected: bool) -> XtrTotals {
    if !selected {
        totals
    } else {
        match kind {
            UpdateKind::Create(
                CreatedValue::TransactionReceipt { address_valid, total_fees_paid, exhaust_burn },
            ) => if address_valid {
                XtrTotals {
                    fees: (totals.fees + total_fees_paid) as u128,
                    receipt_burn: (totals.receipt_burn + exhaust_burn) as u128,
                    ..totals
                }
            } else {
                totals
            },
            UpdateKind::Create(CreatedValue::ClaimedOutputTombstone { value }) => XtrTotals {
                claimed: (totals.claimed + value) as u128,
                ..totals
            },
            _ => totals,
        }
    }
}

/// Totals that a transition cannot push past `u128::MAX`: only a receipt under a valid address and
/// a claimed output add to them.
pub open spec fn totals_fit(totals: XtrTotals, kind: UpdateKind) -> bool {
    match kind {
        UpdateKind::Create(
            CreatedValue::TransactionReceipt { address_valid, total_fees_paid, exhaust_burn },
        ) => address_valid ==> totals.fees + total_fees_paid <= u128::MAX && totals.receipt_burn
            + exhaust_burn <= u128::MAX,
        UpdateKind::Create(CreatedValue::ClaimedOutputTombstone { value }) => totals.claimed + value
            <= u128::MAX,
        _ => true,
    }
}

/// Sorts one streamed transition into the commit of its version, adding what it carries to the
/// version's running totals. A transition the value filter does not select adds nothing, so only a
/// selected one must keep the totals within `u128::MAX`.
pub fn route_update(kind: UpdateKind, selected: bool, totals: &mut XtrTotals) -> (routing:
    UpdateRouting)
    requires
        selected ==> totals_fit(*old(totals), kind),
    ensures
        routing == spec_route(kind, selected),
        *final(totals) == spec_totals_after(*old(totals), kind, selected),
{
    let nothing = UpdateRouting {
        transition: false,
        template_catalogue: false,
        utxo: None,
        transaction: false,
        fee_pool: false,
        anomaly: None,
    };
    if !selected {
        return nothing;
    }
    let recorded = UpdateRouting { transition: true, ..nothing };
    match kind {
        UpdateKind::Create(CreatedValue::Template { has_metadata }) => UpdateRouting {
            template_catalogue: has_metadata,
            ..recorded
        },
        UpdateKind::Create(CreatedValue::Utxo { address_valid, has_output }) => {
            if !address_valid {
                UpdateRouting { anomaly: Some(Anomaly::UtxoWithInvalidAddress), ..recorded }
            } else if has_output {
                UpdateRouting { utxo: Some(UtxoChange::Unspent), ..recorded }
            } else {
                recorded
            }
        },
        UpdateKind::Create(
            CreatedValue::TransactionReceipt { address_valid, total_fees_paid, exhaust_burn },
        ) => {
            if address_valid {
                totals.add_receipt(total_fees_paid, exhaust_burn);
                UpdateRouting { transaction: true, ..recorded }
            } else {
                UpdateRouting { anomaly: Some(Anomaly::ReceiptWithInvalidAddress), ..recorded }
            }
        },
        UpdateKind::Create(CreatedValue::ValidatorFeePool) => UpdateRouting {
            fee_pool: true,
            ..recorded
        },
        UpdateKind::Create(CreatedValue::ClaimedOutputTombstone { value }) => {
            totals.add_claim(value);
            recorded
        },
        UpdateKind::Create(CreatedValue::Unexpected) => UpdateRouting {
            anomaly: Some(Anomaly::UnexpectedValue),
            ..recorded
        },
        UpdateKind::Create(CreatedValue::Absent) => recorded,
        UpdateKind::Destroy { is_utxo, is_read_only } => {
            if is_utxo {
                UpdateRouting { utxo: Some(UtxoChange::Spent), ..recorded }
            } else if is_read_only {
                UpdateRouting { anomaly: Some(Anomaly::DestroyedReadOnly), ..recorded }
            } else {
                recorded
            }
        },
    }
}

/// Takes one streamed transition of `substate_id` at `version` into the commit of its version: the
/// cache entries it retires, which every transition has whether or not the value filter selects its
/// substate (a creation through [`SubstateCacheInvalidation::created`], a destroy through
/// [`SubstateCacheInvalidation::destroyed`]), and where it goes, with what it adds to the running
/// totals, which only a selected one has. `caches_nonexistence` says whether the cache records that
/// a substate like this one does not exist.
pub fn take_transition(
    substate_id: &SubstateId,
    version: u32,
    caches_nonexistence: bool,
    kind: UpdateKind,
    selected: bool,
    totals: &mut XtrTotals,
) -> (r: (Option<SubstateCacheInvalidation>, UpdateRouting))
    requires
        selected ==> totals_fit(*old(totals), kind),
    ensures
        r.1 == spec_route(kind, selected),
        *final(totals) == spec_totals_after(*old(totals), kind, selected),
        kind is Create ==> (r.0 is None <==> (version == 0 && !caches_nonexistence)),
        kind is Create && r.0 is Some ==> r.0.unwrap().spec_substate_id() == *substate_id
            && r.0.unwrap().spec_retires_up_to() == (if version == 0 {
            None
        } else {
            Some((version - 1) as u32)
        }) && r.0.unwrap().spec_retires_nonexistence() == caches_nonexistence,
        kind is Destroy ==> r.0 is Some && r.0.unwrap().spec_substate_id() == *substate_id
            && r.0.unwrap().spec_retires_up_to() == Some(version)
            && !r.0.unwrap().spec_retires_nonexistence(),
{
    let invalidation = match kind {
        UpdateKind::Create(_) => SubstateCacheInvalidation::created(substate_id, version, caches_nonexistence),
        UpdateKind::Destroy { .. } => Some(SubstateCacheInvalidation::destroyed(substate_id.clone(), version)),
    };
    let routing = route_update(kind, selected, totals);
    (invalidation, routing)
}

/// A transition the value filter does not select reaches nothing and adds nothing to the totals.
pub proof fn lemma_unselected_updates_reach_nothing(kind: UpdateKind, totals: XtrTotals)
    ensures
        spec_route(kind, false) == (UpdateRouting {
            transition: false,
            template_catalogue: false,
            utxo: None,
            transaction: false,
            fee_pool: false,
            anomaly: None,
        }),
        spec_totals_after(totals, kind, false) == totals,
{
}

/// Only a receipt ever counts fees or burn, only a claimed output ever counts claims, and a selected
/// transition is always recorded among the version's transitions.
pub proof fn lemma_totals_move_only_for_their_own_kind(kind: UpdateKind, totals: XtrTotals, selected: bool)
    ensures
        spec_totals_after(totals, kind, selected).fees != totals.fees ==> kind matches UpdateKind::Create(
            CreatedValue::TransactionReceipt { .. },
        ),
        spec_totals_after(totals, kind, selected).claimed != totals.claimed ==> kind matches UpdateKind::Create(
            CreatedValue::ClaimedOutputTombstone { .. },
        ),
        selected ==> spec_route(kind, selected).transition,
{
}

/// Each index is reached only by its own kind of transition: a UTXO is indexed as spent only when a
/// UTXO is destroyed, and as unspent only when a UTXO holding an output is created under a valid
/// address; a receipt is stored only for a receipt under a valid address, a fee pool only for a fee
/// pool, and template metadata only for a template that carries it. Conversely, a selected UTXO's
/// destroy is always indexed as a spend.
pub proof fn lemma_each_index_takes_only_its_own_kind(kind: UpdateKind, selected: bool)
    ensures
        spec_route(kind, selected).utxo == Some(UtxoChange::Spent) ==> kind matches UpdateKind::Destroy {
            is_utxo: true,
            ..
        },
        spec_route(kind, selected).utxo == Some(UtxoChange::Unspent) ==> kind == UpdateKind::Create(
            CreatedValue::Utxo { address_valid: true, has_output: true },
        ),
        spec_route(kind, selected).transaction ==> kind matches UpdateKind::Create(
            CreatedValue::TransactionReceipt { address_valid: true, .. },
        ),
        spec_route(kind, selected).fee_pool ==> kind == UpdateKind::Create(CreatedValue::ValidatorFeePool),
        spec_route(kind, selected).template_catalogue ==> kind == UpdateKind::Create(
            CreatedValue::Template { has_metadata: true },
        ),
        (selected && kind matches UpdateKind::Destroy { is_utxo: true, .. }) ==> spec_route(kind, selected).utxo
            == Some(UtxoChange::Spent),
        (kind matches UpdateKind::Destroy { is_utxo: false, is_read_only: false }) ==> spec_route(
            kind,
            selected,
        ).utxo is None && spec_route(kind, selected).anomaly is None,
{
}

} // verus!
