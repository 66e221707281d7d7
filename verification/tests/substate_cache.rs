use tari_engine_types::substate::SubstateId;
use tari_indexer::substate_cache::{
    CacheWriteDecision, CachedHead, SubstateCacheInvalidation, cache_excess, cache_write_decision, retires,
    timestamp_from,
};

fn substate() -> SubstateId {
    format!("component_{:064x}", 1).parse().unwrap()
}

fn receipt() -> SubstateId {
    format!("txreceipt_{:064x}", 1).parse().unwrap()
}

/// Components have their nonexistence cached; transaction receipts do not.
const COMPONENT_CACHES_NONEXISTENCE: bool = true;
const RECEIPT_CACHES_NONEXISTENCE: bool = false;

#[test]
fn a_first_creation_retires_nothing_but_the_nonexistence() {
    let invalidation = SubstateCacheInvalidation::created(&substate(), 0, COMPONENT_CACHES_NONEXISTENCE).unwrap();
    assert_eq!(invalidation.retires_up_to(), None);
    assert!(invalidation.retires_nonexistence());
}

#[test]
fn a_first_creation_is_dropped_where_nonexistence_is_not_cached() {
    assert!(SubstateCacheInvalidation::created(&receipt(), 0, RECEIPT_CACHES_NONEXISTENCE).is_none());
    let above = SubstateCacheInvalidation::created(&receipt(), 1, RECEIPT_CACHES_NONEXISTENCE).unwrap();
    assert_eq!(above.retires_up_to(), Some(0));
    assert!(!above.retires_nonexistence());
    assert_eq!(above.substate_id(), &receipt());
}

#[test]
fn a_creation_retires_every_version_below_it() {
    let invalidation = SubstateCacheInvalidation::created(&substate(), 6, COMPONENT_CACHES_NONEXISTENCE).unwrap();
    assert_eq!(invalidation.retires_up_to(), Some(5));
    assert!(invalidation.retires_nonexistence());
}

#[test]
fn a_destroy_retires_the_version_it_names_and_no_nonexistence() {
    let invalidation = SubstateCacheInvalidation::destroyed(substate(), 6);
    assert_eq!(invalidation.retires_up_to(), Some(6));
    assert!(!invalidation.retires_nonexistence());
}

#[test]
fn a_transition_retires_only_what_it_settles() {
    let created = SubstateCacheInvalidation::created(&substate(), 6, COMPONENT_CACHES_NONEXISTENCE).unwrap();
    assert!(retires(&created, Some(5)));
    assert!(retires(&created, None));
    assert!(!retires(&created, Some(6)));
    let destroyed = SubstateCacheInvalidation::destroyed(substate(), 6);
    assert!(retires(&destroyed, Some(6)));
    assert!(!retires(&destroyed, Some(7)));
    assert!(!retires(&destroyed, None));
}

const TTL: u64 = 60;
const NOW: i64 = 1_000_000;

fn head(version: Option<u32>, verified: bool, age: i64) -> Option<CachedHead> {
    Some(CachedHead { version, verified, cached_at: NOW - age })
}

#[test]
fn an_unretractable_nonexistence_is_refused() {
    assert_eq!(
        cache_write_decision(None, false, false, None, 100, None, NOW, TTL),
        CacheWriteDecision::RefusedUnretractableNonexistence
    );
    assert_eq!(cache_write_decision(None, false, true, None, 100, None, NOW, TTL), CacheWriteDecision::Write);
}

#[test]
fn a_transition_landing_mid_fetch_vetoes_the_write() {
    assert_eq!(
        cache_write_decision(Some(3), true, true, Some(105), 100, None, NOW, TTL),
        CacheWriteDecision::DiscardedStale
    );
    assert_eq!(cache_write_decision(Some(3), true, true, Some(100), 100, None, NOW, TTL), CacheWriteDecision::Write);
}

#[test]
fn a_nonexistence_yields_to_any_head_and_any_head_displaces_it() {
    assert_eq!(
        cache_write_decision(None, false, true, None, 100, head(Some(0), false, 0), NOW, TTL),
        CacheWriteDecision::KeptHigherHead
    );
    assert_eq!(
        cache_write_decision(Some(0), false, true, None, 100, head(None, false, 0), NOW, TTL),
        CacheWriteDecision::Write
    );
}

#[test]
fn a_lower_version_does_not_displace_a_fresh_head() {
    assert_eq!(
        cache_write_decision(Some(2), false, true, None, 100, head(Some(5), false, 0), NOW, TTL),
        CacheWriteDecision::KeptHigherHead
    );
    assert_eq!(
        cache_write_decision(Some(5), false, true, None, 100, head(Some(5), false, 0), NOW, TTL),
        CacheWriteDecision::Write
    );
}

#[test]
fn a_verified_result_displaces_an_unverified_head() {
    assert_eq!(
        cache_write_decision(Some(2), true, true, None, 100, head(Some(5), false, 0), NOW, TTL),
        CacheWriteDecision::Write
    );
    assert_eq!(put_entry(Some(6), true, 100, entry(Some(999), false, NOW)), CacheWriteDecision::Write);
}

#[test]
fn an_aged_verified_head_is_still_not_walked_back() {
    assert_eq!(
        cache_write_decision(Some(2), true, true, None, 100, head(Some(5), true, 10_000), NOW, TTL),
        CacheWriteDecision::KeptHigherHead
    );
}

#[test]
fn an_aged_unverified_head_does_not_block_a_lower_version() {
    assert_eq!(
        cache_write_decision(Some(2), false, true, None, 100, head(Some(5), false, 61), NOW, TTL),
        CacheWriteDecision::Write
    );
    assert_eq!(
        cache_write_decision(Some(2), false, true, None, 100, head(Some(5), false, 60), NOW, TTL),
        CacheWriteDecision::KeptHigherHead
    );
    let stale = NOW - HEAD_TTL as i64 - 1;
    assert_eq!(put_entry(Some(6), false, 100, entry(Some(999), false, stale)), CacheWriteDecision::Write);
}

#[test]
fn pruning_evicts_only_the_excess() {
    assert_eq!(cache_excess(105, 100), 5);
    assert_eq!(cache_excess(10, 100), -90);
    assert_eq!(cache_excess(i64::MIN, 1), i64::MIN);
}

/// The head time-to-live the indexer runs with.
const HEAD_TTL: u64 = 900;

fn entry(version: Option<u32>, verified: bool, cached_at: i64) -> Option<CachedHead> {
    Some(CachedHead { version, verified, cached_at })
}

/// A write of a component's entry at `version` fetched at `watermark`, over `cached`, with no
/// transition journalled.
fn put_entry(version: Option<u32>, verified: bool, watermark: u64, cached: Option<CachedHead>) -> CacheWriteDecision {
    cache_write_decision(version, verified, COMPONENT_CACHES_NONEXISTENCE, None, watermark, cached, NOW, HEAD_TTL)
}

#[test]
fn a_first_creation_retires_the_nonexistence_it_denies() {
    assert_eq!(put_entry(None, false, 100, None), CacheWriteDecision::Write);
    let created = SubstateCacheInvalidation::created(&substate(), 0, COMPONENT_CACHES_NONEXISTENCE).unwrap();
    assert!(retires(&created, None));
}

#[test]
fn a_later_creation_also_retires_the_nonexistence() {
    assert_eq!(put_entry(None, false, 100, None), CacheWriteDecision::Write);
    let created = SubstateCacheInvalidation::created(&substate(), 6, COMPONENT_CACHES_NONEXISTENCE).unwrap();
    assert!(retires(&created, None));
}

#[test]
fn a_destroy_leaves_a_cached_nonexistence_alone() {
    assert_eq!(put_entry(None, false, 100, None), CacheWriteDecision::Write);
    let destroyed = SubstateCacheInvalidation::destroyed(substate(), 6);
    assert!(!retires(&destroyed, None));
}

#[test]
fn a_creation_landing_mid_fetch_vetoes_the_nonexistence() {
    // The fetch captured the watermark at 100; the creation committed at 105 while it was in flight.
    assert_eq!(
        cache_write_decision(None, false, COMPONENT_CACHES_NONEXISTENCE, Some(105), 100, None, NOW, HEAD_TTL),
        CacheWriteDecision::DiscardedStale
    );
}

#[test]
fn a_nonexistence_is_refused_where_no_transition_would_retract_it() {
    assert_eq!(
        cache_write_decision(None, false, RECEIPT_CACHES_NONEXISTENCE, None, 100, None, NOW, HEAD_TTL),
        CacheWriteDecision::RefusedUnretractableNonexistence
    );
}

#[test]
fn a_nonexistence_yields_to_any_head() {
    assert_eq!(put_entry(None, false, 100, None), CacheWriteDecision::Write);
    assert_eq!(put_entry(Some(0), true, 100, entry(None, false, NOW)), CacheWriteDecision::Write);
    // ...and cannot displace one that is verified and current.
    assert_eq!(put_entry(None, false, 100, entry(Some(0), true, NOW)), CacheWriteDecision::KeptHigherHead);
}

#[test]
fn a_cached_head_is_held_until_a_transition_retires_it() {
    assert_eq!(put_entry(Some(5), true, 100, None), CacheWriteDecision::Write);
    let created = SubstateCacheInvalidation::created(&substate(), 6, COMPONENT_CACHES_NONEXISTENCE).unwrap();
    assert!(retires(&created, Some(5)));
}

#[test]
fn a_destroy_retires_the_version_it_names() {
    assert_eq!(put_entry(Some(5), true, 100, None), CacheWriteDecision::Write);
    let destroyed = SubstateCacheInvalidation::destroyed(substate(), 5);
    assert!(retires(&destroyed, Some(5)));
}

#[test]
fn a_transition_leaves_a_higher_cached_head_alone() {
    assert_eq!(put_entry(Some(9), true, 100, None), CacheWriteDecision::Write);
    let created = SubstateCacheInvalidation::created(&substate(), 7, COMPONENT_CACHES_NONEXISTENCE).unwrap();
    let destroyed = SubstateCacheInvalidation::destroyed(substate(), 8);
    assert!(!retires(&created, Some(9)));
    assert!(!retires(&destroyed, Some(9)));
}

#[test]
fn a_lower_version_does_not_displace_the_cached_head() {
    assert_eq!(put_entry(Some(6), true, 100, None), CacheWriteDecision::Write);
    assert_eq!(put_entry(Some(5), true, 100, entry(Some(6), true, NOW)), CacheWriteDecision::KeptHigherHead);
}

#[test]
fn an_aged_verified_head_is_still_not_walked_backwards() {
    let aged = NOW - HEAD_TTL as i64 - 1;
    assert_eq!(put_entry(Some(10), true, 100, None), CacheWriteDecision::Write);
    assert_eq!(put_entry(Some(6), true, 100, entry(Some(10), true, aged)), CacheWriteDecision::KeptHigherHead);
}

#[test]
fn a_write_is_vetoed_by_a_transition_that_landed_during_the_fetch() {
    let journalled = Some(105);
    assert_eq!(
        cache_write_decision(Some(6), true, COMPONENT_CACHES_NONEXISTENCE, journalled, 100, None, NOW, HEAD_TTL),
        CacheWriteDecision::DiscardedStale
    );
    // The same result fetched against a watermark that already covers the transition is current.
    assert_eq!(
        cache_write_decision(Some(6), true, COMPONENT_CACHES_NONEXISTENCE, journalled, 105, None, NOW, HEAD_TTL),
        CacheWriteDecision::Write
    );
}

#[test]
fn pruning_takes_the_excess_over_the_cap_and_a_cleared_journal_vetoes_nothing() {
    // Five entries over a cap of two: three are evicted.
    assert_eq!(cache_excess(5, 2), 3);
    // With no transition journalled, a fetch at an older watermark is written.
    assert_eq!(put_entry(Some(1), true, 100, None), CacheWriteDecision::Write);
}

#[test]
fn a_clock_reading_before_the_epoch_is_zero() {
    assert_eq!(timestamp_from(Some(1_700_000_000)), 1_700_000_000);
    assert_eq!(timestamp_from(None), 0);
}
