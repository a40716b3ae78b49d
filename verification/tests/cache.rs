use mail_core::cache::{CachedDirectory, LookupCache};

const SECOND: u128 = 1_000_000_000;

#[test]
fn eviction_scenario_with_capacity_two() {
    let mut cache = LookupCache::new(2, 60 * SECOND, 10 * SECOND);
    cache.insert_pos_at("a".to_string(), 0);
    cache.insert_pos_at("b".to_string(), 0);
    cache.insert_pos_at("c".to_string(), 0);
    assert_eq!(cache.get_at("a", SECOND), None);
    assert_eq!(cache.get_at("b", SECOND), Some(true));
    assert_eq!(cache.get_at("c", SECOND), Some(true));
}

#[test]
fn negative_verdict_expires_after_its_ttl() {
    let mut cache = LookupCache::new(2, 60 * SECOND, 10 * SECOND);
    cache.insert_neg_at("x".to_string(), 0);
    assert_eq!(cache.get_at("x", 5 * SECOND), Some(false));
    assert_eq!(cache.get_at("x", 15 * SECOND), None);
}

#[test]
fn verdict_is_valid_up_to_and_including_its_expiry() {
    let mut cache = LookupCache::new(2, 60 * SECOND, 10 * SECOND);
    cache.insert_pos_at("k".to_string(), 7);
    assert_eq!(cache.get_at("k", 7 + 60 * SECOND), Some(true));
    assert_eq!(cache.get_at("k", 8 + 60 * SECOND), None);
    cache.insert_neg_at("n".to_string(), 7);
    assert_eq!(cache.get_at("n", 7 + 10 * SECOND), Some(false));
    assert_eq!(cache.get_at("n", 8 + 10 * SECOND), None);
}

#[test]
fn zero_ttl_expires_once_the_clock_moves() {
    let mut cache = LookupCache::new(2, 0, 0);
    cache.insert_pos_at("k".to_string(), 100);
    assert_eq!(cache.get_at("k", 101), None);
    // The expired entry is gone for good, also for an earlier instant.
    assert_eq!(cache.get_at("k", 100), None);
    cache.insert_pos_at("k".to_string(), 100);
    assert_eq!(cache.get_at("k", 100), Some(true));
}

#[test]
fn expired_entries_are_evicted_by_the_lookup() {
    let mut cache = LookupCache::new(2, 10, 10);
    cache.insert_neg_at("n".to_string(), 0);
    assert_eq!(cache.get_at("n", 11), None);
    assert_eq!(cache.get_at("n", 5), None);
    cache.insert_pos_at("p".to_string(), 0);
    assert_eq!(cache.get_at("p", 11), None);
    assert_eq!(cache.get_at("p", 5), None);
}

#[test]
fn a_lookup_refreshes_the_entry() {
    let mut cache = LookupCache::new(2, 60 * SECOND, 10 * SECOND);
    cache.insert_pos_at("a".to_string(), 0);
    cache.insert_pos_at("b".to_string(), 0);
    assert_eq!(cache.get_at("a", 1), Some(true));
    cache.insert_pos_at("c".to_string(), 2);
    assert_eq!(cache.get_at("b", 3), None);
    assert_eq!(cache.get_at("a", 3), Some(true));
    assert_eq!(cache.get_at("c", 3), Some(true));
}

#[test]
fn inserting_again_replaces_and_refreshes() {
    let mut cache = LookupCache::new(2, 10, 10);
    cache.insert_pos_at("a".to_string(), 0);
    cache.insert_pos_at("b".to_string(), 0);
    cache.insert_pos_at("a".to_string(), 5);
    cache.insert_pos_at("c".to_string(), 5);
    assert_eq!(cache.get_at("b", 6), None);
    assert_eq!(cache.get_at("a", 15), Some(true));
    assert_eq!(cache.get_at("a", 16), None);
}

#[test]
fn a_live_positive_verdict_hides_a_fresh_negative_one() {
    let mut cache = LookupCache::new(4, 60, 10);
    cache.insert_pos_at("k".to_string(), 0);
    cache.insert_neg_at("k".to_string(), 50);
    assert_eq!(cache.get_at("k", 55), Some(true));
    assert_eq!(cache.get_at("k", 60), Some(true));
    cache.insert_neg_at("k".to_string(), 58);
    assert_eq!(cache.get_at("k", 61), Some(false));
    assert_eq!(cache.get_at("k", 69), None);
}

#[test]
fn the_two_structures_are_bounded_separately() {
    let mut cache = LookupCache::new(1, 60, 60);
    cache.insert_pos_at("p".to_string(), 0);
    cache.insert_neg_at("n".to_string(), 0);
    assert_eq!(cache.get_at("p", 1), Some(true));
    assert_eq!(cache.get_at("n", 1), Some(false));
    cache.insert_neg_at("m".to_string(), 1);
    assert_eq!(cache.get_at("n", 1), None);
    assert_eq!(cache.get_at("m", 1), Some(false));
    assert_eq!(cache.get_at("p", 1), Some(true));
}

#[test]
fn a_cache_without_room_keeps_nothing() {
    let mut cache = LookupCache::new(0, 60, 60);
    cache.insert_pos_at("a".to_string(), 0);
    cache.insert_neg_at("b".to_string(), 0);
    assert_eq!(cache.get_at("a", 0), None);
    assert_eq!(cache.get_at("b", 0), None);
}

#[test]
fn an_expiry_beyond_the_last_instant_never_comes() {
    let mut cache = LookupCache::new(1, u128::MAX, 1);
    cache.insert_pos_at("k".to_string(), 5);
    assert_eq!(cache.get_at("k", u128::MAX), Some(true));
}

#[test]
fn clear_empties_both_structures() {
    let mut cache = LookupCache::new(4, 60, 60);
    cache.insert_pos_at("p".to_string(), 0);
    cache.insert_neg_at("n".to_string(), 0);
    cache.clear();
    assert_eq!(cache.get_at("p", 0), None);
    assert_eq!(cache.get_at("n", 0), None);
    cache.insert_pos_at("p".to_string(), 0);
    assert_eq!(cache.get_at("p", 0), Some(true));
}

#[test]
fn positive_round_trip_on_the_real_clock() {
    let mut cache = LookupCache::new(4, 60 * SECOND, 10 * SECOND);
    cache.insert_pos("k".to_string());
    assert_eq!(cache.get("k"), Some(true));
    cache.insert_neg("n".to_string());
    assert_eq!(cache.get("n"), Some(false));
    assert_eq!(cache.get("absent"), None);
    let earlier = cache.now();
    assert!(cache.now() >= earlier);
}

#[test]
fn directory_without_entries_is_disabled() {
    assert!(CachedDirectory::try_from_config(None, Some(SECOND), Some(SECOND)).is_none());
    assert!(CachedDirectory::try_from_config(None, None, None).is_none());
}

#[test]
fn directory_keeps_domains_and_recipients_apart() {
    let mut dir = CachedDirectory::try_from_config(Some(8), None, None).unwrap();
    assert_eq!(dir.get_rcpt("jane@example.org"), None);
    dir.set_rcpt("jane@example.org", true);
    dir.set_domain("example.org", false);
    assert_eq!(dir.get_rcpt("jane@example.org"), Some(true));
    assert_eq!(dir.get_domain("example.org"), Some(false));
    assert_eq!(dir.get_domain("jane@example.org"), None);
    assert_eq!(dir.get_rcpt("example.org"), None);
    dir.set_rcpt("john@example.org", false);
    dir.set_domain("example.net", true);
    assert_eq!(dir.get_rcpt("john@example.org"), Some(false));
    assert_eq!(dir.get_domain("example.net"), Some(true));
}

#[test]
fn directory_takes_its_lifetimes_from_configuration() {
    let mut dir = CachedDirectory::try_from_config(Some(2), Some(0), Some(60 * SECOND)).unwrap();
    dir.set_domain("example.org", true);
    let start = std::time::Instant::now();
    while start.elapsed().as_nanos() < 2_000_000 {}
    assert_eq!(dir.get_domain("example.org"), None);
    dir.set_domain("example.org", false);
    assert_eq!(dir.get_domain("example.org"), Some(false));
}

#[test]
fn set_records_either_verdict() {
    let mut cache = LookupCache::new(4, 60, 10);
    cache.set_at("yes".to_string(), true, 0);
    cache.set_at("no".to_string(), false, 0);
    assert_eq!(cache.get_at("yes", 60), Some(true));
    assert_eq!(cache.get_at("no", 10), Some(false));
    assert_eq!(cache.get_at("no", 11), None);
    let mut cache = LookupCache::new(4, 60 * SECOND, 60 * SECOND);
    cache.set("now".to_string(), false);
    assert_eq!(cache.get("now"), Some(false));
    cache.set("now".to_string(), true);
    assert_eq!(cache.get("now"), Some(true));
}
