use site_registry::model::EventKind;
use site_registry::registry::Registry;

fn recs(pairs: &[(&str, &str)]) -> Vec<(String, String)> {
    pairs.iter().map(|(k, c)| (k.to_string(), c.to_string())).collect()
}

fn key(s: &str) -> String {
    s.to_string()
}

#[test]
fn addition_detection() {
    let mut r = Registry::new();
    assert_eq!(r.tick(), 0);
    let events = r.update(&recs(&[("k", "c")]));
    assert_eq!(events.len(), 1);
    assert_eq!(events[0].key, "k");
    assert_eq!(events[0].content, "c");
    assert!(events[0].kind == EventKind::Added);
    assert!(r.contains_key(&key("k")));
}

#[test]
fn seed_baseline() {
    let mut r = Registry::new();
    r.seed(&recs(&[("k", "c")]));
    let events = r.update(&recs(&[("k", "c")]));
    assert_eq!(events.len(), 0);
    assert!(r.contains_key(&key("k")));
}

#[test]
fn change_detection() {
    let mut r = Registry::new();
    r.seed(&recs(&[("k", "c1")]));
    let events = r.update(&recs(&[("k", "c2")]));
    assert_eq!(events.len(), 1);
    assert_eq!(events[0].key, "k");
    assert_eq!(events[0].content, "c2");
    assert!(events[0].kind == EventKind::Changed);
    let again = r.update(&recs(&[("k", "c2")]));
    assert_eq!(again.len(), 0);
}

#[test]
fn unchanged_stability() {
    let mut r = Registry::new();
    r.update(&recs(&[("k", "c")]));
    let events = r.update(&recs(&[("k", "c")]));
    assert_eq!(events.len(), 0);
    assert!(r.contains_key(&key("k")));
}

#[test]
fn order_preservation() {
    let mut r = Registry::new();
    let events = r.update(&recs(&[("k1", "c1"), ("k2", "c2")]));
    assert_eq!(events.len(), 2);
    assert_eq!(events[0].key, "k1");
    assert_eq!(events[0].content, "c1");
    assert!(events[0].kind == EventKind::Added);
    assert_eq!(events[1].key, "k2");
    assert_eq!(events[1].content, "c2");
    assert!(events[1].kind == EventKind::Added);
}

#[test]
fn duplicate_keys_last_write_wins() {
    let mut r = Registry::new();
    let events = r.update(&recs(&[("k", "c1"), ("k", "c2")]));
    assert_eq!(events.len(), 2);
    assert!(events[0].kind == EventKind::Added);
    assert_eq!(events[0].content, "c1");
    assert!(events[1].kind == EventKind::Changed);
    assert_eq!(events[1].content, "c2");
    let again = r.update(&recs(&[("k", "c2")]));
    assert_eq!(again.len(), 0);
}

#[test]
fn eviction_periodicity() {
    // Starting at tick 0: the first advance moves to tick 1, the record is
    // then stamped with liveness 1, and the 128th advance (the wrap back to
    // tick 0) removes it and reports it.
    let mut r = Registry::new();
    let first = r.advance_tick();
    assert_eq!(first.len(), 0);
    assert_eq!(r.tick(), 1);
    r.update(&recs(&[("k", "c")]));
    for call in 2..=127u32 {
        let evicted = r.advance_tick();
        assert_eq!(evicted.len(), 0, "no eviction expected at call {}", call);
        assert!(r.contains_key(&key("k")));
    }
    assert_eq!(r.tick(), 127);
    let evicted = r.advance_tick();
    assert_eq!(r.tick(), 0);
    assert_eq!(evicted.len(), 1);
    assert_eq!(evicted[0], "k");
    assert!(!r.contains_key(&key("k")));
}

#[test]
fn eviction_survival_at_tick_zero() {
    // A record added while the tick stands at zero carries liveness 0 and
    // survives the wrap, repeatedly.
    let mut r = Registry::new();
    r.update(&recs(&[("k", "c")]));
    for _round in 0..2 {
        for _call in 0..128u32 {
            let evicted = r.advance_tick();
            assert_eq!(evicted.len(), 0);
        }
        assert_eq!(r.tick(), 0);
        assert!(r.contains_key(&key("k")));
    }
    let events = r.update(&recs(&[("k", "c")]));
    assert_eq!(events.len(), 0);
}

#[test]
fn touch_on_last_cycle_is_still_evicted() {
    // A record added while the tick stands at 127 is stamped with liveness
    // 127 and so does not survive the immediately following wrap: only a
    // liveness counter of zero survives an eviction boundary.
    let mut r = Registry::new();
    for _call in 0..127u32 {
        r.advance_tick();
    }
    assert_eq!(r.tick(), 127);
    r.update(&recs(&[("k", "c")]));
    let evicted = r.advance_tick();
    assert_eq!(evicted.len(), 1);
    assert_eq!(evicted[0], "k");
    assert!(!r.contains_key(&key("k")));
}

#[test]
fn unchanged_liveness_is_not_refreshed() {
    // A record stamped at tick 1 and then repeatedly confirmed with the
    // identical content keeps liveness 1 and is evicted at the wrap: an
    // unchanged record does not have its counter refreshed.
    let mut r = Registry::new();
    r.advance_tick();
    r.update(&recs(&[("k", "c")]));
    for _call in 0..100u32 {
        r.advance_tick();
    }
    let events = r.update(&recs(&[("k", "c")]));
    assert_eq!(events.len(), 0);
    for _call in 0..26u32 {
        let evicted = r.advance_tick();
        assert_eq!(evicted.len(), 0);
    }
    assert_eq!(r.tick(), 127);
    let evicted = r.advance_tick();
    assert_eq!(evicted, vec!["k".to_string()]);
}

#[test]
fn change_restamps_liveness_to_current_tick() {
    // A record stamped at tick 0 would survive the wrap untouched, but a
    // content change at tick 3 restamps it to liveness 3, and the wrap then
    // evicts it.
    let mut r = Registry::new();
    r.update(&recs(&[("k", "c1")]));
    for _call in 0..3u32 {
        r.advance_tick();
    }
    assert_eq!(r.tick(), 3);
    r.update(&recs(&[("k", "c2")]));
    for _call in 0..124u32 {
        let evicted = r.advance_tick();
        assert_eq!(evicted.len(), 0);
    }
    assert_eq!(r.tick(), 127);
    let evicted = r.advance_tick();
    assert_eq!(evicted, vec!["k".to_string()]);
}

#[test]
fn eviction_keeps_zero_stamped_and_drops_the_rest() {
    let mut r = Registry::new();
    r.update(&recs(&[("keep", "c")]));
    r.advance_tick();
    r.update(&recs(&[("drop1", "c"), ("drop2", "c")]));
    for _call in 0..126u32 {
        r.advance_tick();
    }
    assert_eq!(r.tick(), 127);
    let mut evicted = r.advance_tick();
    evicted.sort();
    assert_eq!(evicted, vec!["drop1".to_string(), "drop2".to_string()]);
    assert!(r.contains_key(&key("keep")));
    assert!(!r.contains_key(&key("drop1")));
    assert!(!r.contains_key(&key("drop2")));
}

#[test]
fn ingestion_failure_isolation() {
    // A failed ingestion leaves the registry untouched: the following
    // cycle sees exactly the state from before the failure.
    let mut r = Registry::new();
    r.seed(&recs(&[("k", "c")]));
    let (events, evicted) = r.poll_cycle(None);
    assert_eq!(events.len(), 0);
    assert_eq!(evicted.len(), 0);
    assert_eq!(r.tick(), 1);
    let (events, evicted) = r.poll_cycle(Some(&recs(&[("k", "c")])));
    assert_eq!(events.len(), 0);
    assert_eq!(evicted.len(), 0);
    assert!(r.contains_key(&key("k")));
}

#[test]
fn poll_cycle_reports_changes_and_advances() {
    let mut r = Registry::new();
    let (events, evicted) = r.poll_cycle(Some(&recs(&[("k", "c")])));
    assert_eq!(events.len(), 1);
    assert!(events[0].kind == EventKind::Added);
    assert_eq!(evicted.len(), 0);
    assert_eq!(r.tick(), 1);
    let (events, _) = r.poll_cycle(Some(&recs(&[("k", "c2")])));
    assert_eq!(events.len(), 1);
    assert!(events[0].kind == EventKind::Changed);
    assert_eq!(events[0].content, "c2");
    assert_eq!(r.tick(), 2);
}

#[test]
fn absent_keys_are_left_untouched() {
    // A key missing from a cycle's records is neither reported nor removed
    // outside the eviction rule.
    let mut r = Registry::new();
    r.update(&recs(&[("k1", "c1"), ("k2", "c2")]));
    let events = r.update(&recs(&[("k1", "c1")]));
    assert_eq!(events.len(), 0);
    assert!(r.contains_key(&key("k2")));
}
