//! Tests for the feed order, the content preview and the bounded one-shot
//! collector.

use nostr_tui::collector::{poll_budget, Collector};
use nostr_tui::event::{smart_truncate, sort_events_desc, FeedEvent};

fn event_at(ts: u64) -> FeedEvent {
    FeedEvent {
        id: format!("id-{ts}"),
        pubkey: "npub-test".to_string(),
        created_at: ts,
        content: "body".to_string(),
        sig: "sig-test".to_string(),
    }
}

#[test]
fn sort_orders_newest_first_with_duplicates() {
    let mut events: Vec<FeedEvent> = [3u64, 3, 1, 8, 0, 8].iter().map(|&t| event_at(t)).collect();
    sort_events_desc(&mut events);
    let stamps: Vec<u64> = events.iter().map(|e| e.created_at).collect();
    assert_eq!(stamps, vec![8, 8, 3, 3, 1, 0]);
}

#[test]
fn sort_keeps_every_event() {
    let mut events: Vec<FeedEvent> = [2u64, 9, 2].iter().map(|&t| event_at(t)).collect();
    sort_events_desc(&mut events);
    assert_eq!(events.len(), 3);
    let mut ids: Vec<String> = events.iter().map(|e| e.id.clone()).collect();
    ids.sort();
    assert_eq!(ids, vec!["id-2".to_string(), "id-2".to_string(), "id-9".to_string()]);
}

#[test]
fn short_text_is_previewed_whole() {
    assert_eq!(smart_truncate("hello world", 20), "hello world");
}

#[test]
fn long_text_breaks_at_a_late_space() {
    // The last space inside the first ten characters stands at index 5,
    // losing fewer than twenty characters: the cut lands there.
    assert_eq!(smart_truncate("hello world and more", 10), "hello...");
}

#[test]
fn long_text_without_late_spaces_cuts_at_the_limit() {
    assert_eq!(smart_truncate("abcdefghijklmnopqrstuvwxyz", 25), "abcdefghijklmnopqrstuvwxy...");
}

#[test]
fn an_early_space_does_not_shorten_the_cut() {
    // Breaking at the space in position two would lose twenty or more
    // characters: the cut stays at the limit.
    assert_eq!(
        smart_truncate("ab cdefghijklmnopqrstuvwxyz", 25),
        "ab cdefghijklmnopqrstuvwx..."
    );
}

#[test]
fn collector_stops_at_the_wall_clock_cap() {
    // Events arrive slower than the per-wait timeout: every wait times out
    // after one unit and brings nothing. Collection still ends, at the
    // wall-clock cap, though the count cap is never reached.
    let mut c = Collector::new(20, 10);
    let mut waits = 0u64;
    while c.wants_more() {
        c.record(1, None);
        waits += 1;
        assert!(waits <= 10);
    }
    assert_eq!(waits, 10);
    let collected = c.finish();
    assert_eq!(collected.len(), 0);
}

#[test]
fn collector_stops_at_the_count_cap_without_waiting_out_the_budget() {
    // A burst: every wait returns an event at once. Collection stops at the
    // cap with the whole budget unspent.
    let mut c = Collector::new(3, 10);
    let mut arrivals = 0u64;
    while c.wants_more() {
        c.record(0, Some(event_at(arrivals)));
        arrivals += 1;
        assert!(arrivals <= 3);
    }
    assert_eq!(arrivals, 3);
    assert_eq!(c.elapsed, 0);
    let collected = c.finish();
    assert_eq!(collected.len(), 3);
}

#[test]
fn collector_sorts_what_it_gathered() {
    let mut c = Collector::new(5, 100);
    c.record(1, Some(event_at(4)));
    c.record(1, Some(event_at(9)));
    c.record(1, None);
    c.record(1, Some(event_at(7)));
    let collected = c.finish();
    let stamps: Vec<u64> = collected.iter().map(|e| e.created_at).collect();
    assert_eq!(stamps, vec![9, 7, 4]);
}

#[test]
fn poll_budget_never_goes_negative() {
    assert_eq!(poll_budget(100, 30), 70);
    assert_eq!(poll_budget(100, 100), 0);
    assert_eq!(poll_budget(100, 250), 0);
}
