//! Scenario tests for the interactive state machine: cursor, overlays,
//! modes, the compose draft and the fetch/publish reconciliation.

use nostr_tui::app::{App, InputMode, Key, Overlay, Status, Tab};
use nostr_tui::event::FeedEvent;

fn event_at(ts: u64, content: &str) -> FeedEvent {
    FeedEvent {
        id: format!("id-{ts}"),
        pubkey: "npub-test".to_string(),
        created_at: ts,
        content: content.to_string(),
        sig: "sig-test".to_string(),
    }
}

fn app_with_events(timestamps: &[u64]) -> App {
    let mut app = App::new();
    let events: Vec<FeedEvent> = timestamps.iter().map(|&t| event_at(t, "x")).collect();
    app.apply_fetch_success(events);
    app
}

#[test]
fn movement_is_a_no_op_on_an_empty_feed() {
    let mut app = App::new();
    assert_eq!(app.selected, None);
    app.previous();
    app.next();
    app.page_up();
    app.page_down();
    app.home();
    app.end();
    assert_eq!(app.selected, None);
}

#[test]
fn cursor_stays_in_bounds_under_any_movement() {
    let mut app = app_with_events(&[1, 2, 3, 4, 5, 6, 7]);
    assert_eq!(app.selected, Some(0));
    app.previous();
    assert_eq!(app.selected, Some(0));
    app.next();
    assert_eq!(app.selected, Some(1));
    app.page_down();
    assert_eq!(app.selected, Some(6));
    app.page_down();
    assert_eq!(app.selected, Some(6));
    app.page_up();
    assert_eq!(app.selected, Some(1));
    app.page_up();
    assert_eq!(app.selected, Some(0));
    app.end();
    assert_eq!(app.selected, Some(6));
    app.home();
    assert_eq!(app.selected, Some(0));
}

#[test]
fn fetch_success_sorts_any_permutation_newest_first() {
    let mut app = App::new();
    let events: Vec<FeedEvent> =
        [5u64, 1, 9, 9, 3, 9, 2].iter().map(|&t| event_at(t, "x")).collect();
    app.apply_fetch_success(events);
    let stamps: Vec<u64> = app.events.iter().map(|e| e.created_at).collect();
    assert_eq!(stamps, vec![9, 9, 9, 5, 3, 2, 1]);
    assert_eq!(app.selected, Some(0));
    assert_eq!(app.status, Status::Fetched(7));
}

#[test]
fn fetch_failure_leaves_feed_and_cursor_untouched() {
    let mut app = app_with_events(&[10, 20, 30]);
    app.next();
    let before: Vec<u64> = app.events.iter().map(|e| e.created_at).collect();
    let cursor = app.selected;
    app.apply_fetch_failure();
    let after: Vec<u64> = app.events.iter().map(|e| e.created_at).collect();
    assert_eq!(before, after);
    assert_eq!(app.selected, cursor);
    assert_eq!(app.status, Status::FetchFailed);
}

#[test]
fn empty_fetch_clears_the_selection() {
    let mut app = app_with_events(&[10, 20, 30]);
    app.apply_fetch_success(Vec::new());
    assert_eq!(app.events.len(), 0);
    assert_eq!(app.selected, None);
    assert_eq!(app.status, Status::Fetched(0));
}

#[test]
fn quit_key_stops_only_in_plain_normal_mode() {
    let mut app = App::new();
    assert!(!app.handle_key_event(Key::Char('q')));

    let mut app = App::new();
    app.handle_key_event(Key::Char('a'));
    assert!(app.handle_key_event(Key::Char('q')));
    assert_eq!(app.overlay, Overlay::Inactive);

    let mut app = App::new();
    app.handle_key_event(Key::Char('i'));
    assert!(app.handle_key_event(Key::Char('q')));
    assert_eq!(app.input, "q");
}

#[test]
fn refresh_key_requests_a_refresh_only_without_overlay() {
    let mut app = App::new();
    app.handle_key_event(Key::Char('r'));
    assert_eq!(app.status, Status::Refreshing);
    assert!(app.take_refresh_request());
    assert!(!app.take_refresh_request());

    let mut app = App::new();
    app.handle_key_event(Key::Char('s'));
    app.handle_key_event(Key::Char('r'));
    assert!(!app.take_refresh_request());
}

#[test]
fn tab_cycles_and_compose_enters_editing() {
    let mut app = App::new();
    app.handle_key_event(Key::Tab);
    assert_eq!(app.active_tab, Tab::Compose);
    assert_eq!(app.input_mode, InputMode::Editing);
    app.handle_key_event(Key::Esc);
    assert_eq!(app.input_mode, InputMode::Normal);
    app.handle_key_event(Key::Tab);
    assert_eq!(app.active_tab, Tab::Feed);
    assert_eq!(app.input_mode, InputMode::Normal);
}

#[test]
fn editing_builds_and_trims_the_draft() {
    let mut app = App::new();
    app.handle_key_event(Key::Char('i'));
    app.handle_key_event(Key::Char('h'));
    app.handle_key_event(Key::Char('e'));
    app.handle_key_event(Key::Char('y'));
    assert_eq!(app.input, "hey");
    app.handle_key_event(Key::Backspace);
    assert_eq!(app.input, "he");
}

#[test]
fn submitting_a_draft_queues_it_and_returns_to_the_feed() {
    let mut app = app_with_events(&[4, 2]);
    app.next();
    app.handle_key_event(Key::Tab);
    app.handle_key_event(Key::Char('h'));
    app.handle_key_event(Key::Char('i'));
    app.handle_key_event(Key::Enter);
    assert_eq!(app.take_message(), Some("hi".to_string()));
    assert_eq!(app.input, "");
    assert_eq!(app.input_mode, InputMode::Normal);
    assert_eq!(app.active_tab, Tab::Feed);
    assert_eq!(app.selected, Some(0));
    assert_eq!(app.status, Status::Sending);
}

#[test]
fn submitting_an_empty_draft_changes_nothing() {
    let mut app = App::new();
    app.handle_key_event(Key::Char('i'));
    app.handle_key_event(Key::Enter);
    assert_eq!(app.take_message(), None);
    assert_eq!(app.input_mode, InputMode::Editing);
}

#[test]
fn publish_outcomes_only_touch_the_status() {
    let mut app = app_with_events(&[8, 4]);
    let before: Vec<u64> = app.events.iter().map(|e| e.created_at).collect();
    app.apply_publish_failure();
    assert_eq!(app.status, Status::PublishFailed);
    app.apply_publish_success();
    assert_eq!(app.status, Status::Published);
    let after: Vec<u64> = app.events.iter().map(|e| e.created_at).collect();
    assert_eq!(before, after);
}

#[test]
fn opening_the_calculator_always_resets_it() {
    let mut app = App::new();
    app.handle_key_event(Key::Char('s'));
    app.handle_key_event(Key::Char('5'));
    app.handle_key_event(Key::Char('+'));
    app.handle_key_event(Key::Char('5'));
    app.handle_key_event(Key::Enter);
    assert_eq!(app.calculator.display_text(), "10");
    app.handle_key_event(Key::Esc);
    assert_eq!(app.overlay, Overlay::Inactive);
    app.handle_key_event(Key::Char('s'));
    assert_eq!(app.calculator.display_text(), "0");
}

#[test]
fn closing_an_overlay_restores_the_prior_view() {
    let mut app = app_with_events(&[7, 6, 5]);
    app.next();
    let tab = app.active_tab;
    let mode = app.input_mode;
    let cursor = app.selected;
    app.handle_key_event(Key::Char('a'));
    assert_eq!(app.overlay, Overlay::About);
    app.handle_key_event(Key::Esc);
    assert_eq!(app.overlay, Overlay::Inactive);
    assert_eq!(app.active_tab, tab);
    assert_eq!(app.input_mode, mode);
    assert_eq!(app.selected, cursor);
}

#[test]
fn overlays_are_mutually_exclusive() {
    let mut app = App::new();
    app.handle_key_event(Key::Char('s'));
    assert_eq!(app.overlay, Overlay::Calculator);
    // While the calculator is up, the about key is just another ignored key.
    app.handle_key_event(Key::Char('a'));
    assert_eq!(app.overlay, Overlay::Calculator);
    app.handle_key_event(Key::Char('q'));
    app.handle_key_event(Key::Char('a'));
    assert_eq!(app.overlay, Overlay::About);
}

#[test]
fn detail_overlay_scrolls_without_rejecting_large_offsets() {
    let mut app = app_with_events(&[3, 2, 1]);
    app.handle_key_event(Key::Enter);
    assert_eq!(app.overlay, Overlay::Detail { scroll: 0 });
    app.handle_key_event(Key::Up);
    assert_eq!(app.overlay, Overlay::Detail { scroll: 0 });
    app.handle_key_event(Key::Down);
    app.handle_key_event(Key::Down);
    assert_eq!(app.overlay, Overlay::Detail { scroll: 2 });
    app.handle_key_event(Key::End);
    assert_eq!(app.overlay, Overlay::Detail { scroll: 1000 });
    app.handle_key_event(Key::PageUp);
    assert_eq!(app.overlay, Overlay::Detail { scroll: 995 });
    app.handle_key_event(Key::Home);
    assert_eq!(app.overlay, Overlay::Detail { scroll: 0 });
    app.handle_key_event(Key::Esc);
    assert_eq!(app.overlay, Overlay::Inactive);
    // Reopening starts at the top again.
    app.handle_key_event(Key::Enter);
    assert_eq!(app.overlay, Overlay::Detail { scroll: 0 });
}

#[test]
fn detail_needs_a_non_empty_feed_on_the_feed_tab() {
    let mut app = App::new();
    app.handle_key_event(Key::Enter);
    assert_eq!(app.overlay, Overlay::Inactive);
}
