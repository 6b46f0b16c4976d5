//! Tests for the per-event-type rate limiter.

use rudderstack::rate_limiters::PerEventCap;
use rudderstack::types::{Identify, Message, Track};

const NOW: u64 = 1_000_000;

fn track(event: &str) -> Message {
    Message::Track(Track {
        event: event.to_string(),
        ..Track::default()
    })
}

#[test]
fn test_per_event_cap_basic() {
    let mut rate_limiter = PerEventCap::new(2); // Allow 2 events per minute

    let track_message = track("test_event");

    // First two events should be allowed
    assert!(rate_limiter.should_allow(&track_message, NOW));
    assert!(rate_limiter.should_allow(&track_message, NOW));

    // Third event should be blocked
    assert!(!rate_limiter.should_allow(&track_message, NOW));
}

#[test]
fn test_per_event_cap_different_events() {
    let mut rate_limiter = PerEventCap::new(1); // Allow 1 event per minute

    let track_message1 = track("event1");
    let track_message2 = track("event2");

    // Different event types should have separate counters
    assert!(rate_limiter.should_allow(&track_message1, NOW));
    assert!(rate_limiter.should_allow(&track_message2, NOW));

    // Second occurrence of each should be blocked
    assert!(!rate_limiter.should_allow(&track_message1, NOW));
    assert!(!rate_limiter.should_allow(&track_message2, NOW));
}

#[test]
fn test_per_event_cap_identify_message() {
    let mut rate_limiter = PerEventCap::new(1);

    let identify_message = Message::Identify(Identify {
        user_id: Some("test_user".to_string()),
        ..Identify::default()
    });

    assert!(rate_limiter.should_allow(&identify_message, NOW));
    assert!(!rate_limiter.should_allow(&identify_message, NOW));
}

#[test]
fn test_per_event_cap_stats() {
    let mut rate_limiter = PerEventCap::new(5);

    let track_message = track("test_event");

    // Send 3 events
    rate_limiter.should_allow(&track_message, NOW);
    rate_limiter.should_allow(&track_message, NOW);
    rate_limiter.should_allow(&track_message, NOW);

    let stats = rate_limiter.get_stats(NOW);
    let count = stats.iter().find(|p| p.0.as_str() == "test_event").map(|p| p.1);
    assert_eq!(count, Some(3));
}

#[test]
fn test_per_event_cap_reset() {
    let mut rate_limiter = PerEventCap::new(1);

    let track_message = track("test_event");

    // Use up the limit
    assert!(rate_limiter.should_allow(&track_message, NOW));
    assert!(!rate_limiter.should_allow(&track_message, NOW));

    // Reset and try again
    rate_limiter.reset();
    assert!(rate_limiter.should_allow(&track_message, NOW));
}

#[test]
fn test_per_event_cap_window_expiry() {
    let mut rate_limiter = PerEventCap::new(1);

    let track_message = track("test_event");

    assert!(rate_limiter.should_allow(&track_message, NOW));
    // Within the window the key stays exhausted.
    assert!(!rate_limiter.should_allow(&track_message, NOW + 59_999));
    // Once 60 seconds have elapsed the counter is lazily reset.
    assert!(rate_limiter.should_allow(&track_message, NOW + 120_000));
}

#[test]
fn test_per_event_cap_stats_lazily_reset() {
    let mut rate_limiter = PerEventCap::new(5);

    let track_message = track("test_event");
    rate_limiter.should_allow(&track_message, NOW);
    rate_limiter.should_allow(&track_message, NOW);

    // A stats read after the window has elapsed sees the reset counter.
    let stats = rate_limiter.get_stats(NOW + 70_000);
    let count = stats.iter().find(|p| p.0.as_str() == "test_event").map(|p| p.1);
    assert_eq!(count, Some(0));
}
