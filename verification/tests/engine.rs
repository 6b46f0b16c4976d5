//! Tests for the enrichment and dispatch engine.

use rudderstack::config::Config;
use rudderstack::context::Context;
use rudderstack::rate_limiters::PerEventCap;
use rudderstack::rudder_wrapper::{RudderWrapper, SendResult};
use rudderstack::types::{Alias, Batch, BatchMessage, Identify, Message, Track};
use rudderstack::value::Value;
use rudderstack::RudderStackBuilder;

const NOW: u64 = 1_000_000;

fn engine() -> RudderWrapper<PerEventCap> {
    RudderWrapper::new(
        "http://localhost:8080".to_string(),
        "test_key".to_string(),
        Config::new("anon-1".to_string()),
        Context::new(),
    )
}

fn track(event: &str) -> Message {
    Message::Track(Track {
        event: event.to_string(),
        ..Track::default()
    })
}

#[test]
fn test_rate_limiter_functionality() {
    let config = Config::default();
    let context = Context::new();
    let mut wrapper: RudderWrapper<PerEventCap> = RudderWrapper::new(
        "http://localhost:8080".to_string(),
        "test_key".to_string(),
        config,
        context,
    );

    // Set a rate limiter
    wrapper.set_rate_limiter(PerEventCap::new(10));

    // Remove the rate limiter
    wrapper.remove_rate_limiter();

    // Test passes if no panics occur
}

#[test]
fn send_stamps_anonymous_and_user_id() {
    let mut w = engine();
    w.set_user_id(Some("user-7".to_string()), NOW);

    // Caller-supplied identity is discarded: identity is engine-owned.
    let msg = Message::Track(Track {
        user_id: Some("spoofed-user".to_string()),
        anonymous_id: Some("spoofed-anon".to_string()),
        event: "clicked".to_string(),
        ..Track::default()
    });
    match w.send(msg, NOW) {
        SendResult::Dispatched(Message::Track(t)) => {
            assert_eq!(t.anonymous_id.as_deref(), Some("anon-1"));
            assert_eq!(t.user_id.as_deref(), Some("user-7"));
            assert_eq!(t.event, "clicked");
        }
        other => panic!("expected a dispatched track event, got {:?}", other),
    }
}

#[test]
fn send_leaves_alias_untouched() {
    let mut w = engine();
    let alias = Alias {
        user_id: "new-id".to_string(),
        previous_id: "old-id".to_string(),
        ..Alias::default()
    };
    match w.send(Message::Alias(alias.clone()), NOW) {
        SendResult::Dispatched(Message::Alias(a)) => assert_eq!(a, alias),
        other => panic!("expected a dispatched alias event, got {:?}", other),
    }
}

#[test]
fn send_merges_snapshot_and_message_context() {
    let mut w = engine();
    w.add_to_context("app".to_string(), Value::Str("demo".to_string()));
    w.add_to_context("version".to_string(), Value::Int(1));

    let msg = Message::Track(Track {
        event: "e".to_string(),
        context: Some(Value::Obj(vec![(
            "version".to_string(),
            Value::Int(2),
        )])),
        ..Track::default()
    });
    match w.send(msg, NOW) {
        SendResult::Dispatched(Message::Track(t)) => {
            let expected = Value::Obj(vec![
                ("app".to_string(), Value::Str("demo".to_string())),
                ("version".to_string(), Value::Int(2)),
            ]);
            assert_eq!(t.context, Some(expected));
        }
        other => panic!("expected a dispatched track event, got {:?}", other),
    }
}

#[test]
fn batch_members_stamped_except_alias() {
    // A batch with one track and one alias member: the track member is
    // stamped with the current anonymous id, the alias member is untouched.
    let mut w = engine();
    let alias = Alias {
        user_id: "a".to_string(),
        previous_id: "b".to_string(),
        ..Alias::default()
    };
    let batch = Batch {
        batch: vec![
            BatchMessage::Track(Track {
                event: "inside".to_string(),
                anonymous_id: Some("spoofed".to_string()),
                ..Track::default()
            }),
            BatchMessage::Alias(alias.clone()),
        ],
        ..Batch::default()
    };
    match w.send(Message::Batch(batch), NOW) {
        SendResult::Dispatched(Message::Batch(b)) => {
            assert_eq!(b.batch.len(), 2);
            match &b.batch[0] {
                BatchMessage::Track(t) => {
                    assert_eq!(t.anonymous_id.as_deref(), Some("anon-1"));
                    assert_eq!(t.event, "inside");
                }
                other => panic!("expected a track member, got {:?}", other),
            }
            assert_eq!(b.batch[1], BatchMessage::Alias(alias));
        }
        other => panic!("expected a dispatched batch, got {:?}", other),
    }
}

#[test]
fn dropped_message_never_reaches_transport() {
    // With a cap of zero the limiter denies everything: send reports the
    // drop and produces no message for the transport to pick up.
    let mut w = engine();
    w.set_rate_limiter(PerEventCap::new(0));
    let mut transport_calls: usize = 0;
    for _ in 0..3 {
        match w.send(track("x"), NOW) {
            SendResult::Dispatched(_) => transport_calls += 1,
            SendResult::EventDropped => {}
        }
    }
    assert_eq!(transport_calls, 0);
}

#[test]
fn cap_two_gives_two_dispatches_then_drop() {
    // cap=2, three track "x" sends: Dispatched, Dispatched, Dropped, and
    // the stats afterwards read 2 for "x".
    let mut w = engine();
    w.set_rate_limiter(PerEventCap::new(2));

    assert!(matches!(w.send(track("x"), NOW), SendResult::Dispatched(_)));
    assert!(matches!(w.send(track("x"), NOW), SendResult::Dispatched(_)));
    assert!(matches!(w.send(track("x"), NOW), SendResult::EventDropped));

    // the installed limiter counted the two events that passed
    let stats = w.rate_limiter.as_mut().unwrap().get_stats(NOW);
    let count = stats.iter().find(|p| p.0.as_str() == "x").map(|p| p.1);
    assert_eq!(count, Some(2));
}

#[test]
fn set_user_id_sends_identify_once() {
    let mut w = engine();

    // First installation of the user id: newly linked, a synthetic
    // identify is dispatched.
    match w.set_user_id(Some("u".to_string()), NOW) {
        Some(SendResult::Dispatched(Message::Identify(i))) => {
            assert_eq!(i.user_id.as_deref(), Some("u"));
            assert_eq!(i.anonymous_id.as_deref(), Some("anon-1"));
        }
        other => panic!("expected a dispatched identify, got {:?}", other),
    }

    // Persist the identity state, change the anonymous id, start a second
    // engine lifetime over the same persisted state: the same user id is
    // already linked and no identify is sent.
    let mut persisted = w.config;
    persisted.set_anonymous_id("anon-2".to_string());
    let mut w2: RudderWrapper<PerEventCap> = RudderWrapper::new(
        "http://localhost:8080".to_string(),
        "test_key".to_string(),
        persisted,
        Context::new(),
    );
    assert!(w2.set_user_id(Some("u".to_string()), NOW).is_none());

    // Clearing the user id reports nothing either.
    assert!(w2.set_user_id(None, NOW).is_none());
}

#[test]
fn builder_resolves_persisted_and_fresh_state() {
    // No persisted state: a fresh anonymous id is generated and the
    // first-run event is owed.
    let (w, first): (RudderWrapper<PerEventCap>, bool) = RudderStackBuilder::new(
        "dp".to_string(),
        "key".to_string(),
    )
    .first_run(true)
    .build(None);
    assert!(first);
    assert_eq!(w.get_anonymous_id().len(), 36);

    // Persisted state present: it is kept and no first-run event is owed.
    let (w2, first2): (RudderWrapper<PerEventCap>, bool) = RudderStackBuilder::new(
        "dp".to_string(),
        "key".to_string(),
    )
    .first_run(true)
    .build(Some(Config::new("kept".to_string())));
    assert!(!first2);
    assert_eq!(w2.get_anonymous_id(), "kept");

    // A fixed anonymous id overrides whatever was loaded or generated.
    let (w3, _): (RudderWrapper<PerEventCap>, bool) = RudderStackBuilder::new(
        "dp".to_string(),
        "key".to_string(),
    )
    .anonymous_id("pinned".to_string())
    .build(Some(Config::new("kept".to_string())));
    assert_eq!(w3.get_anonymous_id(), "pinned");
}

#[test]
fn identify_with_no_context_gets_snapshot() {
    let mut w = engine();
    w.add_to_context("k".to_string(), Value::Bool(true));
    match w.send(Message::Identify(Identify::default()), NOW) {
        SendResult::Dispatched(Message::Identify(i)) => {
            let expected = Value::Obj(vec![("k".to_string(), Value::Bool(true))]);
            assert_eq!(i.context, Some(expected));
        }
        other => panic!("expected a dispatched identify, got {:?}", other),
    }
}
