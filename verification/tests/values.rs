//! Tests for the JSON-like values, the deep merge, the context store and
//! the identity state.

use rudderstack::config::Config;
use rudderstack::context::Context;
use rudderstack::types::{Alias, BatchMessage, Group, Identify, Page, Screen, Track};
use rudderstack::value::{merge_value, Value};

fn obj(pairs: Vec<(&str, Value)>) -> Value {
    Value::Obj(pairs.into_iter().map(|(k, v)| (k.to_string(), v)).collect())
}

#[test]
fn merge_is_right_biased_on_scalar_conflict() {
    // merging {"a":1} (stored) with {"a":2} (message) yields {"a":2}
    let a = obj(vec![("a", Value::Int(1))]);
    let b = obj(vec![("a", Value::Int(2))]);
    assert_eq!(merge_value(&a, &b), obj(vec![("a", Value::Int(2))]));
}

#[test]
fn merge_recurses_into_nested_objects() {
    // merging {"a":{"x":1}} with {"a":{"y":2}} yields {"a":{"x":1,"y":2}}
    let a = obj(vec![("a", obj(vec![("x", Value::Int(1))]))]);
    let b = obj(vec![("a", obj(vec![("y", Value::Int(2))]))]);
    let expected = obj(vec![(
        "a",
        obj(vec![("x", Value::Int(1)), ("y", Value::Int(2))]),
    )]);
    assert_eq!(merge_value(&a, &b), expected);
}

#[test]
fn merge_of_disjoint_keys_is_union_and_idempotent() {
    let a = obj(vec![("a", Value::Int(1))]);
    let b = obj(vec![("b", Value::Str("two".to_string()))]);
    let once = merge_value(&a, &b);
    let expected = obj(vec![
        ("a", Value::Int(1)),
        ("b", Value::Str("two".to_string())),
    ]);
    assert_eq!(once, expected);
    // merging the same entries again changes nothing
    assert_eq!(merge_value(&once, &b), expected);
}

#[test]
fn merge_replaces_non_object_with_object_wholesale() {
    let a = obj(vec![("a", Value::Int(1))]);
    let b = obj(vec![("a", obj(vec![("x", Value::Null)]))]);
    assert_eq!(
        merge_value(&a, &b),
        obj(vec![("a", obj(vec![("x", Value::Null)]))])
    );
    // and the other way around: a scalar wipes out a stored object
    assert_eq!(merge_value(&b, &a), obj(vec![("a", Value::Int(1))]));
}

#[test]
fn context_insert_remove_clear() {
    let mut ctx = Context::new();
    assert_eq!(ctx.insert("k".to_string(), Value::Int(1)), None);
    // last write wins and the previous value is handed back
    assert_eq!(
        ctx.insert("k".to_string(), Value::Int(2)),
        Some(Value::Int(1))
    );
    assert_eq!(ctx.remove("missing"), None);
    assert_eq!(ctx.remove("k"), Some(Value::Int(2)));
    assert_eq!(ctx.remove("k"), None);

    ctx.insert("a".to_string(), Value::Bool(true));
    ctx.clear();
    assert_eq!(ctx.remove("a"), None);
}

#[test]
fn context_snapshot_is_a_deep_copy() {
    let mut ctx = Context::new();
    ctx.insert("k".to_string(), Value::Int(1));
    let snap = ctx.snapshot();
    // mutate after the snapshot; the snapshot is unaffected
    ctx.insert("k".to_string(), Value::Int(2));
    assert_eq!(snap, Value::Obj(vec![("k".to_string(), Value::Int(1))]));
}

#[test]
fn config_set_user_id_links_once() {
    let mut c = Config::new("anon-a".to_string());
    // a fresh user id is newly linked
    assert_eq!(c.set_user_id(Some("u1".to_string())), Some(false));
    // the same user id again is already linked
    assert_eq!(c.set_user_id(Some("u1".to_string())), Some(true));
    // even after the anonymous id changes
    c.set_anonymous_id("anon-b".to_string());
    assert_eq!(c.set_user_id(Some("u1".to_string())), Some(true));
    // a different user id is newly linked, to the current anonymous id
    assert_eq!(c.set_user_id(Some("u2".to_string())), Some(false));
    // clearing reports nothing
    assert_eq!(c.set_user_id(None), None);
    assert_eq!(c.user_id(), None);
}

#[test]
fn config_default_generates_a_uuid() {
    let c = Config::default();
    assert_eq!(c.anonymous_id().len(), 36);
    let d = Config::default();
    // two fresh states get different ids
    assert_ne!(c.anonymous_id(), d.anonymous_id());
}

#[test]
fn batch_member_wire_tags() {
    assert_eq!(BatchMessage::Identify(Identify::default()).wire_tag(), "identify");
    assert_eq!(BatchMessage::Track(Track::default()).wire_tag(), "track");
    assert_eq!(BatchMessage::Page(Page::default()).wire_tag(), "page");
    assert_eq!(BatchMessage::Screen(Screen::default()).wire_tag(), "screen");
    assert_eq!(BatchMessage::Group(Group::default()).wire_tag(), "group");
    assert_eq!(BatchMessage::Alias(Alias::default()).wire_tag(), "alias");
}
