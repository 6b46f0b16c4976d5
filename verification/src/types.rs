//! The messages the engine accepts and dispatches. Every variant except
//! `Alias` carries an `anonymous_id` slot that the engine fills; callers
//! never own identity. Timestamps are unix milliseconds.

use vstd::prelude::*;

use crate::value::Value;

verus! {

/// An identify event: associates the visiting user with their traits.
#[derive(Debug, PartialEq, Clone, Default)]
pub struct Identify {
    /// The user id associated with this message; overwritten by the engine.
    pub user_id: Option<String>,
    /// The anonymous id; filled by the engine, never by the caller.
    pub anonymous_id: Option<String>,
    /// The traits to assign to the user.
    pub traits: Option<Value>,
    /// The timestamp associated with this message, in unix milliseconds.
    pub original_timestamp: Option<i64>,
    /// Context associated with this message.
    pub context: Option<Value>,
    /// Integrations to route this message to.
    pub integrations: Option<Value>,
}

/// A track event: one named user action with its properties.
#[derive(Debug, PartialEq, Clone, Default)]
pub struct Track {
    /// The user id associated with this message; overwritten by the engine.
    pub user_id: Option<String>,
    /// The anonymous id; filled by the engine, never by the caller.
    pub anonymous_id: Option<String>,
    /// The name of the event being tracked.
    pub event: String,
    /// The properties associated with the event.
    pub properties: Option<Value>,
    /// The timestamp associated with this message, in unix milliseconds.
    pub original_timestamp: Option<i64>,
    /// Context associated with this message.
    pub context: Option<Value>,
    /// Integrations to route this message to.
    pub integrations: Option<Value>,
}

/// A page event: one page view.
#[derive(Debug, PartialEq, Clone, Default)]
pub struct Page {
    /// The user id associated with this message; overwritten by the engine.
    pub user_id: Option<String>,
    /// The anonymous id; filled by the engine, never by the caller.
    pub anonymous_id: Option<String>,
    /// The name of the page being tracked.
    pub name: String,
    /// The properties associated with the event.
    pub properties: Option<Value>,
    /// The timestamp associated with this message, in unix milliseconds.
    pub original_timestamp: Option<i64>,
    /// Context associated with this message.
    pub context: Option<Value>,
    /// Integrations to route this message to.
    pub integrations: Option<Value>,
}

/// A screen event: the mobile equivalent of a page view.
#[derive(Debug, PartialEq, Clone, Default)]
pub struct Screen {
    /// The user id associated with this message; overwritten by the engine.
    pub user_id: Option<String>,
    /// The anonymous id; filled by the engine, never by the caller.
    pub anonymous_id: Option<String>,
    /// The name of the screen being tracked.
    pub name: String,
    /// The properties associated with the event.
    pub properties: Option<Value>,
    /// The timestamp associated with this message, in unix milliseconds.
    pub original_timestamp: Option<i64>,
    /// Context associated with this message.
    pub context: Option<Value>,
    /// Integrations to route this message to.
    pub integrations: Option<Value>,
}

/// A group event: associates the user with a company, project or team.
#[derive(Debug, PartialEq, Clone, Default)]
pub struct Group {
    /// The user id associated with this message; overwritten by the engine.
    pub user_id: Option<String>,
    /// The anonymous id; filled by the engine, never by the caller.
    pub anonymous_id: Option<String>,
    /// The group the user is being associated with.
    pub group_id: String,
    /// The traits to assign to the group.
    pub traits: Option<Value>,
    /// The timestamp associated with this message, in unix milliseconds.
    pub original_timestamp: Option<i64>,
    /// Context associated with this message.
    pub context: Option<Value>,
    /// Integrations to route this message to.
    pub integrations: Option<Value>,
}

/// An alias event: declares that two user ids belong to one user. It carries
/// its own identity pair and is never stamped by the engine.
#[derive(Debug, PartialEq, Clone, Default)]
pub struct Alias {
    /// The user id associated with this message.
    pub user_id: String,
    /// The user's previous id.
    pub previous_id: String,
    /// The traits to assign to the alias.
    pub traits: Option<Value>,
    /// The timestamp associated with this message, in unix milliseconds.
    pub original_timestamp: Option<i64>,
    /// Context associated with this message.
    pub context: Option<Value>,
    /// Integrations to route this message to.
    pub integrations: Option<Value>,
}

/// A batch of events sent as one wire payload.
#[derive(Debug, PartialEq, Clone, Default)]
pub struct Batch {
    /// The batch of messages to send.
    pub batch: Vec<BatchMessage>,
    /// Context associated with this message.
    pub context: Option<Value>,
    /// Integrations to route this message to.
    pub integrations: Option<Value>,
    /// The timestamp associated with this message, in unix milliseconds.
    pub original_timestamp: Option<i64>,
}

/// Everything that may be sent to the collection endpoint.
#[derive(Debug, PartialEq, Clone)]
pub enum Message {
    Identify(Identify),
    Track(Track),
    Page(Page),
    Screen(Screen),
    Group(Group),
    Alias(Alias),
    Batch(Batch),
}

/// Everything that may be placed inside a batch; on the wire each member is
/// tagged by its discriminant string.
#[derive(Debug, PartialEq, Clone)]
pub enum BatchMessage {
    Identify(Identify),
    Track(Track),
    Page(Page),
    Screen(Screen),
    Group(Group),
    Alias(Alias),
}

impl BatchMessage {
    /// The discriminant string that tags this member on the wire.
    pub fn wire_tag(&self) -> (r: &'static str)
        ensures
            r@ == match self {
                BatchMessage::Identify(_) => "identify"@,
                BatchMessage::Track(_) => "track"@,
                BatchMessage::Page(_) => "page"@,
                BatchMessage::Screen(_) => "screen"@,
                BatchMessage::Group(_) => "group"@,
                BatchMessage::Alias(_) => "alias"@,
            },
    {
        match self {
            BatchMessage::Identify(_) => "identify",
            BatchMessage::Track(_) => "track",
            BatchMessage::Page(_) => "page",
            BatchMessage::Screen(_) => "screen",
            BatchMessage::Group(_) => "group",
            BatchMessage::Alias(_) => "alias",
        }
    }
}

/// A by-value copy of an optional string; the copy equals the original.
pub fn clone_opt_string(o: &Option<String>) -> (r: Option<String>)
    ensures
        r == *o,
{
    match o {
        Some(s) => Some(s.clone()),
        None => None,
    }
}

} // verus!
