//! The enrichment and dispatch engine: consults the rate limiter, reads a
//! consistent snapshot of identity and context, stamps the outgoing message
//! per variant, and hands the fully stamped message back for transport.
//! Identity is engine-owned: whatever the caller put in the `anonymous_id`
//! and `user_id` slots is overwritten — except on `Alias`, which declares
//! its own identity pair and passes through untouched.

use vstd::prelude::*;

use crate::config::{link_outcome, link_step, Config};
use crate::context::Context;
use crate::types::{
    clone_opt_string, Alias, Batch, BatchMessage, Group, Identify, Message, Page, Screen, Track,
};
use crate::value::{merge_jval, merge_value, value_view, JVal, Value};

verus! {

/// The capability a rate limiter offers: decide, per message and clock
/// reading, whether the message may pass. `allows` is the mathematical
/// decision; `let_pass` must return it, and may update internal counters.
pub trait RateLimiter: Sized {
    /// Whether this limiter, in its current state, lets the message pass at
    /// time `now_ms`.
    spec fn allows(&self, msg: Message, now_ms: u64) -> bool;

    /// Whether `post` is the limiter's state after accounting exactly one
    /// check of `msg` at `now_ms` from state `pre`.
    spec fn step_rel(pre: Self, post: Self, msg: Message, now_ms: u64) -> bool;

    /// Decide the message's fate and account for it: the returned verdict is
    /// `allows`, and the new state is one step from the old.
    fn let_pass(&mut self, msg: &Message, now_ms: u64) -> (r: bool)
        ensures
            r == old(self).allows(*msg, now_ms),
            Self::step_rel(*old(self), *final(self), *msg, now_ms),
    ;
}

/// What a send came to: dropped by the rate limiter, or stamped and ready
/// for the transport.
#[derive(Debug)]
pub enum SendResult {
    /// The event was dropped by the rate limiter; nothing reaches the
    /// transport.
    EventDropped,
    /// The fully stamped message, to be handed to the transport.
    Dispatched(Message),
}

/// The context an outgoing message carries: the engine's snapshot, with the
/// message's own context deep-merged into it when there is one.
pub open spec fn merged_context(ctx: JVal, mc: Option<Value>) -> JVal {
    match mc {
        Some(c) => merge_jval(ctx, value_view(c)),
        None => ctx,
    }
}

/// An identify event correctly stamped: identity overwritten with the
/// snapshot, context merged, everything else kept.
pub open spec fn identify_stamped(
    a: Identify,
    b: Identify,
    anon: Seq<char>,
    uid: Option<Seq<char>>,
    ctx: JVal,
) -> bool {
    &&& b.anonymous_id.deep_view() == Some(anon)
    &&& b.user_id.deep_view() == uid
    &&& b.traits == a.traits
    &&& b.original_timestamp == a.original_timestamp
    &&& b.context.deep_view() == Some(merged_context(ctx, a.context))
    &&& b.integrations == a.integrations
}

/// A track event correctly stamped.
pub open spec fn track_stamped(
    a: Track,
    b: Track,
    anon: Seq<char>,
    uid: Option<Seq<char>>,
    ctx: JVal,
) -> bool {
    &&& b.anonymous_id.deep_view() == Some(anon)
    &&& b.user_id.deep_view() == uid
    &&& b.event == a.event
    &&& b.properties == a.properties
    &&& b.original_timestamp == a.original_timestamp
    &&& b.context.deep_view() == Some(merged_context(ctx, a.context))
    &&& b.integrations == a.integrations
}

/// A page event correctly stamped.
pub open spec fn page_stamped(
    a: Page,
    b: Page,
    anon: Seq<char>,
    uid: Option<Seq<char>>,
    ctx: JVal,
) -> bool {
    &&& b.anonymous_id.deep_view() == Some(anon)
    &&& b.user_id.deep_view() == uid
    &&& b.name == a.name
    &&& b.properties == a.properties
    &&& b.original_timestamp == a.original_timestamp
    &&& b.context.deep_view() == Some(merged_context(ctx, a.context))
    &&& b.integrations == a.integrations
}

/// A screen event correctly stamped.
pub open spec fn screen_stamped(
    a: Screen,
    b: Screen,
    anon: Seq<char>,
    uid: Option<Seq<char>>,
    ctx: JVal,
) -> bool {
    &&& b.anonymous_id.deep_view() == Some(anon)
    &&& b.user_id.deep_view() == uid
    &&& b.name == a.name
    &&& b.properties == a.properties
    &&& b.original_timestamp == a.original_timestamp
    &&& b.context.deep_view() == Some(merged_context(ctx, a.context))
    &&& b.integrations == a.integrations
}

/// A group event correctly stamped.
pub open spec fn group_stamped(
    a: Group,
    b: Group,
    anon: Seq<char>,
    uid: Option<Seq<char>>,
    ctx: JVal,
) -> bool {
    &&& b.anonymous_id.deep_view() == Some(anon)
    &&& b.user_id.deep_view() == uid
    &&& b.group_id == a.group_id
    &&& b.traits == a.traits
    &&& b.original_timestamp == a.original_timestamp
    &&& b.context.deep_view() == Some(merged_context(ctx, a.context))
    &&& b.integrations == a.integrations
}

/// A batch member correctly stamped: identity overwritten, everything else
/// — the member's own context included — kept; an `Alias` member passes
/// through untouched.
pub open spec fn member_stamped(
    a: BatchMessage,
    b: BatchMessage,
    anon: Seq<char>,
    uid: Option<Seq<char>>,
) -> bool {
    match (a, b) {
        (BatchMessage::Identify(x), BatchMessage::Identify(y)) => {
            &&& y.anonymous_id.deep_view() == Some(anon)
            &&& y.user_id.deep_view() == uid
            &&& y.traits == x.traits
            &&& y.original_timestamp == x.original_timestamp
            &&& y.context == x.context
            &&& y.integrations == x.integrations
        },
        (BatchMessage::Track(x), BatchMessage::Track(y)) => {
            &&& y.anonymous_id.deep_view() == Some(anon)
            &&& y.user_id.deep_view() == uid
            &&& y.event == x.event
            &&& y.properties == x.properties
            &&& y.original_timestamp == x.original_timestamp
            &&& y.context == x.context
            &&& y.integrations == x.integrations
        },
        (BatchMessage::Page(x), BatchMessage::Page(y)) => {
            &&& y.anonymous_id.deep_view() == Some(anon)
            &&& y.user_id.deep_view() == uid
            &&& y.name == x.name
            &&& y.properties == x.properties
            &&& y.original_timestamp == x.original_timestamp
            &&& y.context == x.context
            &&& y.integrations == x.integrations
        },
        (BatchMessage::Screen(x), BatchMessage::Screen(y)) => {
            &&& y.anonymous_id.deep_view() == Some(anon)
            &&& y.user_id.deep_view() == uid
            &&& y.name == x.name
            &&& y.properties == x.properties
            &&& y.original_timestamp == x.original_timestamp
            &&& y.context == x.context
            &&& y.integrations == x.integrations
        },
        (BatchMessage::Group(x), BatchMessage::Group(y)) => {
            &&& y.anonymous_id.deep_view() == Some(anon)
            &&& y.user_id.deep_view() == uid
            &&& y.group_id == x.group_id
            &&& y.traits == x.traits
            &&& y.original_timestamp == x.original_timestamp
            &&& y.context == x.context
            &&& y.integrations == x.integrations
        },
        (BatchMessage::Alias(x), BatchMessage::Alias(y)) => y == x,
        _ => false,
    }
}

/// What a dispatched message looks like, given the identity and context
/// snapshot taken at call time: every variant except `Alias` has its
/// identity slots overwritten and the snapshot context merged with its own;
/// `Alias` passes through untouched; a batch has its batch-level context
/// merged and each member stamped.
pub open spec fn dispatched_ok(
    m0: Message,
    m1: Message,
    anon: Seq<char>,
    uid: Option<Seq<char>>,
    ctx: JVal,
) -> bool {
    match (m0, m1) {
        (Message::Identify(a), Message::Identify(b)) => identify_stamped(a, b, anon, uid, ctx),
        (Message::Track(a), Message::Track(b)) => track_stamped(a, b, anon, uid, ctx),
        (Message::Page(a), Message::Page(b)) => page_stamped(a, b, anon, uid, ctx),
        (Message::Screen(a), Message::Screen(b)) => screen_stamped(a, b, anon, uid, ctx),
        (Message::Group(a), Message::Group(b)) => group_stamped(a, b, anon, uid, ctx),
        (Message::Alias(a), Message::Alias(b)) => b == a,
        (Message::Batch(a), Message::Batch(b)) => {
            &&& b.batch@.len() == a.batch@.len()
            &&& (forall|i: int|
                0 <= i < a.batch@.len() ==> member_stamped(
                    a.batch@[i],
                    #[trigger] b.batch@[i],
                    anon,
                    uid,
                ))
            &&& b.context.deep_view() == Some(merged_context(ctx, a.context))
            &&& b.integrations == a.integrations
            &&& b.original_timestamp == a.original_timestamp
        },
        _ => false,
    }
}

/// Overwrite one batch member's identity slots with the snapshot values;
/// an `Alias` member is handed back untouched.
fn stamp_member(m: BatchMessage, anon: &String, uid: &Option<String>) -> (r: BatchMessage)
    ensures
        member_stamped(m, r, anon@, uid.deep_view()),
{
    match m {
        BatchMessage::Identify(x) => BatchMessage::Identify(
            Identify {
                user_id: clone_opt_string(uid),
                anonymous_id: Some(anon.clone()),
                traits: x.traits,
                original_timestamp: x.original_timestamp,
                context: x.context,
                integrations: x.integrations,
            },
        ),
        BatchMessage::Track(x) => BatchMessage::Track(
            Track {
                user_id: clone_opt_string(uid),
                anonymous_id: Some(anon.clone()),
                event: x.event,
                properties: x.properties,
                original_timestamp: x.original_timestamp,
                context: x.context,
                integrations: x.integrations,
            },
        ),
        BatchMessage::Page(x) => BatchMessage::Page(
            Page {
                user_id: clone_opt_string(uid),
                anonymous_id: Some(anon.clone()),
                name: x.name,
                properties: x.properties,
                original_timestamp: x.original_timestamp,
                context: x.context,
                integrations: x.integrations,
            },
        ),
        BatchMessage::Screen(x) => BatchMessage::Screen(
            Screen {
                user_id: clone_opt_string(uid),
                anonymous_id: Some(anon.clone()),
                name: x.name,
                properties: x.properties,
                original_timestamp: x.original_timestamp,
                context: x.context,
                integrations: x.integrations,
            },
        ),
        BatchMessage::Group(x) => BatchMessage::Group(
            Group {
                user_id: clone_opt_string(uid),
                anonymous_id: Some(anon.clone()),
                group_id: x.group_id,
                traits: x.traits,
                original_timestamp: x.original_timestamp,
                context: x.context,
                integrations: x.integrations,
            },
        ),
        BatchMessage::Alias(x) => BatchMessage::Alias(x),
    }
}

/// The engine. It owns identity state, the context store and the active
/// rate limiter; the transport endpoint coordinates (`data_plane`, `key`)
/// are kept for the caller that performs the network sends.
pub struct RudderWrapper<L: RateLimiter> {
    /// URL of the data plane the stamped messages are meant for.
    pub data_plane: String,
    /// The write key of the project.
    pub key: String,
    /// Identity state.
    pub config: Config,
    /// Ambient context merged into every outgoing event.
    pub context: Context,
    /// The active rate limiter; `None` means unrestricted.
    pub rate_limiter: Option<L>,
}

impl<L: RateLimiter> RudderWrapper<L> {
    /// The engine's internal invariants: identity links and context keys
    /// are unique.
    pub open spec fn wf(&self) -> bool {
        self.config.wf() && self.context.wf()
    }

    /// A fresh engine with no rate limiter installed.
    pub fn new(data_plane: String, key: String, config: Config, context: Context) -> (r: Self)
        ensures
            r.data_plane == data_plane,
            r.key == key,
            r.config == config,
            r.context == context,
            r.rate_limiter is None,
    {
        RudderWrapper { data_plane, key, config, context, rate_limiter: None }
    }

    /// The anonymous id assigned to this client.
    pub fn get_anonymous_id(&self) -> (r: String)
        ensures
            r@ == self.config.anonymous_id@,
    {
        self.config.anonymous_id.clone()
    }

    /// Install a rate limiter; exactly one is active at a time.
    pub fn set_rate_limiter(&mut self, rate_limiter: L)
        ensures
            final(self).rate_limiter == Some(rate_limiter),
            final(self).config == old(self).config,
            final(self).context == old(self).context,
            final(self).data_plane == old(self).data_plane,
            final(self).key == old(self).key,
    {
        self.rate_limiter = Some(rate_limiter);
    }

    /// Remove the rate limiter; sends are unrestricted afterwards.
    pub fn remove_rate_limiter(&mut self)
        ensures
            final(self).rate_limiter is None,
            final(self).config == old(self).config,
            final(self).context == old(self).context,
            final(self).data_plane == old(self).data_plane,
            final(self).key == old(self).key,
    {
        self.rate_limiter = None;
    }

    /// Store a value in the ambient context, handing back what the key held
    /// before.
    pub fn add_to_context(&mut self, key: String, value: Value) -> (r: Option<Value>)
        requires
            old(self).wf(),
        ensures
            final(self).wf(),
            final(self).context.view_entries() == crate::value::upsert(
                old(self).context.view_entries(),
                key@,
                value@,
            ),
            match r {
                Some(p) => crate::value::lookup(old(self).context.view_entries(), key@) == Some(
                    p@,
                ),
                None => crate::value::lookup(old(self).context.view_entries(), key@) is None,
            },
            final(self).config == old(self).config,
            final(self).rate_limiter == old(self).rate_limiter,
            final(self).data_plane == old(self).data_plane,
            final(self).key == old(self).key,
    {
        self.context.insert(key, value)
    }

    /// Take a value out of the ambient context.
    pub fn remove_from_context(&mut self, key: &str) -> (r: Option<Value>)
        requires
            old(self).wf(),
        ensures
            final(self).wf(),
            match r {
                Some(p) => crate::value::lookup(old(self).context.view_entries(), key@) == Some(
                    p@,
                ) && final(self).context.view_entries() == old(
                    self,
                ).context.view_entries().remove(
                    crate::value::find_key(old(self).context.view_entries(), key@),
                ),
                None => crate::value::lookup(old(self).context.view_entries(), key@) is None
                    && final(self).context == old(self).context,
            },
            final(self).config == old(self).config,
            final(self).rate_limiter == old(self).rate_limiter,
            final(self).data_plane == old(self).data_plane,
            final(self).key == old(self).key,
    {
        self.context.remove(key)
    }

    /// A deep copy of the ambient context.
    pub fn get_context(&self) -> (r: Context)
        ensures
            r.view_entries() == self.context.view_entries(),
            self.wf() ==> r.wf(),
    {
        self.context.get()
    }

    /// Drop every entry of the ambient context.
    pub fn clear_context(&mut self)
        ensures
            old(self).config.wf() ==> final(self).wf(),
            final(self).context.view_entries() == Seq::<(Seq<char>, JVal)>::empty(),
            final(self).config == old(self).config,
            final(self).rate_limiter == old(self).rate_limiter,
            final(self).data_plane == old(self).data_plane,
            final(self).key == old(self).key,
    {
        self.context.clear();
    }

    /// Overwrite the anonymous id used in all subsequent events. The link
    /// map is not touched.
    pub fn set_anonymous_id(&mut self, anonymous_id: String)
        ensures
            final(self).config.anonymous_id == anonymous_id,
            final(self).config.connected_ids == old(self).config.connected_ids,
            final(self).config.user_id == old(self).config.user_id,
            final(self).context == old(self).context,
            final(self).rate_limiter == old(self).rate_limiter,
            final(self).data_plane == old(self).data_plane,
            final(self).key == old(self).key,
    {
        self.config.set_anonymous_id(anonymous_id);
    }

    /// Send a message: gate it through the rate limiter, then stamp it with
    /// a consistent snapshot of identity and context. A dropped message
    /// reaches no further state and no transport; a dispatched one carries
    /// the snapshot identity and the merged context.
    pub fn send(&mut self, msg: Message, now_ms: u64) -> (r: SendResult)
        ensures
            final(self).config == old(self).config,
            final(self).context == old(self).context,
            final(self).data_plane == old(self).data_plane,
            final(self).key == old(self).key,
            (final(self).rate_limiter is Some) == (old(self).rate_limiter is Some),
            match old(self).rate_limiter {
                None => final(self).rate_limiter is None,
                Some(l0) => final(self).rate_limiter is Some && L::step_rel(
                    l0,
                    final(self).rate_limiter->0,
                    msg,
                    now_ms,
                ),
            },
            (r is EventDropped) <==> (old(self).rate_limiter is Some && !old(
                self,
            ).rate_limiter->0.allows(msg, now_ms)),
            r is Dispatched ==> dispatched_ok(
                msg,
                r->Dispatched_0,
                old(self).config.anonymous_id@,
                old(self).config.user_id.deep_view(),
                JVal::Obj(old(self).context.view_entries()),
            ),
    {
        let mut taken: Option<L> = None;
        core::mem::swap(&mut self.rate_limiter, &mut taken);
        match taken {
            Some(mut l) => {
                let pass = l.let_pass(&msg, now_ms);
                self.rate_limiter = Some(l);
                if !pass {
                    return SendResult::EventDropped;
                }
            },
            None => {},
        }
        let anon = self.config.anonymous_id.clone();
        let user_id = clone_opt_string(&self.config.user_id);
        let base = self.context.snapshot();
        let stamped = match msg {
            Message::Identify(x) => Message::Identify(
                Identify {
                    user_id,
                    anonymous_id: Some(anon),
                    traits: x.traits,
                    original_timestamp: x.original_timestamp,
                    context: Some(
                        match x.context {
                            Some(c) => merge_value(&base, &c),
                            None => base,
                        },
                    ),
                    integrations: x.integrations,
                },
            ),
            Message::Track(x) => Message::Track(
                Track {
                    user_id,
                    anonymous_id: Some(anon),
                    event: x.event,
                    properties: x.properties,
                    original_timestamp: x.original_timestamp,
                    context: Some(
                        match x.context {
                            Some(c) => merge_value(&base, &c),
                            None => base,
                        },
                    ),
                    integrations: x.integrations,
                },
            ),
            Message::Page(x) => Message::Page(
                Page {
                    user_id,
                    anonymous_id: Some(anon),
                    name: x.name,
                    properties: x.properties,
                    original_timestamp: x.original_timestamp,
                    context: Some(
                        match x.context {
                            Some(c) => merge_value(&base, &c),
                            None => base,
                        },
                    ),
                    integrations: x.integrations,
                },
            ),
            Message::Screen(x) => Message::Screen(
                Screen {
                    user_id,
                    anonymous_id: Some(anon),
                    name: x.name,
                    properties: x.properties,
                    original_timestamp: x.original_timestamp,
                    context: Some(
                        match x.context {
                            Some(c) => merge_value(&base, &c),
                            None => base,
                        },
                    ),
                    integrations: x.integrations,
                },
            ),
            Message::Group(x) => Message::Group(
                Group {
                    user_id,
                    anonymous_id: Some(anon),
                    group_id: x.group_id,
                    traits: x.traits,
                    original_timestamp: x.original_timestamp,
                    context: Some(
                        match x.context {
                            Some(c) => merge_value(&base, &c),
                            None => base,
                        },
                    ),
                    integrations: x.integrations,
                },
            ),
            Message::Alias(x) => Message::Alias(x),
            Message::Batch(x) => {
                let mut rest = x.batch;
                let ghost orig = rest@;
                let mut members: Vec<BatchMessage> = Vec::new();
                while rest.len() > 0
                    invariant
                        members@.len() + rest@.len() == orig.len(),
                        rest@ == orig.subrange(members@.len() as int, orig.len() as int),
                        forall|t: int|
                            0 <= t < members@.len() ==> member_stamped(
                                orig[t],
                                #[trigger] members@[t],
                                anon@,
                                user_id.deep_view(),
                            ),
                    decreases rest.len(),
                {
                    let m = rest.remove(0);
                    proof {
                        assert(m == orig[members@.len() as int]);
                        assert(rest@ =~= orig.subrange(
                            members@.len() as int + 1,
                            orig.len() as int,
                        ));
                    }
                    let stamped_member = stamp_member(m, &anon, &user_id);
                    members.push(stamped_member);
                }
                Message::Batch(
                    Batch {
                        batch: members,
                        context: Some(
                            match x.context {
                                Some(c) => merge_value(&base, &c),
                                None => base,
                            },
                        ),
                        integrations: x.integrations,
                        original_timestamp: x.original_timestamp,
                    },
                )
            },
        };
        SendResult::Dispatched(stamped)
    }

    /// Install (or clear) the user id used in all subsequent events. When
    /// the id is newly linked, a synthetic identify event establishing the
    /// linkage is sent through the same gate as any other message, and its
    /// outcome is handed back; an already linked or cleared id sends
    /// nothing.
    pub fn set_user_id(&mut self, user_id: Option<String>, now_ms: u64) -> (r: Option<SendResult>)
        requires
            old(self).wf(),
        ensures
            final(self).wf(),
            final(self).config.anonymous_id == old(self).config.anonymous_id,
            final(self).config.user_id.deep_view() == user_id.deep_view(),
            final(self).config.links() == link_step(
                old(self).config.links(),
                old(self).config.anonymous_id@,
                user_id.deep_view(),
            ),
            final(self).context == old(self).context,
            final(self).data_plane == old(self).data_plane,
            final(self).key == old(self).key,
            (final(self).rate_limiter is Some) == (old(self).rate_limiter is Some),
            (r is Some) <==> link_outcome(old(self).config.links(), user_id.deep_view()) == Some(
                false,
            ),
            r is None ==> final(self).rate_limiter == old(self).rate_limiter,
            r is Some ==> match old(self).rate_limiter {
                None => final(self).rate_limiter is None,
                Some(l0) => final(self).rate_limiter is Some && L::step_rel(
                    l0,
                    final(self).rate_limiter->0,
                    Message::Identify(
                        Identify {
                            user_id: user_id,
                            anonymous_id: Some(old(self).config.anonymous_id),
                            traits: None,
                            original_timestamp: None,
                            context: None,
                            integrations: None,
                        },
                    ),
                    now_ms,
                ),
            },
            r is Some ==> match r->0 {
                SendResult::EventDropped => old(self).rate_limiter is Some,
                SendResult::Dispatched(m) => {
                    &&& m is Identify
                    &&& m->Identify_0.anonymous_id.deep_view() == Some(
                        old(self).config.anonymous_id@,
                    )
                    &&& m->Identify_0.user_id.deep_view() == user_id.deep_view()
                    &&& m->Identify_0.context.deep_view() == Some(
                        JVal::Obj(old(self).context.view_entries()),
                    )
                    &&& m->Identify_0.traits is None
                    &&& m->Identify_0.original_timestamp is None
                    &&& m->Identify_0.integrations is None
                },
            },
    {
        let uid_copy = clone_opt_string(&user_id);
        let outcome = self.config.set_user_id(user_id);
        if let Some(false) = outcome {
            let anon = self.config.anonymous_id.clone();
            let msg = Message::Identify(
                Identify {
                    user_id: uid_copy,
                    anonymous_id: Some(anon),
                    traits: None,
                    original_timestamp: None,
                    context: None,
                    integrations: None,
                },
            );
            Some(self.send(msg, now_ms))
        } else {
            None
        }
    }
}

} // verus!
