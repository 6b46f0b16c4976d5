//! The built-in rate limiting policy: a per-event-type cap over a rolling
//! 60-second window, evaluated lazily on access. Counters live in a
//! concurrent map keyed by the event-type string; distinct keys are fully
//! independent. Time enters as an explicit unix-millisecond clock value.

use vstd::prelude::*;

use crate::types::Message;

verus! {

/// Length of the rate-limiting window, in milliseconds.
pub const WINDOW_MS: u64 = 60000;

/// The key a message is counted under: a track's event name, a page's or
/// screen's name, and a fixed literal for every other variant.
pub open spec fn event_key_view(m: Message) -> Seq<char> {
    match m {
        Message::Track(t) => t.event@,
        Message::Identify(_) => "identify"@,
        Message::Page(p) => p.name@,
        Message::Screen(s) => s.name@,
        Message::Group(_) => "group"@,
        Message::Alias(_) => "alias"@,
        Message::Batch(_) => "batch"@,
    }
}

/// The key a message is counted under.
pub fn event_key(message: &Message) -> (r: String)
    ensures
        r@ == event_key_view(*message),
{
    match message {
        Message::Track(t) => t.event.clone(),
        Message::Identify(_) => "identify".to_owned(),
        Message::Page(p) => p.name.clone(),
        Message::Screen(s) => s.name.clone(),
        Message::Group(_) => "group".to_owned(),
        Message::Alias(_) => "alias".to_owned(),
        Message::Batch(_) => "batch".to_owned(),
    }
}

/// Whether a window that started at `start` has expired by `now`.
pub open spec fn window_expired(start: u64, now: u64) -> bool {
    now >= start && now - start >= WINDOW_MS
}

/// A counter pair `(count, window_start)` after the lazy reset: zeroed with
/// a fresh window when expired, untouched otherwise.
pub open spec fn counter_reset(c: (u32, u64), now: u64) -> (u32, u64) {
    if window_expired(c.1, now) {
        (0u32, now)
    } else {
        c
    }
}

/// The counter that a check at `now` sees for `key`: the stored pair after
/// its lazy reset, or a fresh zero counter for an unknown key.
pub open spec fn seen_counter(m: Map<Seq<char>, (u32, u64)>, key: Seq<char>, now: u64) -> (
    u32,
    u64,
) {
    if m.dom().contains(key) {
        counter_reset(m[key], now)
    } else {
        (0u32, now)
    }
}

/// Whether a check for `key` at `now` passes under cap `cap`.
pub open spec fn cap_allows(
    m: Map<Seq<char>, (u32, u64)>,
    cap: u32,
    key: Seq<char>,
    now: u64,
) -> bool {
    seen_counter(m, key, now).0 < cap
}

/// The counters after a check for `key` at `now`: the seen counter is
/// stored back, incremented when the check passed.
pub open spec fn cap_step(m: Map<Seq<char>, (u32, u64)>, cap: u32, key: Seq<char>, now: u64) -> Map<
    Seq<char>,
    (u32, u64),
> {
    let c = seen_counter(m, key, now);
    if c.0 < cap {
        m.insert(key, ((c.0 + 1) as u32, c.1))
    } else {
        m.insert(key, c)
    }
}

/// Every counter after its lazy reset at `now`; what a stats read leaves
/// behind.
pub open spec fn reset_all(m: Map<Seq<char>, (u32, u64)>, now: u64) -> Map<Seq<char>, (u32, u64)> {
    Map::new(|k: Seq<char>| m.dom().contains(k), |k: Seq<char>| counter_reset(m[k], now))
}

/// The counters after a run of checks for one key, the i-th check made at
/// `times[i]`.
pub open spec fn cap_run(
    m: Map<Seq<char>, (u32, u64)>,
    cap: u32,
    key: Seq<char>,
    times: Seq<u64>,
) -> Map<Seq<char>, (u32, u64)>
    decreases times.len(),
{
    if times.len() == 0 {
        m
    } else {
        cap_step(cap_run(m, cap, key, times.drop_last()), cap, key, times.last())
    }
}

/// Law: starting from no traffic for `key`, with every check falling inside
/// the 60-second window that opens at the first check, exactly the first
/// `cap` checks pass — after `n` checks the counter reads the smaller of
/// `n` and `cap`, and one more check within the window passes exactly when
/// fewer than `cap` checks have been made.
pub proof fn lemma_cap_exactly_first_n(
    m: Map<Seq<char>, (u32, u64)>,
    cap: u32,
    key: Seq<char>,
    times: Seq<u64>,
)
    requires
        !m.dom().contains(key),
        times.len() >= 1,
        forall|i: int|
            0 <= i < times.len() ==> times[0] <= (#[trigger] times[i]) && times[i] - times[0]
                < WINDOW_MS,
    ensures
        cap_run(m, cap, key, times).dom().contains(key),
        cap_run(m, cap, key, times)[key].1 == times[0],
        cap_run(m, cap, key, times)[key].0 == if times.len() <= cap {
            times.len() as u32
        } else {
            cap
        },
        forall|t: u64|
            times[0] <= t && t - times[0] < WINDOW_MS ==> (#[trigger] cap_allows(
                cap_run(m, cap, key, times),
                cap,
                key,
                t,
            ) <==> times.len() < cap),
    decreases times.len(),
{
    if times.len() == 1 {
        assert(times.drop_last().len() == 0);
        assert(cap_run(m, cap, key, times.drop_last()) == m);
        assert(times.last() == times[0]);
        assert(seen_counter(m, key, times[0]) == (0u32, times[0]));
    } else {
        let prior = times.drop_last();
        assert(prior[0] == times[0]);
        assert forall|i: int|
            0 <= i < prior.len() implies prior[0] <= (#[trigger] prior[i]) && prior[i] - prior[0]
            < WINDOW_MS by {
            assert(prior[i] == times[i]);
        }
        lemma_cap_exactly_first_n(m, cap, key, prior);
        let n = times.len() as int;
        let last = times[n - 1];
        assert(times[0] <= last && last - times[0] < WINDOW_MS);
        let before = cap_run(m, cap, key, prior);
        assert(!window_expired(times[0], last));
        assert(seen_counter(before, key, last) == before[key]);
        if n - 1 <= cap {
            assert(before[key].0 == (n - 1) as u32);
            if n - 1 < cap {
                assert(cap_allows(before, cap, key, last));
                assert((((n - 1) as u32 + 1) as u32) as int == n);
            } else {
                assert(before[key].0 == cap);
                assert(!cap_allows(before, cap, key, last));
            }
        } else {
            assert(before[key].0 == cap);
            assert(!cap_allows(before, cap, key, last));
        }
    }
}

/// Law: checks for one key never change what another key is allowed; the
/// per-key budgets are fully independent.
pub proof fn lemma_cap_keys_independent(
    m: Map<Seq<char>, (u32, u64)>,
    cap: u32,
    key: Seq<char>,
    other: Seq<char>,
    now: u64,
    now2: u64,
)
    requires
        other != key,
    ensures
        cap_allows(cap_step(m, cap, key, now), cap, other, now2) == cap_allows(m, cap, other, now2),
{
}

/// Law: after a full reset every key passes again at once — for any cap
/// that admits at least one event. (A cap of zero denies every check, so a
/// key denied under it stays denied even after a reset.)
pub proof fn lemma_reset_allows(m: Map<Seq<char>, (u32, u64)>, cap: u32, key: Seq<char>, now: u64)
    requires
        no_counters(m),
        cap >= 1,
    ensures
        cap_allows(m, cap, key, now),
{
}

/// One per-key counter: how many events were seen in the window that
/// started at `window_start`.
#[derive(Debug, PartialEq, Clone, Copy)]
pub struct EventCounter {
    /// Events counted in the current window.
    pub count: u32,
    /// When the current window started, in unix milliseconds.
    pub window_start: u64,
}

impl EventCounter {
    /// A fresh counter whose window starts now.
    pub fn new(now_ms: u64) -> (r: EventCounter)
        ensures
            r.count == 0,
            r.window_start == now_ms,
    {
        EventCounter { count: 0, window_start: now_ms }
    }

    /// The lazy reset: zero the counter and restart the window when 60
    /// seconds have elapsed since it started.
    pub fn reset_if_expired(&mut self, now_ms: u64)
        ensures
            (final(self).count, final(self).window_start) == counter_reset(
                (old(self).count, old(self).window_start),
                now_ms,
            ),
    {
        if now_ms >= self.window_start && now_ms - self.window_start >= WINDOW_MS {
            self.count = 0;
            self.window_start = now_ms;
        }
    }

    /// Count one more event.
    pub fn increment(&mut self)
        requires
            old(self).count < u32::MAX,
        ensures
            final(self).count == old(self).count + 1,
            final(self).window_start == old(self).window_start,
    {
        self.count += 1;
    }

    /// The events counted in the current window.
    pub fn current_count(&self) -> (r: u32)
        ensures
            r == self.count,
    {
        self.count
    }
}

#[verifier::external_type_specification]
#[verifier::external_body]
#[verifier::reject_recursive_types(K)]
#[verifier::reject_recursive_types(V)]
#[verifier::reject_recursive_types(S)]
pub struct ExDashMap<K, V, S>(dashmap::DashMap<K, V, S>);

/// Whether the counter map holds nothing.
pub open spec fn no_counters(m: Map<Seq<char>, (u32, u64)>) -> bool {
    m == Map::<Seq<char>, (u32, u64)>::empty()
}

/// What the counter map holds, as a map from key views to counter pairs.
pub uninterp spec fn counters_of(m: dashmap::DashMap<String, (u32, u64)>) -> Map<
    Seq<char>,
    (u32, u64),
>;

/// Relies on `dashmap::DashMap::new`: a freshly created map is empty.
#[verifier::external_body]
fn counters_new() -> (r: dashmap::DashMap<String, (u32, u64)>)
    ensures
        no_counters(counters_of(r)),
{
    dashmap::DashMap::new()
}

/// Relies on `dashmap::DashMap::get`: the value stored under the key, if
/// any.
#[verifier::external_body]
fn counters_get(m: &dashmap::DashMap<String, (u32, u64)>, key: &String) -> (r: Option<(u32, u64)>)
    ensures
        r == if counters_of(*m).dom().contains(key@) {
            Some(counters_of(*m)[key@])
        } else {
            None
        },
{
    m.get(key).map(|v| *v)
}

/// Relies on `dashmap::DashMap::insert`: stores the value under the key,
/// replacing what was there.
#[verifier::external_body]
fn counters_insert(m: &mut dashmap::DashMap<String, (u32, u64)>, key: String, v: (u32, u64))
    ensures
        counters_of(*final(m)) == counters_of(*old(m)).insert(key@, v),
{
    m.insert(key, v);
}

/// Relies on `dashmap::DashMap::clear`: removes every entry.
#[verifier::external_body]
fn counters_clear(m: &mut dashmap::DashMap<String, (u32, u64)>)
    ensures
        no_counters(counters_of(*final(m))),
{
    m.clear();
}

/// Relies on `dashmap::DashMap::iter`: visits every stored entry exactly
/// once; no order is assumed.
#[verifier::external_body]
fn counters_items(m: &dashmap::DashMap<String, (u32, u64)>) -> (r: Vec<(String, (u32, u64))>)
    ensures
        forall|i: int|
            0 <= i < r@.len() ==> counters_of(*m).dom().contains((#[trigger] r@[i]).0@)
                && counters_of(*m)[r@[i].0@] == r@[i].1,
        forall|k: Seq<char>| #[trigger]
            counters_of(*m).dom().contains(k) ==> exists|i: int|
                0 <= i < r@.len() && (#[trigger] r@[i]).0@ == k,
        forall|i: int, j: int| 0 <= i < j < r@.len() ==> (#[trigger] r@[i]).0@ != (
        #[trigger] r@[j]).0@,
{
    let mut out = Vec::new();
    for entry in m.iter() {
        out.push((entry.key().clone(), *entry.value()));
    }
    out
}

/// A rate limiter that caps, for each event type independently, how many
/// events may pass per rolling 60-second window.
pub struct PerEventCap {
    /// The cap: how many events of one type may pass per window.
    pub events_per_minute: u32,
    /// One counter per event-type key.
    pub event_counters: dashmap::DashMap<String, (u32, u64)>,
}

impl PerEventCap {
    /// The counters this limiter currently holds.
    pub open spec fn counters(&self) -> Map<Seq<char>, (u32, u64)> {
        counters_of(self.event_counters)
    }

    /// A limiter allowing `events_per_minute` events per window for each
    /// event type, with no traffic seen yet.
    pub fn new(events_per_minute: u32) -> (r: PerEventCap)
        ensures
            r.events_per_minute == events_per_minute,
            r.counters() == Map::<Seq<char>, (u32, u64)>::empty(),
    {
        PerEventCap { events_per_minute, event_counters: counters_new() }
    }

    /// Whether this event may pass: lazily reset the key's counter, then
    /// allow and count the event while the cap is not yet reached.
    pub fn should_allow(&mut self, message: &Message, now_ms: u64) -> (r: bool)
        ensures
            final(self).events_per_minute == old(self).events_per_minute,
            r == cap_allows(
                old(self).counters(),
                old(self).events_per_minute,
                event_key_view(*message),
                now_ms,
            ),
            final(self).counters() == cap_step(
                old(self).counters(),
                old(self).events_per_minute,
                event_key_view(*message),
                now_ms,
            ),
    {
        let key = event_key(message);
        let mut counter = match counters_get(&self.event_counters, &key) {
            Some(c) => EventCounter { count: c.0, window_start: c.1 },
            None => EventCounter::new(now_ms),
        };
        counter.reset_if_expired(now_ms);
        if counter.current_count() < self.events_per_minute {
            counter.increment();
            counters_insert(&mut self.event_counters, key, (counter.count, counter.window_start));
            true
        } else {
            counters_insert(&mut self.event_counters, key, (counter.count, counter.window_start));
            false
        }
    }

    /// A consistent snapshot of all counters, each lazily reset before it is
    /// read; the resets are written back.
    pub fn get_stats(&mut self, now_ms: u64) -> (r: Vec<(String, u32)>)
        ensures
            final(self).events_per_minute == old(self).events_per_minute,
            final(self).counters() == reset_all(old(self).counters(), now_ms),
            forall|i: int|
                0 <= i < r@.len() ==> old(self).counters().dom().contains((#[trigger] r@[i]).0@)
                    && r@[i].1 == counter_reset(old(self).counters()[r@[i].0@], now_ms).0,
            forall|k: Seq<char>| #[trigger]
                old(self).counters().dom().contains(k) ==> exists|i: int|
                    0 <= i < r@.len() && (#[trigger] r@[i]).0@ == k,
            forall|i: int, j: int| 0 <= i < j < r@.len() ==> (#[trigger] r@[i]).0@ != (
            #[trigger] r@[j]).0@,
    {
        let ghost m0 = counters_of(self.event_counters);
        let items = counters_items(&self.event_counters);
        let mut out: Vec<(String, u32)> = Vec::new();
        let mut j: usize = 0;
        while j < items.len()
            invariant
                0 <= j <= items.len(),
                self.events_per_minute == old(self).events_per_minute,
                m0 == old(self).counters(),
                forall|i: int|
                    0 <= i < items@.len() ==> m0.dom().contains((#[trigger] items@[i]).0@)
                        && m0[items@[i].0@] == items@[i].1,
                forall|k: Seq<char>| #[trigger]
                    m0.dom().contains(k) ==> exists|i: int|
                        0 <= i < items@.len() && (#[trigger] items@[i]).0@ == k,
                forall|i: int, t: int| 0 <= i < t < items@.len() ==> (#[trigger] items@[i]).0@ != (
                #[trigger] items@[t]).0@,
                self.counters().dom() == m0.dom(),
                forall|t: int|
                    0 <= t < j ==> self.counters()[(#[trigger] items@[t]).0@] == counter_reset(
                        m0[items@[t].0@],
                        now_ms,
                    ),
                forall|t: int|
                    j <= t < items@.len() ==> self.counters()[(#[trigger] items@[t]).0@]
                        == m0[items@[t].0@],
                out@.len() == j,
                forall|t: int|
                    0 <= t < j ==> (#[trigger] out@[t]).0@ == items@[t].0@ && out@[t].1
                        == counter_reset(m0[items@[t].0@], now_ms).0,
            decreases items.len() - j,
        {
            let (key, c) = &items[j];
            let mut counter = EventCounter { count: c.0, window_start: c.1 };
            counter.reset_if_expired(now_ms);
            out.push((key.clone(), counter.current_count()));
            let ghost pre = self.counters();
            counters_insert(
                &mut self.event_counters,
                key.clone(),
                (counter.count, counter.window_start),
            );
            proof {
                assert(self.counters() == pre.insert(
                    items@[j as int].0@,
                    counter_reset(m0[items@[j as int].0@], now_ms),
                ));
                assert(self.counters().dom() =~= m0.dom());
            }
            j += 1;
        }
        proof {
            assert(self.counters() =~= reset_all(m0, now_ms));
            assert forall|k: Seq<char>| #[trigger] m0.dom().contains(k) implies exists|i: int|
                0 <= i < out@.len() && (#[trigger] out@[i]).0@ == k by {
                let i = choose|i: int| 0 <= i < items@.len() && (#[trigger] items@[i]).0@ == k;
                assert(out@[i].0@ == k);
            }
        }
        out
    }

    /// Forget all counters at once.
    pub fn reset(&mut self)
        ensures
            final(self).events_per_minute == old(self).events_per_minute,
            final(self).counters() == Map::<Seq<char>, (u32, u64)>::empty(),
    {
        counters_clear(&mut self.event_counters);
    }
}

impl crate::rudder_wrapper::RateLimiter for PerEventCap {
    /// The cap decision for the message's event-type key at `now_ms`.
    open spec fn allows(&self, msg: Message, now_ms: u64) -> bool {
        cap_allows(self.counters(), self.events_per_minute, event_key_view(msg), now_ms)
    }

    /// One check accounted: the cap is kept and the counters take exactly
    /// one `cap_step` for the message's key.
    open spec fn step_rel(pre: PerEventCap, post: PerEventCap, msg: Message, now_ms: u64) -> bool {
        post.events_per_minute == pre.events_per_minute && post.counters() == cap_step(
            pre.counters(),
            pre.events_per_minute,
            event_key_view(msg),
            now_ms,
        )
    }

    fn let_pass(&mut self, msg: &Message, now_ms: u64) -> (r: bool) {
        self.should_allow(msg, now_ms)
    }
}

} // verus!
