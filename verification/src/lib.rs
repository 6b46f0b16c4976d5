//! In-process telemetry forwarding: event enrichment, identity state,
//! a per-event-type rate limiter, and a dispatch engine.
//!
//! The engine stamps every outgoing event with the installation's anonymous
//! id, the current user id and the ambient context, gates it through an
//! optional rate limiter, and hands the fully stamped message back to the
//! caller for transport.

use vstd::prelude::*;

pub mod config;
pub mod context;
pub mod rate_limiters;
pub mod rudder_wrapper;
pub mod types;
pub mod value;

use crate::config::Config;
use crate::context::Context;
use crate::rudder_wrapper::{RateLimiter, RudderWrapper};

verus! {

/// Collects everything an engine starts from: the endpoint coordinates, an
/// optional fixed anonymous id, the first-run marker and the starting
/// context.
pub struct RudderStackBuilder {
    /// The URL of the data plane.
    pub data_plane: String,
    /// The write key of the project.
    pub key: String,
    /// A fixed anonymous id; when set, no id is generated and the same id
    /// must be supplied on subsequent runs to stay the same user.
    pub anonymous_id: Option<String>,
    /// Whether a first-run event should be sent when no persisted identity
    /// state could be loaded.
    pub first_run: bool,
    /// The context sent with every event.
    pub context: Context,
}

impl RudderStackBuilder {
    /// Start building: the data plane URL and the project's write key.
    pub fn new(data_plane: String, key: String) -> (r: RudderStackBuilder)
        ensures
            r.data_plane == data_plane,
            r.key == key,
            r.anonymous_id is None,
            r.first_run == false,
            r.context.entries@.len() == 0,
            r.context.wf(),
    {
        RudderStackBuilder {
            data_plane,
            key,
            anonymous_id: None,
            first_run: false,
            context: Context::new(),
        }
    }

    /// Fix the anonymous id instead of generating one.
    pub fn anonymous_id(self, id: String) -> (r: RudderStackBuilder)
        ensures
            r.anonymous_id == Some(id),
            r.data_plane == self.data_plane,
            r.key == self.key,
            r.first_run == self.first_run,
            r.context == self.context,
    {
        RudderStackBuilder { anonymous_id: Some(id), ..self }
    }

    /// Ask for a first-run event when no persisted state could be loaded.
    pub fn first_run(self, first_run: bool) -> (r: RudderStackBuilder)
        ensures
            r.first_run == first_run,
            r.data_plane == self.data_plane,
            r.key == self.key,
            r.anonymous_id == self.anonymous_id,
            r.context == self.context,
    {
        RudderStackBuilder { first_run, ..self }
    }

    /// Install the context that will be sent with every event.
    pub fn with_context(self, context: Context) -> (r: RudderStackBuilder)
        ensures
            r.context == context,
            r.data_plane == self.data_plane,
            r.key == self.key,
            r.anonymous_id == self.anonymous_id,
            r.first_run == self.first_run,
    {
        RudderStackBuilder { context, ..self }
    }

    /// Resolve the starting state and build the engine. `loaded` is the
    /// persisted identity state, `None` when it could not be read; a fresh
    /// state is substituted then, and a fixed anonymous id, when given,
    /// overrides the loaded or generated one. The second component says
    /// whether a first-run event is owed: only when it was asked for and no
    /// persisted state was found.
    pub fn build<L: RateLimiter>(self, loaded: Option<Config>) -> (r: (RudderWrapper<L>, bool))
        requires
            match loaded {
                Some(c) => c.wf(),
                None => true,
            },
            self.context.wf(),
        ensures
            r.0.wf(),
            r.1 == (self.first_run && loaded is None),
            r.0.data_plane == self.data_plane,
            r.0.key == self.key,
            r.0.context == self.context,
            r.0.rate_limiter is None,
            match loaded {
                Some(c) => r.0.config.connected_ids == c.connected_ids && r.0.config.user_id
                    == c.user_id && r.0.config.links() == c.links() && match self.anonymous_id {
                    Some(id) => r.0.config.anonymous_id == id,
                    None => r.0.config.anonymous_id == c.anonymous_id,
                },
                None => r.0.config.connected_ids@.len() == 0 && r.0.config.user_id is None && (
                match self.anonymous_id {
                    Some(id) => r.0.config.anonymous_id == id,
                    None => r.0.config.anonymous_id@.len() == 36,
                }),
            },
    {
        let first = self.first_run && loaded.is_none();
        let mut config = match loaded {
            Some(c) => c,
            None => Config::default(),
        };
        if let Some(id) = self.anonymous_id {
            config.set_anonymous_id(id);
        }
        (RudderWrapper::new(self.data_plane, self.key, config, self.context), first)
    }
}

} // verus!
