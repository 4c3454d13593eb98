//! Rules that send a trigger event to an agent.

use vstd::prelude::*;
use crate::agent::AgentId;
use crate::text::{begins, has_prefix, opt_same, opt_view, same};
use crate::trigger::{Actor, TriggerEvent, TriggerPayload, TriggerSource, TriggerType};

verus! {

/// A deterministic routing rule: match criteria and the agent they lead to.
#[derive(Debug, Clone)]
pub struct RoutingRule {
    pub match_criteria: RoutingMatch,
    pub agent: AgentId,
}

/// Criteria for matching a trigger event to a routing rule.
#[derive(Debug, Clone, Default)]
pub struct RoutingMatch {
    pub source: Option<TriggerSource>,
    pub trigger_type: Option<TriggerType>,
    pub channel_id: Option<String>,
    pub actor_id: Option<String>,
    pub prefix: Option<String>,
}

/// Routing configuration: deterministic rules and what to fall back on.
#[derive(Debug, Clone)]
pub struct RoutingConfig {
    pub default_agent: AgentId,
    pub classifier_model: Option<String>,
    pub rules: Vec<RoutingRule>,
}

/// The name of the one who set off an event.
pub open spec fn actor_name(actor: Actor) -> Seq<char> {
    match actor {
        Actor::User { actor_id } => actor_id@,
        Actor::Service { service_id } => service_id@,
        Actor::CronJob { job_id } => job_id@,
        Actor::A2aPeer { agent_id } => agent_id@,
    }
}

/// What the message of an event says; of an event without a message, nothing.
pub open spec fn message_text(event: TriggerEvent) -> Seq<char> {
    match event.payload {
        TriggerPayload::Message { text } => text@,
        _ => Seq::empty(),
    }
}

impl RoutingMatch {
    /// Each criterion that is given holds of the event.
    pub open spec fn fits(self, event: TriggerEvent) -> bool {
        &&& self.source matches Some(s) ==> event.source == s
        &&& self.trigger_type matches Some(t) ==> event.trigger_type == t
        &&& self.channel_id matches Some(c) ==> opt_view(event.metadata.channel_id) == Some(c@)
        &&& self.actor_id matches Some(a) ==> actor_name(event.actor) == a@
        &&& self.prefix matches Some(p) ==> has_prefix(message_text(event), p@)
    }

    /// Check if this match criteria applies to the given event.
    pub fn matches(&self, event: &TriggerEvent) -> (r: bool)
        ensures
            r == self.fits(*event),
    {
        if let Some(source) = &self.source {
            if event.source != *source {
                return false;
            }
        }
        if let Some(trigger_type) = &self.trigger_type {
            if event.trigger_type != *trigger_type {
                return false;
            }
        }
        if let Some(channel) = &self.channel_id {
            if !opt_same(&event.metadata.channel_id, channel.as_str()) {
                return false;
            }
        }
        if let Some(actor_id) = &self.actor_id {
            let name = match &event.actor {
                Actor::User { actor_id } => actor_id,
                Actor::Service { service_id } => service_id,
                Actor::CronJob { job_id } => job_id,
                Actor::A2aPeer { agent_id } => agent_id,
            };
            if !same(name.as_str(), actor_id.as_str()) {
                return false;
            }
        }
        if let Some(prefix) = &self.prefix {
            let none = String::new();
            let text = match &event.payload {
                TriggerPayload::Message { text } => text.as_str(),
                _ => none.as_str(),
            };
            if !begins(text, prefix.as_str()) {
                return false;
            }
        }
        true
    }
}

/// Criteria without any criterion fit every event.
pub proof fn no_criteria_fit_everything(m: RoutingMatch, event: TriggerEvent)
    requires
        m.source is None,
        m.trigger_type is None,
        m.channel_id is None,
        m.actor_id is None,
        m.prefix is None,
    ensures
        m.fits(event),
{
}

/// What fits stays fitting when criteria are dropped.
pub proof fn fewer_criteria_fit_more(m: RoutingMatch, event: TriggerEvent)
    requires
        m.fits(event),
    ensures
        (RoutingMatch { source: None, ..m }).fits(event),
        (RoutingMatch { trigger_type: None, ..m }).fits(event),
        (RoutingMatch { channel_id: None, ..m }).fits(event),
        (RoutingMatch { actor_id: None, ..m }).fits(event),
        (RoutingMatch { prefix: None, ..m }).fits(event),
{
}

/// Criteria that fit an event agree with it in each field that they give: where it comes from, what
/// set it off, in which channel, who did, and how its message begins.
pub proof fn what_fits_agrees(m: RoutingMatch, event: TriggerEvent)
    requires
        m.fits(event),
    ensures
        m.source matches Some(source) ==> source == event.source,
        m.trigger_type matches Some(kind) ==> kind == event.trigger_type,
        m.channel_id matches Some(c) ==> (event.metadata.channel_id matches Some(e) && e@ == c@),
        m.actor_id matches Some(a) ==> match event.actor {
            Actor::User { actor_id } => actor_id@ == a@,
            Actor::Service { service_id } => service_id@ == a@,
            Actor::CronJob { job_id } => job_id@ == a@,
            Actor::A2aPeer { agent_id } => agent_id@ == a@,
        },
        m.prefix matches Some(p) ==> p@.len() == 0 || (event.payload matches TriggerPayload::Message {
            text,
        } && text@.len() >= p@.len() && forall|i: int|
            0 <= i < p@.len() ==> (#[trigger] text@[i]) == p@[i]),
{
    if let Some(p) = m.prefix {
        let said = message_text(event);
        assert(has_prefix(said, p@));
        assert forall|i: int| 0 <= i < p@.len() implies (#[trigger] said[i]) == p@[i] by {
            assert(said.subrange(0, p@.len() as int)[i] == said[i]);
        }
    }
}

/// Criteria that do not fit an event are told apart from it by one of the fields that they give.
pub proof fn what_does_not_fit_differs(m: RoutingMatch, event: TriggerEvent)
    requires
        !m.fits(event),
    ensures
        ({
            ||| m.source is Some && m.source->0 != event.source
            ||| m.trigger_type is Some && m.trigger_type->0 != event.trigger_type
            ||| m.channel_id is Some && !(event.metadata.channel_id is Some
                && event.metadata.channel_id->0@ == m.channel_id->0@)
            ||| m.actor_id is Some && match event.actor {
                Actor::User { actor_id } => actor_id@ != m.actor_id->0@,
                Actor::Service { service_id } => service_id@ != m.actor_id->0@,
                Actor::CronJob { job_id } => job_id@ != m.actor_id->0@,
                Actor::A2aPeer { agent_id } => agent_id@ != m.actor_id->0@,
            }
            ||| m.prefix is Some && (match event.payload {
                TriggerPayload::Message { text } => !(m.prefix->0@.is_prefix_of(text@)),
                _ => m.prefix->0@.len() > 0,
            })
        }),
{
    if let Some(p) = m.prefix {
        if !has_prefix(message_text(event), p@) {
            if let TriggerPayload::Message { text } = event.payload {
                if p@.is_prefix_of(text@) {
                    assert(text@.subrange(0, p@.len() as int) =~= p@);
                }
            } else if p@.len() == 0 {
                assert(message_text(event).subrange(0, 0) =~= p@);
            }
        }
    }
}

/// Criteria with a source fit at most one of two events from different sources, and likewise for
/// what sets events off.
pub proof fn events_are_told_apart(m: RoutingMatch, a: TriggerEvent, b: TriggerEvent)
    requires
        m.fits(a),
        m.fits(b),
    ensures
        m.source is Some ==> a.source == b.source,
        m.trigger_type is Some ==> a.trigger_type == b.trigger_type,
        m.channel_id is Some ==> opt_view(a.metadata.channel_id) == opt_view(b.metadata.channel_id),
{
}

} // verus!
