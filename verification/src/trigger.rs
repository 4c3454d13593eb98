//! What sets the system to work: messages, schedules and other agents.

use vstd::prelude::*;
use crate::agent::AgentId;
use crate::json::Json;
use crate::time::Timestamp;

verus! {

/// Identity of the entity that produced a trigger event.
#[derive(Debug, Clone)]
pub enum Actor {
    User { actor_id: String },
    Service { service_id: String },
    CronJob { job_id: String },
    A2aPeer { agent_id: AgentId },
}

/// Privilege level attached to the trigger event.
#[derive(Debug, Clone, Copy, PartialEq, Eq, Structural)]
pub enum TriggerType {
    User,
    Admin,
    Internal,
    UserConversation,
}

/// Source of a trigger event.
#[derive(Debug, Clone, Copy, PartialEq, Eq, Structural)]
pub enum TriggerSource {
    Chat,
    Cron,
    A2a,
    Cli,
    Internal,
}

/// Payload of a trigger event.
#[derive(Debug, Clone)]
pub enum TriggerPayload {
    Message {
        text: String,
    },
    CronFire {
        job_id: String,
        rendered_instruction: String,
        parameters: Json,
    },
    A2aRequest {
        from_agent: AgentId,
        content: Json,
    },
}

/// Metadata about the trigger context.
#[derive(Debug, Clone, Default)]
pub struct TriggerMetadata {
    pub channel_id: Option<String>,
    pub guild_id: Option<String>,
    pub thread_id: Option<String>,
    pub message_id: Option<String>,
}

/// A trigger event produced by any trigger source and consumed by the orchestrator.
#[derive(Debug, Clone)]
pub struct TriggerEvent {
    pub trigger_id: String,
    pub occurred_at: Timestamp,
    pub actor: Actor,
    pub trigger_type: TriggerType,
    pub source: TriggerSource,
    pub payload: TriggerPayload,
    pub metadata: TriggerMetadata,
    pub route_hint: Option<String>,
}

} // verus!
