//! Decisions of the policy gates.

use vstd::prelude::*;

verus! {

/// Result of a policy evaluation.
#[derive(Debug, Clone)]
pub enum PolicyDecision {
    Allow,
    Deny { reason: String, code: String },
    RequireApproval { question: String },
}

impl PolicyDecision {
    /// Whether the call may go on without more ado.
    pub fn is_allowed(&self) -> (r: bool)
        ensures
            r == (*self is Allow),
    {
        match self {
            PolicyDecision::Allow => true,
            _ => false,
        }
    }
}

/// Chat message for policy inspection (pre-LLM-call gate).
#[derive(Debug, Clone)]
pub struct ChatMessage {
    pub role: MessageRole,
    pub content: String,
}

#[derive(Debug, Clone, PartialEq, Eq)]
pub enum MessageRole {
    System,
    User,
    Assistant,
    Tool,
}

} // verus!
