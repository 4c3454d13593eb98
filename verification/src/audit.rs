//! The verdicts and the records of audits.

use vstd::prelude::*;
use crate::json::Json;
use crate::trigger::TriggerType;

verus! {

#[derive(Debug, Clone, PartialEq, Eq)]
pub enum AuditRiskLevel {
    Low,
    Medium,
    High,
    Critical,
}

#[derive(Debug, Clone)]
pub struct AuditVerdict {
    pub risk_level: AuditRiskLevel,
    pub exploitability_notes: Vec<String>,
    pub allow: bool,
    pub required_safeguards: Vec<String>,
}

#[derive(Debug, Clone)]
pub struct MutationAuditRecord {
    pub at: String,
    pub trigger_type: TriggerType,
    pub proposal_id: Option<String>,
    pub proposal_hash: Option<String>,
    pub action: String,
    pub outcome: String,
    pub details: Json,
}

} // verus!
