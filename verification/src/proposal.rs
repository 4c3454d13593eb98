//! Proposals for change, from their making to their taking effect.

use vstd::prelude::*;
use crate::audit::AuditVerdict;
use crate::json::Json;
use crate::trigger::TriggerType;

verus! {

#[derive(Debug, Clone, PartialEq, Eq)]
pub enum ChangeProposalKind {
    ConfigChange,
    SkillAdd,
    SkillUpdate,
    AgentAdd,
    AgentUpdate,
}

#[derive(Debug, Clone, PartialEq, Eq)]
pub enum ProposalState {
    ProposalCreated,
    VerificationPassed,
    VerificationFailed,
    AuditPassed,
    AuditBlocked,
    AwaitingAdminMessage,
    Authorized,
    AppliedCanary,
    Promoted,
    RolledBack,
}

#[derive(Debug, Clone)]
pub struct VerificationReport {
    pub passed: bool,
    pub issues: Vec<String>,
    pub blocked_by_guard: bool,
}

#[derive(Debug, Clone, Default)]
pub struct ProposalAuthorization {
    pub authorized: bool,
    pub force: bool,
    pub authorized_at: Option<String>,
    pub authorized_trigger_type: Option<TriggerType>,
}

#[derive(Debug, Clone)]
pub struct ProposalApplyResult {
    pub promoted: bool,
    pub rolled_back: bool,
    pub reason: Option<String>,
}

#[derive(Debug, Clone)]
pub struct ChangeProposal {
    pub proposal_id: String,
    pub proposal_hash: String,
    pub kind: ChangeProposalKind,
    pub target_id: Option<String>,
    pub payload: Json,
    pub created_at: String,
    pub updated_at: String,
    pub state: ProposalState,
    pub lifecycle: Vec<ProposalState>,
    pub verification_report: VerificationReport,
    pub audit_verdict: AuditVerdict,
    pub authorization: ProposalAuthorization,
    pub apply_result: Option<ProposalApplyResult>,
}

#[derive(Debug, Clone, Default)]
pub struct SkillQualityStats {
    pub invocations: u64,
    pub failures: u64,
}

impl ChangeProposal {
    /// What the audit asks for before the proposal may be applied.
    pub fn required_safeguards(&self) -> (r: &Vec<String>)
        ensures
            *r == self.audit_verdict.required_safeguards,
    {
        &self.audit_verdict.required_safeguards
    }
}

} // verus!
