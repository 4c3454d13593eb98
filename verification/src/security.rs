//! A guard that can stop changes and scripts before they take effect.

use vstd::prelude::*;
use crate::error::NeuromancerError;
use crate::proposal::ChangeProposal;

verus! {

/// What is asked before a proposal is verified or applied and before a skill's script is run.
pub trait ExecutionGuard {
    fn pre_verify_proposal(&self, proposal: &ChangeProposal) -> Result<(), NeuromancerError>;

    fn pre_apply_proposal(&self, proposal: &ChangeProposal) -> Result<(), NeuromancerError>;

    fn pre_skill_script_execution(
        &self,
        skill_id: &str,
        required_safeguards: &Vec<String>,
    ) -> Result<(), NeuromancerError>;
}

} // verus!
