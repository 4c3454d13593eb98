//! Which model serves which purpose.

use vstd::prelude::*;
use crate::agent::AgentModelConfig;
use crate::config::ModelSlotConfig;
use crate::error::{InfraError, NeuromancerError};
use crate::named::Named;
use crate::text::{cat3, same, views};

verus! {

/// Maps logical model slot names to model configurations.
/// Resolves per-agent overrides vs global defaults.
#[derive(Debug)]
pub struct ModelRouter {
    /// Global model slot configurations from [models] config section.
    global_slots: Named<ModelSlotConfig>,
}

/// The slot that serves an agent in a role: the one that the agent names for it, or else the one
/// with the name of the role.
pub open spec fn slot_for(role: Seq<char>, models: AgentModelConfig) -> Seq<char> {
    if role == "planner"@ {
        match models.planner {
            Some(slot) => slot@,
            None => role,
        }
    } else if role == "executor"@ {
        match models.executor {
            Some(slot) => slot@,
            None => role,
        }
    } else if role == "verifier"@ {
        match models.verifier {
            Some(slot) => slot@,
            None => role,
        }
    } else {
        role
    }
}

impl ModelRouter {
    /// The models, by the names of their slots.
    pub closed spec fn slots(self) -> Map<Seq<char>, ModelSlotConfig> {
        self.global_slots@
    }

    pub fn new(global_slots: Named<ModelSlotConfig>) -> (r: ModelRouter)
        ensures
            r.slots() == global_slots@,
    {
        ModelRouter { global_slots }
    }

    /// What looking up a slot comes to.
    pub open spec fn finds(
        self,
        slot: Seq<char>,
        r: Result<&ModelSlotConfig, NeuromancerError>,
    ) -> bool {
        match r {
            Ok(config) => self.slots().dom().contains(slot) && self.slots()[slot] == *config,
            Err(e) => !self.slots().dom().contains(slot) && (e matches NeuromancerError::Infra(
                InfraError::Config(text),
            ) && text@ == "model slot '"@ + slot + "' not found in global config"@),
        }
    }

    /// The model in a slot.
    pub fn resolve(&self, slot: &str) -> (r: Result<&ModelSlotConfig, NeuromancerError>)
        ensures
            self.finds(slot@, r),
    {
        match self.global_slots.get(slot) {
            Some(config) => Ok(config),
            None => Err(
                NeuromancerError::Infra(
                    InfraError::Config(
                        cat3("model slot '", slot, "' not found in global config"),
                    ),
                ),
            ),
        }
    }

    /// Resolve the executor model for an agent, considering agent-level overrides.
    /// If the agent specifies a model slot name for the role, resolve that slot.
    /// Otherwise fall back to the role name itself as a slot.
    pub fn resolve_for_agent(&self, role: &str, agent_models: &AgentModelConfig) -> (r: Result<
        &ModelSlotConfig,
        NeuromancerError,
    >)
        ensures
            self.finds(slot_for(role@, *agent_models), r),
    {
        let slot = if same(role, "planner") {
            match &agent_models.planner {
                Some(slot) => slot.as_str(),
                None => role,
            }
        } else if same(role, "executor") {
            match &agent_models.executor {
                Some(slot) => slot.as_str(),
                None => role,
            }
        } else if same(role, "verifier") {
            match &agent_models.verifier {
                Some(slot) => slot.as_str(),
                None => role,
            }
        } else {
            role
        };
        self.resolve(slot)
    }

    /// Check if a slot exists.
    pub fn has_slot(&self, slot: &str) -> (r: bool)
        ensures
            r == self.slots().dom().contains(slot@),
    {
        self.global_slots.contains_key(slot)
    }

    /// List all available slot names.
    pub fn slot_names(&self) -> (r: Vec<String>)
        ensures
            forall|slot: Seq<char>|
                self.slots().dom().contains(slot) <==> views(r@).contains(slot),
            views(r@).no_duplicates(),
    {
        self.global_slots.names()
    }
}

/// An agent that names no slots is served by those with the names of its roles.
pub proof fn roles_are_slots_by_default(role: Seq<char>)
    ensures
        slot_for(role, AgentModelConfig { planner: None, executor: None, verifier: None }) == role,
{
}

/// An agent's own slot is taken for each of the three roles, whatever it says of the others; another
/// role is a slot itself.
pub proof fn agents_choose_their_slots(
    role: Seq<char>,
    planner: Option<String>,
    executor: Option<String>,
    verifier: Option<String>,
)
    ensures
        ({
            let models = AgentModelConfig { planner, executor, verifier };
            &&& planner matches Some(s) ==> slot_for("planner"@, models) == s@
            &&& executor matches Some(s) ==> slot_for("executor"@, models) == s@
            &&& verifier matches Some(s) ==> slot_for("verifier"@, models) == s@
            &&& planner is None ==> slot_for("planner"@, models) == "planner"@
            &&& executor is None ==> slot_for("executor"@, models) == "executor"@
            &&& verifier is None ==> slot_for("verifier"@, models) == "verifier"@
            &&& role != "planner"@ && role != "executor"@ && role != "verifier"@ ==> slot_for(
                role,
                models,
            ) == role
        }),
{
    reveal_strlit("planner");
    reveal_strlit("executor");
    reveal_strlit("verifier");
    assert("planner"@.len() == 7);
    assert("executor"@[0] == 'e');
    assert("verifier"@[0] == 'v');
}

/// A slot that is configured is found with its own configuration; one that is not is named in the
/// error.
pub proof fn slots_are_found_by_name(
    router: ModelRouter,
    slot: Seq<char>,
    r: Result<&ModelSlotConfig, NeuromancerError>,
)
    requires
        router.finds(slot, r),
    ensures
        r is Ok <==> router.slots().dom().contains(slot),
        r matches Ok(config) ==> *config == router.slots()[slot],
        r matches Err(e) ==> (e matches NeuromancerError::Infra(InfraError::Config(text)) && text@
            == "model slot '"@ + slot + "' not found in global config"@),
{
}

} // verus!
