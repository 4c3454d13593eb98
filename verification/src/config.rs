//! The configuration of the system.

use vstd::prelude::*;
use crate::agent::{
    AgentCapabilities, AgentConfig, AgentHealthConfig, AgentMode, AgentModelConfig,
};
use crate::json::Json;
use crate::named::Named;
use crate::secrets::{SecretInjectionMode, SecretKind};
use crate::text::copy_opt;

verus! {

/// Top-level Neuromancer configuration loaded from TOML.
#[derive(Debug)]
pub struct NeuromancerConfig {
    pub global: GlobalConfig,
    pub otel: OtelConfig,
    pub secrets: SecretsConfig,
    pub memory: MemoryConfig,
    pub models: Named<ModelSlotConfig>,
    pub mcp_servers: Named<McpServerConfig>,
    pub a2a: A2aConfig,
    pub orchestrator: OrchestratorConfig,
    pub agents: Named<AgentTomlConfig>,
    pub triggers: TriggersConfig,
    pub admin_api: AdminApiConfig,
}

#[derive(Debug)]
pub struct GlobalConfig {
    pub instance_id: String,
    pub workspace_dir: String,
    pub data_dir: String,
}

#[derive(Debug, Default)]
pub struct OtelConfig {
    pub service_name: Option<String>,
    pub otlp_endpoint: Option<String>,
}

#[derive(Debug)]
pub struct SecretsConfig {
    pub backend: String,
    pub keyring_service: Option<String>,
    pub require_acl: bool,
    pub entries: Named<SecretEntryConfig>,
}

/// Per-secret entry configuration from TOML.
#[derive(Debug)]
pub struct SecretEntryConfig {
    pub kind: SecretKind,
    /// If set to "pass://vault/item/field", resolved via Proton Pass CLI.
    /// If absent, value is stored locally in encrypted SQLite.
    pub source: Option<String>,
    pub allowed_agents: Vec<String>,
    pub allowed_mcp_servers: Vec<String>,
    pub injection_modes: Vec<SecretInjectionMode>,
    /// Optional TTL for auto-expiry (e.g. "24h", "7d"), parsed via humantime.
    pub ttl: Option<String>,
}

#[derive(Debug)]
pub struct MemoryConfig {
    pub backend: String,
    pub sqlite_path: Option<String>,
}

#[derive(Debug)]
pub struct ModelSlotConfig {
    pub provider: String,
    pub model: String,
    pub base_url: Option<String>,
    pub tool_call_retry_limit: u32,
}

#[derive(Debug)]
pub struct McpServerConfig {
    pub kind: McpServerKind,
    pub command: Option<Vec<String>>,
    pub url: Option<String>,
    pub sandbox: Option<String>,
    pub allowed_roots: Option<Vec<String>>,
    pub env: Named<String>,
}

#[derive(Debug, Clone, Copy, PartialEq, Eq, Structural)]
pub enum McpServerKind {
    ChildProcess,
    Remote,
    Builtin,
}

#[derive(Debug, Default)]
pub struct A2aConfig {
    pub bind_addr: Option<String>,
    pub agent_card_signing: Option<String>,
}

#[derive(Debug)]
pub struct OrchestratorConfig {
    pub model_slot: Option<String>,
    pub capabilities: AgentCapabilities,
    pub system_prompt_path: Option<String>,
    pub max_iterations: u32,
    pub self_improvement: SelfImprovementConfig,
}

#[derive(Debug)]
pub struct SelfImprovementConfig {
    pub enabled: bool,
    pub audit_agent_id: String,
    pub require_admin_message_for_mutations: bool,
    pub verify_before_authorize: bool,
    pub canary_before_promote: bool,
}

/// Per-agent config as it appears in TOML (slightly different shape from runtime AgentConfig).
#[derive(Debug)]
pub struct AgentTomlConfig {
    pub mode: AgentMode,
    pub image: Option<String>,
    pub models: AgentModelConfig,
    pub capabilities: AgentCapabilities,
    pub health: AgentHealthConfig,
    pub system_prompt_path: Option<String>,
    pub max_iterations: u32,
}

#[derive(Debug, Default)]
pub struct TriggersConfig {
    pub discord: Option<DiscordTriggerConfig>,
    pub cron: Vec<CronTriggerConfig>,
}

#[derive(Debug)]
pub struct DiscordTriggerConfig {
    pub enabled: bool,
    pub token_secret: String,
    pub allowed_guilds: Vec<String>,
    pub dm_policy: String,
    pub rate_limit: RateLimitConfig,
    pub channel_routes: Vec<ChannelRouteConfig>,
    pub response: DiscordResponseConfig,
}

#[derive(Debug, Clone, Copy, PartialEq, Eq, Structural)]
pub struct RateLimitConfig {
    pub per_user_per_minute: u32,
    pub per_channel_per_minute: u32,
    pub max_concurrent_tasks: u32,
}

#[derive(Debug)]
pub struct ChannelRouteConfig {
    pub channel_id: String,
    pub agent: String,
    pub thread_mode: String,
    pub activation: String,
}

#[derive(Debug)]
pub struct DiscordResponseConfig {
    pub max_message_length: usize,
    pub overflow: String,
    pub use_embeds: bool,
    pub auto_code_blocks: bool,
}

#[derive(Debug)]
pub struct CronTriggerConfig {
    pub id: String,
    pub description: Option<String>,
    pub enabled: bool,
    pub schedule: String,
    pub task_template: CronTaskTemplate,
    pub execution: CronExecutionConfig,
    pub notification: Option<CronNotificationConfig>,
}

#[derive(Debug)]
pub struct CronTaskTemplate {
    pub agent: String,
    pub instruction: String,
    pub parameters: Json,
}

#[derive(Debug)]
pub struct CronExecutionConfig {
    pub timeout: Option<String>,
    pub idempotency_key: Option<String>,
    pub dedup_window: Option<String>,
    pub on_failure: String,
    pub max_retries: u32,
}

#[derive(Debug)]
pub struct CronNotificationConfig {
    pub on_success: Option<NotificationTarget>,
    pub on_failure: Option<NotificationTarget>,
}

#[derive(Debug)]
pub struct NotificationTarget {
    pub channel: String,
    pub template: String,
}

#[derive(Debug)]
pub struct AdminApiConfig {
    pub bind_addr: String,
    pub enabled: bool,
}

impl Default for SecretsConfig {
    fn default() -> (r: SecretsConfig)
        ensures
            r.backend@ == "local_encrypted"@,
            r.keyring_service is None,
            r.require_acl,
            r.entries@ == Map::<Seq<char>, SecretEntryConfig>::empty(),
    {
        SecretsConfig {
            backend: "local_encrypted".to_owned(),
            keyring_service: None,
            require_acl: true,
            entries: Named::new(),
        }
    }
}

impl Default for MemoryConfig {
    fn default() -> (r: MemoryConfig)
        ensures
            r.backend@ == "sqlite"@,
            r.sqlite_path is None,
    {
        MemoryConfig { backend: "sqlite".to_owned(), sqlite_path: None }
    }
}

/// How often a refused tool call is tried again where nothing is said of it.
pub fn default_tool_call_retry_limit() -> (r: u32)
    ensures
        r == 1,
{
    1
}

/// How often the orchestrator may turn to its model for one answer where nothing is said of it.
pub fn default_orchestrator_max_iterations() -> (r: u32)
    ensures
        r == 30,
{
    30
}

/// How often an agent may turn to its model for one task where nothing is said of it.
pub fn default_max_iterations() -> (r: u32)
    ensures
        r == 20,
{
    20
}

impl Default for SelfImprovementConfig {
    fn default() -> (r: SelfImprovementConfig)
        ensures
            !r.enabled,
            r.audit_agent_id@ == "audit-agent"@,
            r.require_admin_message_for_mutations,
            r.verify_before_authorize,
            r.canary_before_promote,
    {
        SelfImprovementConfig {
            enabled: false,
            audit_agent_id: "audit-agent".to_owned(),
            require_admin_message_for_mutations: true,
            verify_before_authorize: true,
            canary_before_promote: true,
        }
    }
}

impl Default for OrchestratorConfig {
    fn default() -> (r: OrchestratorConfig)
        ensures
            r.model_slot is None,
            r.capabilities@.skills.len() == 0,
            r.capabilities@.mcp_servers.len() == 0,
            r.capabilities@.a2a_peers.len() == 0,
            r.capabilities@.can_request.len() == 0,
            r.capabilities@.secrets.len() == 0,
            r.capabilities@.memory_partitions.len() == 0,
            r.capabilities@.filesystem_roots.len() == 0,
            r.capabilities@.network_policy is None,
            r.system_prompt_path is None,
            r.max_iterations == 30,
            !r.self_improvement.enabled,
            r.self_improvement.audit_agent_id@ == "audit-agent"@,
            r.self_improvement.require_admin_message_for_mutations,
            r.self_improvement.verify_before_authorize,
            r.self_improvement.canary_before_promote,
    {
        OrchestratorConfig {
            model_slot: None,
            capabilities: AgentCapabilities::default(),
            system_prompt_path: None,
            max_iterations: default_orchestrator_max_iterations(),
            self_improvement: SelfImprovementConfig::default(),
        }
    }
}

impl AgentTomlConfig {
    /// The configuration of an agent, with its name and its prompt.
    pub fn to_agent_config(&self, id: &str, system_prompt: String) -> (r: AgentConfig)
        ensures
            r.id@ == id@,
            r.mode == self.mode,
            r.image == self.image,
            r.models == self.models,
            r.capabilities@ == self.capabilities@,
            r.health == self.health,
            r.system_prompt == system_prompt,
            r.max_iterations == self.max_iterations,
    {
        AgentConfig {
            id: id.to_owned(),
            mode: self.mode,
            image: copy_opt(&self.image),
            models: self.models.copy(),
            capabilities: self.capabilities.copy(),
            health: self.health,
            system_prompt,
            max_iterations: self.max_iterations,
        }
    }
}

impl Default for RateLimitConfig {
    fn default() -> (r: RateLimitConfig)
        ensures
            r == (RateLimitConfig {
                per_user_per_minute: 10,
                per_channel_per_minute: 30,
                max_concurrent_tasks: 5,
            }),
    {
        RateLimitConfig {
            per_user_per_minute: 10,
            per_channel_per_minute: 30,
            max_concurrent_tasks: 5,
        }
    }
}

impl Default for DiscordResponseConfig {
    fn default() -> (r: DiscordResponseConfig)
        ensures
            r.max_message_length == 2000,
            r.overflow@ == "split"@,
            r.use_embeds,
            r.auto_code_blocks,
    {
        DiscordResponseConfig {
            max_message_length: 2000,
            overflow: "split".to_owned(),
            use_embeds: true,
            auto_code_blocks: true,
        }
    }
}

impl Default for CronExecutionConfig {
    fn default() -> (r: CronExecutionConfig)
        ensures
            r.timeout is None,
            r.idempotency_key is None,
            r.dedup_window is None,
            r.on_failure@ == "retry"@,
            r.max_retries == 2,
    {
        CronExecutionConfig {
            timeout: None,
            idempotency_key: None,
            dedup_window: None,
            on_failure: "retry".to_owned(),
            max_retries: 2,
        }
    }
}

impl Default for AdminApiConfig {
    fn default() -> (r: AdminApiConfig)
        ensures
            r.bind_addr@ == "127.0.0.1:9090"@,
            r.enabled,
    {
        AdminApiConfig { bind_addr: "127.0.0.1:9090".to_owned(), enabled: true }
    }
}

} // verus!
