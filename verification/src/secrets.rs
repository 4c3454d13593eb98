//! Secrets: of which kind they are, who may use them and how they reach a tool.

use vstd::prelude::*;
use crate::agent::AgentId;
use crate::time::Timestamp;

verus! {

pub type SecretRef = String;

/// Classification of secret content.
#[derive(Debug, Clone, Copy, Default, PartialEq, Eq, Structural)]
pub enum SecretKind {
    /// API keys, bearer tokens, passwords.
    #[default]
    Credential,
    /// Browser session cookies/tokens. Supports agent write-back and TTL expiry.
    BrowserSession,
    /// TLS certificates, SSH keys. Injected via file mount.
    CertificateOrKey,
}

/// How a resolved secret should be injected into a tool execution context.
#[derive(Debug, Clone)]
pub enum SecretInjectionMode {
    /// Primary mode. `{{SECRET_ID}}` tokens in tool call arguments are replaced
    /// with the plaintext value at execution time via `argument_tokens::expand_tokens`.
    HandleReplacement,

    /// Set as an environment variable for an MCP child process.
    /// Discouraged — prefer HandleReplacement.
    EnvVar { name: String },

    /// Set as an HTTP header.
    Header { name: String },

    /// Mount as a file (e.g. TLS certs, SSH keys).
    FileMount { path: String },

    /// Browser cookie jar — value is JSON-serialized cookies.
    /// Injected as a temp file passed to the browser MCP server.
    CookieJar { domain: String },
}

/// What the secret is being used for (audit trail).
#[derive(Debug, Clone)]
pub struct SecretUsage {
    pub tool_id: String,
    pub purpose: String,
}

/// A resolved secret value — opaque to agents, only used by tool execution.
/// The inner value is zeroized on drop.
#[derive(Debug)]
pub struct ResolvedSecret {
    pub value: String,
    pub injection_mode: SecretInjectionMode,
}

/// ACL entry for a secret.
#[derive(Debug, Clone)]
pub struct SecretAcl {
    pub secret_id: String,
    pub kind: SecretKind,
    pub allowed_agents: Vec<AgentId>,
    pub allowed_skills: Vec<String>,
    pub allowed_mcp_servers: Vec<String>,
    pub injection_modes: Vec<SecretInjectionMode>,
    pub expires_at: Option<Timestamp>,
}

} // verus!
