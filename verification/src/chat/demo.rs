//! The threads of the demonstration.

use vstd::prelude::*;
use crate::chat::app::{AppView, ChatApp};
use crate::chat::events::{item_views, message, ThreadKind};
use crate::chat::thread::{thread_views, ThreadModel, ThreadView, SYSTEM_THREAD_ID};
use crate::chat::timeline::{
    DelegateView, ItemView, MessageRoleTag, MetaView, TimelineItem, TimelineRenderMeta, ToolView,
};
use crate::json::{number, number_tree, text, Json, JsonTree};
use crate::text::{cat, cat3, decimal, to_decimal};

verus! {

/// The thread of the planner.
pub const PLANNER_THREAD_ID: &'static str = "thread-planner-abc12345";

/// The thread of the researcher.
pub const RESEARCHER_THREAD_ID: &'static str = "thread-researcher-def67890";

pub const ORCHESTRATOR_PROMPT: &'static str = "You are System0, the orchestrator agent for Neuromancer.\n\
    Your role is to mediate user/admin turns, enforce policy, and delegate to sub-agents.\n\
    Available tools: list_agents, read_config, delegate_to_agent, propose_config_change,\n\
    authorize_proposal, apply_authorized_proposal, modify_skill, score_skills,\n\
    analyze_failures, adapt_routing, record_lesson, run_redteam_eval, list_audit_records.\n\
    \n\
    Security constraints:\n\
    - All mutating lifecycle actions require admin privilege (TriggerType::Admin).\n\
    - Proposals follow: created -> verified -> audited -> authorized -> applied -> \
    promoted.\n\
    - High/critical risk proposals default to blocked unless explicitly forced.\n\
    - ExecutionGuard hooks fail closed with blocked_missing_sandbox.";

pub const AUDIT_REQUEST: &'static str = "I need a comprehensive audit of the current configuration. Please read the config,\n\
    check for any security concerns, propose any necessary changes, and coordinate with\n\
    the planner agent to develop a remediation timeline.\n\
    \n\
    Specifically, I want to:\n\
    1. Review all model provider settings and verify API key environment variables.\n\
    2. Check the self-improvement configuration thresholds.\n\
    3. Ensure the MCP server pool is correctly sized.\n\
    4. Validate that the orchestrator capabilities allowlist matches current policy.\n\
    5. Verify secret store ACLs are not overly permissive.";

pub const AUDIT_SUMMARY: &'static str = "Configuration audit complete. Here is a summary of findings:\n\
    \n\
    1. Model providers: Both openai and groq are configured correctly with expected\n\
    API key env vars (OPENAI_API_KEY, GROQ_API_KEY).\n\
    2. Self-improvement: Threshold was 0.75, proposed change to 0.85 has been authorized.\n\
    The planner agent has created a staged rollout plan.\n\
    3. MCP server pool: Current size of 3 is adequate for current load, but the planner\n\
    recommends a capacity review if agent count exceeds 5.\n\
    4. Orchestrator capabilities: Allowlist matches policy. No unauthorized tools \
    detected.\n\
    5. Secret store ACLs: One entry has an overly broad ACL (sensitive_payload visible to\n\
    all agents). Recommend restricting to system0 only.\n\
    \n\
    The planner agent has produced a 3-phase remediation timeline. Use Enter on the\n\
    delegate card above to review the full plan in the planner's thread.";

pub const AGENT_LIST: &'static str = "Found 3 agents: planner (running), researcher (completed), auditor (idle).";

pub const PLANNER_INSTRUCTION: &'static str = "Create a remediation timeline for the configuration audit findings. Address the \
    self-improvement threshold change and MCP pool sizing.";

pub const PLANNER_SUMMARY: &'static str = "Planner produced a 3-phase remediation plan: immediate config fixes, staged rollout of \
    threshold changes, and MCP pool capacity review.";

pub const RESEARCHER_INSTRUCTION: &'static str = "Research best practices for MCP server pool sizing under high concurrency.";

pub const RESEARCHER_ERROR: &'static str = "Agent exceeded max iterations (25) without producing a final answer.";

pub const TURN_STATE: &'static str = "Run state changed: completed | summary: Config audit turn finished with 1 error in \
    external_webhook and 1 failed delegation.";

pub const CLOSING_ANSWER: &'static str = "Acknowledged. The authorized proposal (prop-demo-001) will be applied in the next \
    maintenance window.";

pub const PLANNER_FINDINGS: &'static str = "Analyzing findings. The audit identified 3 areas requiring action:\n\
    - Self-improvement threshold: change from 0.75 to 0.85\n\
    - MCP pool capacity: adequate now, review if agents > 5\n\
    - Secret store ACL: restrict sensitive_payload to system0 only";

pub const PLANNER_LESSON: &'static str = "MCP pool sizing should scale linearly with active agent count";

pub const PLANNER_PLAN: &'static str = "Remediation plan:\n\
    Phase 1 (immediate): Apply authorized config proposal prop-demo-001.\n\
    Phase 2 (this week): Restrict secret store ACL for sensitive_payload.\n\
    Phase 3 (next sprint): Implement automatic MCP pool scaling based on agent count.\n\
    \n\
    All changes should go through the proposal lifecycle for audit trail.";

pub const PLANNER_STATE: &'static str = "Run state changed: completed | summary: Planner produced 3-phase remediation plan.";

pub const RESEARCHER_NOTES: &'static str = "Beginning research on MCP pool sizing. Initial findings suggest that pool size should \
    be proportional to...";

pub const RESEARCHER_STATE: &'static str = "Run state changed: failed | error: Agent exceeded max iterations (25) without producing \
    a final answer.";

pub const SAVED_NOTE: &'static str = "Saved sub-agent thread. Press Enter to resurrect and continue.";

pub const WEBHOOK_ERROR: &'static str = "Connection refused: https://hooks.example.com/notify";

pub const SKILL_REASON: &'static str = "Skill config_audit updated to run on weekly schedule.";

pub const RESEARCHER_TASK: &'static str = "Research best practices for MCP server pool sizing...";

pub const FIRST_REQUEST: &'static str = "List all available agents and their current status.";

pub const CLOSING_REQUEST: &'static str = "Thanks. Apply the authorized proposal when ready.";

/// The minute as two digits or more.
pub open spec fn two_digits(minute: nat) -> Seq<char> {
    if minute < 10 {
        "0"@ + decimal(minute)
    } else {
        decimal(minute)
    }
}

/// What is known of an event in some minute after ten o'clock.
pub open spec fn stamp(seq: u64, minute: nat) -> Option<MetaView> {
    Some(
        MetaView {
            seq: Some(seq),
            ts: Some("2026-02-15T10:"@ + two_digits(minute) + ":00Z"@),
            redaction_applied: Some(false),
        },
    )
}

/// What is known of an event in some minute after ten o'clock.
pub fn meta(seq: u64, minute: u32) -> (r: Option<TimelineRenderMeta>)
    ensures
        crate::chat::timeline::meta_view(r) == stamp(seq, minute as nat),
{
    let digits = to_decimal(minute as u64);
    let shown = if minute < 10 {
        cat("0", digits.as_str())
    } else {
        digits
    };
    Some(
        TimelineRenderMeta {
            seq: Some(seq),
            ts: Some(cat3("2026-02-15T10:", shown.as_str(), ":00Z")),
            redaction_applied: Some(false),
        },
    )
}

/// The cards of the orchestrator's thread.
pub open spec fn system0_cards() -> Seq<ItemView> {
    seq![
        message(MessageRoleTag::System, ORCHESTRATOR_PROMPT@),
        message(MessageRoleTag::User, FIRST_REQUEST@),
        ItemView::Tool(
            ToolView {
                call_id: "call-demo-001"@,
                tool_id: "list_agents"@,
                status: "success"@,
                arguments: JsonTree::no_fields(),
                output: JsonTree::no_fields()
                    .with(
                        "agents"@,
                        JsonTree::no_items()
                            .and(
                                JsonTree::no_fields()
                                    .with("agent_id"@, JsonTree::Text("planner"@))
                                    .with("run_id"@, JsonTree::Text("run-planner-001"@))
                                    .with("state"@, JsonTree::Text("running"@))
                                    .with("thread_id"@, JsonTree::Text(PLANNER_THREAD_ID@)),
                            )
                            .and(
                                JsonTree::no_fields()
                                    .with("agent_id"@, JsonTree::Text("researcher"@))
                                    .with("run_id"@, JsonTree::Text("run-researcher-001"@))
                                    .with("state"@, JsonTree::Text("completed"@))
                                    .with(
                                        "thread_id"@,
                                        JsonTree::Text(RESEARCHER_THREAD_ID@),
                                    ),
                            )
                            .and(
                                JsonTree::no_fields()
                                    .with("agent_id"@, JsonTree::Text("auditor"@))
                                    .with("run_id"@, JsonTree::Null)
                                    .with("state"@, JsonTree::Text("idle"@))
                                    .with(
                                        "thread_id"@,
                                        JsonTree::Text("thread-auditor-ghi34567"@),
                                    ),
                            ),
                    ),
                meta: stamp(1, 0),
                expanded: false,
            },
        ),
        message(MessageRoleTag::Assistant, AGENT_LIST@),
        message(MessageRoleTag::User, AUDIT_REQUEST@),
        ItemView::Tool(
            ToolView {
                call_id: "call-demo-002"@,
                tool_id: "read_config"@,
                status: "success"@,
                arguments: JsonTree::no_fields(),
                output: JsonTree::no_fields()
                    .with(
                        "admin_api"@,
                        JsonTree::no_fields()
                            .with("bind"@, JsonTree::Text("127.0.0.1:9090"@)),
                    )
                    .with(
                        "global"@,
                        JsonTree::no_fields().with("log_level"@, JsonTree::Text("info"@)),
                    )
                    .with(
                        "mcp_servers"@,
                        JsonTree::no_fields().with("pool_size"@, number_tree(3)),
                    )
                    .with(
                        "models"@,
                        JsonTree::no_fields()
                            .with(
                                "executor"@,
                                JsonTree::no_fields()
                                    .with("model"@, JsonTree::Text("gpt-4"@))
                                    .with("provider"@, JsonTree::Text("openai"@)),
                            )
                            .with(
                                "fast"@,
                                JsonTree::no_fields()
                                    .with("model"@, JsonTree::Text("llama-70b"@))
                                    .with("provider"@, JsonTree::Text("groq"@)),
                            ),
                    )
                    .with(
                        "orchestrator"@,
                        JsonTree::no_fields()
                            .with("max_iterations"@, number_tree(25))
                            .with("model_slot"@, JsonTree::Text("executor"@))
                            .with(
                                "self_improvement"@,
                                JsonTree::no_fields().with("enabled"@, JsonTree::Bool(true)),
                            ),
                    )
                    .with(
                        "secrets"@,
                        JsonTree::no_fields()
                            .with("sensitive_payload"@, JsonTree::Text("REDACTED"@)),
                    ),
                meta: stamp(2, 1),
                expanded: false,
            },
        ),
        ItemView::Tool(
            ToolView {
                call_id: "call-demo-003"@,
                tool_id: "propose_config_change"@,
                status: "success"@,
                arguments: JsonTree::no_fields()
                    .with(
                        "changes"@,
                        JsonTree::no_fields()
                            .with("audit_threshold"@, JsonTree::Number("0.85"@)),
                    )
                    .with("section"@, JsonTree::Text("orchestrator.self_improvement"@)),
                output: JsonTree::no_fields()
                    .with("proposal_id"@, JsonTree::Text("prop-demo-001"@))
                    .with("state"@, JsonTree::Text("verification_passed"@)),
                meta: stamp(3, 2),
                expanded: false,
            },
        ),
        ItemView::Tool(
            ToolView {
                call_id: "call-demo-004"@,
                tool_id: "authorize_proposal"@,
                status: "success"@,
                arguments: JsonTree::no_fields()
                    .with("proposal_id"@, JsonTree::Text("prop-demo-001"@)),
                output: JsonTree::no_fields()
                    .with("proposal_id"@, JsonTree::Text("prop-demo-001"@))
                    .with("state"@, JsonTree::Text("authorized"@)),
                meta: stamp(4, 3),
                expanded: false,
            },
        ),
        ItemView::Delegate(
            DelegateView {
                call_id: "call-demo-005"@,
                status: "success"@,
                target_agent: Some("planner"@),
                thread_id: Some(PLANNER_THREAD_ID@),
                run_id: Some("run-planner-001"@),
                instruction: Some(PLANNER_INSTRUCTION@),
                summary: Some(PLANNER_SUMMARY@),
                error: None,
                arguments: JsonTree::no_fields()
                    .with("agent_id"@, JsonTree::Text("planner"@))
                    .with(
                        "instruction"@,
                        JsonTree::Text("Create a remediation timeline..."@),
                    ),
                output: JsonTree::no_fields()
                    .with("run_id"@, JsonTree::Text("run-planner-001"@))
                    .with("summary"@, JsonTree::Text("3-phase remediation plan completed"@))
                    .with("thread_id"@, JsonTree::Text(PLANNER_THREAD_ID@)),
                meta: stamp(5, 4),
                expanded: false,
            },
        ),
        message(MessageRoleTag::Assistant, AUDIT_SUMMARY@),
        ItemView::Tool(
            ToolView {
                call_id: "call-demo-006"@,
                tool_id: "modify_skill"@,
                status: "success"@,
                arguments: JsonTree::no_fields()
                    .with(
                        "changes"@,
                        JsonTree::no_fields().with("schedule"@, JsonTree::Text("weekly"@)),
                    )
                    .with("skill_id"@, JsonTree::Text("config_audit"@)),
                output: JsonTree::no_fields()
                    .with("reason"@, JsonTree::Text(SKILL_REASON@))
                    .with("status"@, JsonTree::Text("applied"@)),
                meta: stamp(6, 5),
                expanded: false,
            },
        ),
        ItemView::Tool(
            ToolView {
                call_id: "call-demo-007"@,
                tool_id: "score_skills"@,
                status: "success"@,
                arguments: JsonTree::no_fields(),
                output: JsonTree::no_fields()
                    .with(
                        "scores"@,
                        JsonTree::no_items()
                            .and(
                                JsonTree::no_fields()
                                    .with("score"@, JsonTree::Number("0.92"@))
                                    .with("skill"@, JsonTree::Text("config_audit"@)),
                            )
                            .and(
                                JsonTree::no_fields()
                                    .with("score"@, JsonTree::Number("0.88"@))
                                    .with("skill"@, JsonTree::Text("delegation"@)),
                            )
                            .and(
                                JsonTree::no_fields()
                                    .with("score"@, JsonTree::Number("0.71"@))
                                    .with("skill"@, JsonTree::Text("secret_rotation"@)),
                            ),
                    ),
                meta: stamp(7, 6),
                expanded: false,
            },
        ),
        ItemView::Tool(
            ToolView {
                call_id: "call-demo-008"@,
                tool_id: "external_webhook"@,
                status: "error"@,
                arguments: JsonTree::no_fields()
                    .with(
                        "payload"@,
                        JsonTree::no_fields()
                            .with("event"@, JsonTree::Text("audit_complete"@)),
                    )
                    .with("url"@, JsonTree::Text("https://hooks.example.com/notify"@)),
                output: JsonTree::no_fields().with("error"@, JsonTree::Text(WEBHOOK_ERROR@)),
                meta: stamp(8, 7),
                expanded: false,
            },
        ),
        ItemView::Delegate(
            DelegateView {
                call_id: "call-demo-009"@,
                status: "error"@,
                target_agent: Some("researcher"@),
                thread_id: Some(RESEARCHER_THREAD_ID@),
                run_id: Some("run-researcher-001"@),
                instruction: Some(RESEARCHER_INSTRUCTION@),
                summary: None,
                error: Some(RESEARCHER_ERROR@),
                arguments: JsonTree::no_fields()
                    .with("agent_id"@, JsonTree::Text("researcher"@))
                    .with("instruction"@, JsonTree::Text(RESEARCHER_TASK@)),
                output: JsonTree::no_fields()
                    .with("error"@, JsonTree::Text(RESEARCHER_ERROR@))
                    .with("run_id"@, JsonTree::Text("run-researcher-001"@))
                    .with("thread_id"@, JsonTree::Text(RESEARCHER_THREAD_ID@)),
                meta: stamp(9, 8),
                expanded: false,
            },
        ),
        message(MessageRoleTag::System, TURN_STATE@),
        message(MessageRoleTag::User, CLOSING_REQUEST@),
        message(MessageRoleTag::Assistant, CLOSING_ANSWER@),
    ]
}

/// The cards of the planner's thread.
pub open spec fn planner_cards() -> Seq<ItemView> {
    seq![
        message(MessageRoleTag::System, "Thread created for sub-agent 'planner'"@),
        message(MessageRoleTag::User, PLANNER_INSTRUCTION@),
        message(MessageRoleTag::Assistant, PLANNER_FINDINGS@),
        ItemView::Tool(
            ToolView {
                call_id: "call-planner-001"@,
                tool_id: "record_lesson"@,
                status: "success"@,
                arguments: JsonTree::no_fields()
                    .with("lesson"@, JsonTree::Text(PLANNER_LESSON@)),
                output: JsonTree::no_fields().with("recorded"@, JsonTree::Bool(true)),
                meta: stamp(10, 10),
                expanded: false,
            },
        ),
        message(MessageRoleTag::Assistant, PLANNER_PLAN@),
        message(MessageRoleTag::System, PLANNER_STATE@),
    ]
}

/// The cards of the researcher's thread.
pub open spec fn researcher_cards() -> Seq<ItemView> {
    seq![
        message(MessageRoleTag::System, SAVED_NOTE@),
        message(MessageRoleTag::System, "Thread created for sub-agent 'researcher'"@),
        message(MessageRoleTag::User, RESEARCHER_INSTRUCTION@),
        message(MessageRoleTag::Assistant, RESEARCHER_NOTES@),
        message(MessageRoleTag::System, RESEARCHER_STATE@),
    ]
}

/// The orchestrator's thread.
pub open spec fn system0_thread() -> ThreadModel {
    ThreadModel {
        id: SYSTEM_THREAD_ID@,
        title: "System0"@,
        kind: ThreadKind::System,
        agent_id: Some(SYSTEM_THREAD_ID@),
        state: "active"@,
        active: true,
        resurrected: false,
        read_only: false,
        items: system0_cards(),
    }
}

/// The planner's thread, which is over.
pub open spec fn planner_thread() -> ThreadModel {
    ThreadModel {
        id: PLANNER_THREAD_ID@,
        title: "planner (thread-p)"@,
        kind: ThreadKind::Subagent,
        agent_id: Some("planner"@),
        state: "completed"@,
        active: false,
        resurrected: false,
        read_only: false,
        items: planner_cards(),
    }
}

/// The researcher's thread, which failed and can only be read.
pub open spec fn researcher_thread() -> ThreadModel {
    ThreadModel {
        id: RESEARCHER_THREAD_ID@,
        title: "researcher (thread-r)"@,
        kind: ThreadKind::Subagent,
        agent_id: Some("researcher"@),
        state: "failed"@,
        active: false,
        resurrected: false,
        read_only: true,
        items: researcher_cards(),
    }
}

/// The orchestrator's thread.
pub fn build_system0_thread() -> (r: ThreadView)
    ensures
        r@ == system0_thread(),
{
    let items: Vec<TimelineItem> = vec![
        TimelineItem::text(MessageRoleTag::System, ORCHESTRATOR_PROMPT.to_owned()),
        TimelineItem::text(MessageRoleTag::User, FIRST_REQUEST.to_owned()),
        TimelineItem::ToolInvocation {
            call_id: "call-demo-001".to_owned(),
            tool_id: "list_agents".to_owned(),
            status: "success".to_owned(),
            arguments: Json::no_fields(),
            output: Json::no_fields()
                .with(
                    "agents",
                    Json::no_items()
                        .and(
                            Json::no_fields()
                                .with("agent_id", text("planner"))
                                .with("run_id", text("run-planner-001"))
                                .with("state", text("running"))
                                .with("thread_id", text(PLANNER_THREAD_ID)),
                        )
                        .and(
                            Json::no_fields()
                                .with("agent_id", text("researcher"))
                                .with("run_id", text("run-researcher-001"))
                                .with("state", text("completed"))
                                .with("thread_id", text(RESEARCHER_THREAD_ID)),
                        )
                        .and(
                            Json::no_fields()
                                .with("agent_id", text("auditor"))
                                .with("run_id", Json::Null)
                                .with("state", text("idle"))
                                .with("thread_id", text("thread-auditor-ghi34567")),
                        ),
                ),
            meta: meta(1, 0),
            expanded: false,
        },
        TimelineItem::text(MessageRoleTag::Assistant, AGENT_LIST.to_owned()),
        TimelineItem::text(MessageRoleTag::User, AUDIT_REQUEST.to_owned()),
        TimelineItem::ToolInvocation {
            call_id: "call-demo-002".to_owned(),
            tool_id: "read_config".to_owned(),
            status: "success".to_owned(),
            arguments: Json::no_fields(),
            output: Json::no_fields()
                .with("admin_api", Json::no_fields().with("bind", text("127.0.0.1:9090")))
                .with("global", Json::no_fields().with("log_level", text("info")))
                .with("mcp_servers", Json::no_fields().with("pool_size", number(3)))
                .with(
                    "models",
                    Json::no_fields()
                        .with(
                            "executor",
                            Json::no_fields()
                                .with("model", text("gpt-4"))
                                .with("provider", text("openai")),
                        )
                        .with(
                            "fast",
                            Json::no_fields()
                                .with("model", text("llama-70b"))
                                .with("provider", text("groq")),
                        ),
                )
                .with(
                    "orchestrator",
                    Json::no_fields()
                        .with("max_iterations", number(25))
                        .with("model_slot", text("executor"))
                        .with(
                            "self_improvement",
                            Json::no_fields().with("enabled", Json::Bool(true)),
                        ),
                )
                .with(
                    "secrets",
                    Json::no_fields().with("sensitive_payload", text("REDACTED")),
                ),
            meta: meta(2, 1),
            expanded: false,
        },
        TimelineItem::ToolInvocation {
            call_id: "call-demo-003".to_owned(),
            tool_id: "propose_config_change".to_owned(),
            status: "success".to_owned(),
            arguments: Json::no_fields()
                .with(
                    "changes",
                    Json::no_fields()
                        .with("audit_threshold", Json::Number("0.85".to_owned())),
                )
                .with("section", text("orchestrator.self_improvement")),
            output: Json::no_fields()
                .with("proposal_id", text("prop-demo-001"))
                .with("state", text("verification_passed")),
            meta: meta(3, 2),
            expanded: false,
        },
        TimelineItem::ToolInvocation {
            call_id: "call-demo-004".to_owned(),
            tool_id: "authorize_proposal".to_owned(),
            status: "success".to_owned(),
            arguments: Json::no_fields().with("proposal_id", text("prop-demo-001")),
            output: Json::no_fields()
                .with("proposal_id", text("prop-demo-001"))
                .with("state", text("authorized")),
            meta: meta(4, 3),
            expanded: false,
        },
        TimelineItem::DelegateInvocation {
            call_id: "call-demo-005".to_owned(),
            status: "success".to_owned(),
            target_agent: Some("planner".to_owned()),
            thread_id: Some(PLANNER_THREAD_ID.to_owned()),
            run_id: Some("run-planner-001".to_owned()),
            instruction: Some(PLANNER_INSTRUCTION.to_owned()),
            summary: Some(PLANNER_SUMMARY.to_owned()),
            error: None,
            arguments: Json::no_fields()
                .with("agent_id", text("planner"))
                .with("instruction", text("Create a remediation timeline...")),
            output: Json::no_fields()
                .with("run_id", text("run-planner-001"))
                .with("summary", text("3-phase remediation plan completed"))
                .with("thread_id", text(PLANNER_THREAD_ID)),
            meta: meta(5, 4),
            expanded: false,
        },
        TimelineItem::text(MessageRoleTag::Assistant, AUDIT_SUMMARY.to_owned()),
        TimelineItem::ToolInvocation {
            call_id: "call-demo-006".to_owned(),
            tool_id: "modify_skill".to_owned(),
            status: "success".to_owned(),
            arguments: Json::no_fields()
                .with("changes", Json::no_fields().with("schedule", text("weekly")))
                .with("skill_id", text("config_audit")),
            output: Json::no_fields()
                .with("reason", text(SKILL_REASON))
                .with("status", text("applied")),
            meta: meta(6, 5),
            expanded: false,
        },
        TimelineItem::ToolInvocation {
            call_id: "call-demo-007".to_owned(),
            tool_id: "score_skills".to_owned(),
            status: "success".to_owned(),
            arguments: Json::no_fields(),
            output: Json::no_fields()
                .with(
                    "scores",
                    Json::no_items()
                        .and(
                            Json::no_fields()
                                .with("score", Json::Number("0.92".to_owned()))
                                .with("skill", text("config_audit")),
                        )
                        .and(
                            Json::no_fields()
                                .with("score", Json::Number("0.88".to_owned()))
                                .with("skill", text("delegation")),
                        )
                        .and(
                            Json::no_fields()
                                .with("score", Json::Number("0.71".to_owned()))
                                .with("skill", text("secret_rotation")),
                        ),
                ),
            meta: meta(7, 6),
            expanded: false,
        },
        TimelineItem::ToolInvocation {
            call_id: "call-demo-008".to_owned(),
            tool_id: "external_webhook".to_owned(),
            status: "error".to_owned(),
            arguments: Json::no_fields()
                .with("payload", Json::no_fields().with("event", text("audit_complete")))
                .with("url", text("https://hooks.example.com/notify")),
            output: Json::no_fields().with("error", text(WEBHOOK_ERROR)),
            meta: meta(8, 7),
            expanded: false,
        },
        TimelineItem::DelegateInvocation {
            call_id: "call-demo-009".to_owned(),
            status: "error".to_owned(),
            target_agent: Some("researcher".to_owned()),
            thread_id: Some(RESEARCHER_THREAD_ID.to_owned()),
            run_id: Some("run-researcher-001".to_owned()),
            instruction: Some(RESEARCHER_INSTRUCTION.to_owned()),
            summary: None,
            error: Some(RESEARCHER_ERROR.to_owned()),
            arguments: Json::no_fields()
                .with("agent_id", text("researcher"))
                .with("instruction", text(RESEARCHER_TASK)),
            output: Json::no_fields()
                .with("error", text(RESEARCHER_ERROR))
                .with("run_id", text("run-researcher-001"))
                .with("thread_id", text(RESEARCHER_THREAD_ID)),
            meta: meta(9, 8),
            expanded: false,
        },
        TimelineItem::text(MessageRoleTag::System, TURN_STATE.to_owned()),
        TimelineItem::text(MessageRoleTag::User, CLOSING_REQUEST.to_owned()),
        TimelineItem::text(MessageRoleTag::Assistant, CLOSING_ANSWER.to_owned()),
    ];
    assert(item_views(items@) =~= system0_cards());
    ThreadView {
        id: SYSTEM_THREAD_ID.to_owned(),
        title: "System0".to_owned(),
        kind: ThreadKind::System,
        agent_id: Some(SYSTEM_THREAD_ID.to_owned()),
        state: "active".to_owned(),
        active: true,
        resurrected: false,
        read_only: false,
        items,
    }
}

/// The planner's thread.
pub fn build_planner_thread() -> (r: ThreadView)
    ensures
        r@ == planner_thread(),
{
    let items: Vec<TimelineItem> = vec![
        TimelineItem::text(
            MessageRoleTag::System,
            "Thread created for sub-agent 'planner'".to_owned(),
        ),
        TimelineItem::text(MessageRoleTag::User, PLANNER_INSTRUCTION.to_owned()),
        TimelineItem::text(MessageRoleTag::Assistant, PLANNER_FINDINGS.to_owned()),
        TimelineItem::ToolInvocation {
            call_id: "call-planner-001".to_owned(),
            tool_id: "record_lesson".to_owned(),
            status: "success".to_owned(),
            arguments: Json::no_fields().with("lesson", text(PLANNER_LESSON)),
            output: Json::no_fields().with("recorded", Json::Bool(true)),
            meta: meta(10, 10),
            expanded: false,
        },
        TimelineItem::text(MessageRoleTag::Assistant, PLANNER_PLAN.to_owned()),
        TimelineItem::text(MessageRoleTag::System, PLANNER_STATE.to_owned()),
    ];
    assert(item_views(items@) =~= planner_cards());
    ThreadView {
        id: PLANNER_THREAD_ID.to_owned(),
        title: "planner (thread-p)".to_owned(),
        kind: ThreadKind::Subagent,
        agent_id: Some("planner".to_owned()),
        state: "completed".to_owned(),
        active: false,
        resurrected: false,
        read_only: false,
        items,
    }
}

/// The researcher's thread.
pub fn build_researcher_thread() -> (r: ThreadView)
    ensures
        r@ == researcher_thread(),
{
    let items: Vec<TimelineItem> = vec![
        TimelineItem::text(MessageRoleTag::System, SAVED_NOTE.to_owned()),
        TimelineItem::text(
            MessageRoleTag::System,
            "Thread created for sub-agent 'researcher'".to_owned(),
        ),
        TimelineItem::text(MessageRoleTag::User, RESEARCHER_INSTRUCTION.to_owned()),
        TimelineItem::text(MessageRoleTag::Assistant, RESEARCHER_NOTES.to_owned()),
        TimelineItem::text(MessageRoleTag::System, RESEARCHER_STATE.to_owned()),
    ];
    assert(item_views(items@) =~= researcher_cards());
    ThreadView {
        id: RESEARCHER_THREAD_ID.to_owned(),
        title: "researcher (thread-r)".to_owned(),
        kind: ThreadKind::Subagent,
        agent_id: Some("researcher".to_owned()),
        state: "failed".to_owned(),
        active: false,
        resurrected: false,
        read_only: true,
        items,
    }
}

/// The threads of the demonstration, and which of them is on the screen at first.
pub fn build_demo_threads() -> (r: (Vec<ThreadView>, usize))
    ensures
        thread_views(r.0@) == seq![system0_thread(), planner_thread(), researcher_thread()],
        r.1 == 0,
{
    let threads: Vec<ThreadView> = vec![
        build_system0_thread(),
        build_planner_thread(),
        build_researcher_thread(),
    ];
    assert(thread_views(threads@) =~= seq![
        system0_thread(),
        planner_thread(),
        researcher_thread(),
    ]);
    (threads, 0)
}

impl ChatApp {
    /// Starts the demonstration, with the last card of the orchestrator's thread selected.
    pub fn bootstrap_demo(&mut self)
        requires
            old(self).wf(),
        ensures
            final(self).wf(),
            final(self)@ == (AppView {
                threads: seq![system0_thread(), planner_thread(), researcher_thread()],
                active_thread: 0,
                sidebar_selected: 0,
                selected: old(self)@.selected.insert(SYSTEM_THREAD_ID@, 16),
                ..old(self)@
            }).say("DEMO MODE"@),
    {
        let (threads, active) = build_demo_threads();
        let ghost shown = thread_views(threads@);
        assert(shown.len() == threads@.len());
        assert(shown[0] == threads@[0]@);
        assert(shown[0].items.len() == threads@[0].items@.len());
        let last: usize = threads[active].items.len() - 1;
        let id = threads[active].id.clone();
        self.threads = threads;
        self.active_thread = active;
        self.sidebar_selected = active;
        self.selected_item_by_thread.insert(id, last);
        self.status = Some("DEMO MODE".to_owned());
    }
}

/// The cards of the demonstration are stamped with their number and the minute, in two digits.
pub proof fn demonstrations_are_stamped(seq: u64, minute: nat)
    ensures
        stamp(seq, minute) matches Some(m) && m.seq == Some(seq) && m.redaction_applied == Some(false)
            && (minute < 10 ==> m.ts == Some("2026-02-15T10:"@ + ("0"@ + decimal(minute)) + ":00Z"@)) && (
        minute >= 10 ==> m.ts == Some("2026-02-15T10:"@ + decimal(minute) + ":00Z"@)),
{
}

} // verus!
