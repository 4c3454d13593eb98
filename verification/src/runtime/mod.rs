//! The state machine of an agent: it turns to its model and runs tools until there is an answer.
//!
//! One run goes so. [`AgentRuntime::begin`] or [`AgentRuntime::begin_turn`] starts it. Then
//! [`AgentRuntime::think`] says what the model is asked; its answer goes to
//! [`AgentRuntime::answer`], its failure to [`AgentRuntime::recover`]. Each tool that the answer
//! asks for is run, and its result goes to [`AgentRuntime::tool_done`]; then the agent thinks
//! again. An answer without tools ends the run with [`AgentRuntime::finish`] or
//! [`AgentRuntime::finish_turn`].

pub mod helpers;
pub mod recovery;

use vstd::prelude::*;
use crate::agent::{AgentConfig, SubAgentReport, TaskExecutionState};
use crate::argument_tokens::{
    braced_pairs, expand_secret_handles, expanded, extract_handle_refs, handles,
    no_tokens_change_nothing,
};
use crate::conversation::{
    lemma_total_add, prompt_views, prompts, total, ConversationContext, PromptMessage,
};
use crate::error::{AgentError, LlmError, NeuromancerError};
use crate::json::{object, JsonTree};
use crate::llm::LlmResponse;
use crate::named::Named;
use crate::secrets::SecretUsage;
use crate::task::{
    answer_artifact, answer_as_artifact, answer_summary, artifact_views, completed_checkpoint,
    completed_tree, copy_artifacts, AgentErrorLike, AgentOutput, OutputView, Task, TaskId,
    TaskOutput, TaskState, TokenUsage,
};
use crate::text::{
    cat, cat3, copy_list, decimal, deduped, in_order, list_has, to_decimal, views,
};
use crate::thread::{tokens_in, ChatMessage, MessageContent, MessageRole, TruncationStrategy};
use crate::time::{Duration, Timestamp};
use crate::tool::{
    call_views, copy_calls, AgentContext, CallView, ToolCall, ToolOutput, ToolResult, ToolSpec,
};
use crate::trigger::TriggerSource;
use crate::runtime::helpers::{available_tool_names, spec_names, summary_of, truncate_summary};
use crate::runtime::recovery::{
    blamed_tool, blamed_tool_name, blames_tool_call, is_invalid_tool_call_reason, recovery_error,
    recovery_message,
};

verus! {

/// What a turn of a conversation comes to.
#[derive(Debug)]
pub struct TurnExecutionResult {
    pub task_id: TaskId,
    pub output: AgentOutput,
}

/// Agent runtime that manages a single task execution through the state machine.
#[derive(Debug)]
pub struct AgentRuntime {
    pub config: AgentConfig,
    pub tool_call_retry_limit: u32,
}

/// One run of an agent, from what it is asked to what it answers.
#[derive(Debug)]
pub struct Run {
    pub task_id: TaskId,
    pub conversation: ConversationContext,
    /// The tools that there are, in order.
    pub tool_names: Vec<String>,
    /// How often the agent turned to its model.
    pub iteration: u32,
    /// How often the model was told that a tool is not there.
    pub recovery_attempts: u32,
    pub usage: TokenUsage,
    /// How many messages there were before what the run is about.
    pub history: usize,
}

/// What an agent does next.
#[derive(Debug)]
pub enum Thought {
    /// It asks its model.
    Ask { messages: Vec<PromptMessage> },
    /// It has asked too often.
    GiveUp { stuck: SubAgentReport, error: AgentError },
}

/// What becomes of a failure of the model.
#[derive(Debug)]
pub enum Recovery {
    /// The model was told, and is asked again.
    Again { report: SubAgentReport },
    /// The run fails.
    Fail { error: NeuromancerError },
}

/// What an answer of the model asks for.
#[derive(Debug)]
pub enum Next {
    /// Tools are to be run.
    Act { calls: Vec<ToolCall> },
    /// There is an answer.
    Done { text: String },
}

/// The agent is stuck because it may not ask its model again.
pub open spec fn is_stuck(report: SubAgentReport, task_id: TaskId, max_iterations: u32) -> bool {
    report matches SubAgentReport::Stuck { task_id: t, thread_id, reason, partial_result } && t
        == task_id && thread_id is None && reason@ == "max iterations ("@ + decimal(
        max_iterations as nat,
    ) + ") exceeded"@ && partial_result is None
}

/// The run failed with an error that is said so.
pub open spec fn is_failed(report: SubAgentReport, task_id: TaskId, said: Seq<char>) -> bool {
    report matches SubAgentReport::Failed { task_id: t, thread_id, error, partial_result } && t
        == task_id && thread_id is None && error@ == said && partial_result is None
}

/// The agent has come so far.
pub open spec fn is_progress(
    report: SubAgentReport,
    task_id: TaskId,
    iteration: u32,
    max_iterations: u32,
) -> bool {
    report matches SubAgentReport::Progress {
        task_id: t,
        thread_id,
        step,
        description,
        artifacts_so_far,
    } && t == task_id && thread_id is None && step == iteration && description@ == "iteration "@
        + decimal(iteration as nat) + "/"@ + decimal(max_iterations as nat)
        && artifacts_so_far@.len() == 0
}

/// A tool failed.
pub open spec fn is_tool_failure(
    report: SubAgentReport,
    task_id: TaskId,
    tool_id: Seq<char>,
    said: Seq<char>,
    eligible: bool,
    count: u32,
) -> bool {
    report matches SubAgentReport::ToolFailure {
        task_id: t,
        thread_id,
        tool_id: tool,
        error,
        retry_eligible,
        attempted_count,
    } && t == task_id && thread_id is None && tool@ == tool_id && error@ == said && retry_eligible
        == eligible && attempted_count == count
}

/// The run is done, with this output.
pub open spec fn is_completed(
    report: SubAgentReport,
    task_id: TaskId,
    output: OutputView,
) -> bool {
    report matches SubAgentReport::Completed { task_id: t, thread_id, artifacts, summary } && t
        == task_id && thread_id is None && artifact_views(artifacts@) == output.artifacts
        && summary@ == output.summary
}

/// The task is done: its state holds the output, and so does its last checkpoint.
pub open spec fn task_is_done(
    before: Task,
    after: Task,
    output: OutputView,
    at: Timestamp,
) -> bool {
    &&& after.state matches TaskState::Completed { output: o }
    &&& o@ == output
    &&& after.checkpoints@.len() == before.checkpoints@.len() + 1
    &&& after.checkpoints@.drop_last() == before.checkpoints@
    &&& after.checkpoints@.last().task_id == before.id
    &&& after.checkpoints@.last().state_data@ == completed_tree(output)
    &&& after.checkpoints@.last().created_at == at
    &&& after == (Task { state: after.state, checkpoints: after.checkpoints, ..before })
}

/// The task failed, for the reason that is said.
pub open spec fn task_has_failed(
    before: Task,
    after: Task,
    code: Seq<char>,
    said: Seq<char>,
) -> bool {
    &&& after.state matches TaskState::Failed { error }
    &&& error.code@ == code
    &&& error.message@ == said
    &&& after == (Task { state: after.state, ..before })
}

/// A run goes on where it was, but for its conversation.
pub open spec fn same_but_conversation(before: Run, after: Run) -> bool {
    &&& after.task_id == before.task_id
    &&& after.tool_names == before.tool_names
    &&& after.iteration == before.iteration
    &&& after.recovery_attempts == before.recovery_attempts
    &&& after.usage == before.usage
    &&& after.history == before.history
    &&& after.conversation.token_budget == before.conversation.token_budget
    &&& after.conversation.truncation_strategy == before.conversation.truncation_strategy
}

/// One message was added to a run's conversation.
pub open spec fn told(before: Run, after: Run) -> bool {
    &&& after.conversation.messages@.len() == before.conversation.messages@.len() + 1
    &&& after.conversation.messages@.drop_last() == before.conversation.messages@
    &&& after.conversation.token_used == before.conversation.token_used
        + after.conversation.messages@.last().token_estimate
}

/// What the tokens that an answer cost add up to with those before.
pub open spec fn usage_after(usage: TokenUsage, response: LlmResponse) -> (int, int, int) {
    (
        usage.prompt_tokens + response.prompt_tokens,
        usage.completion_tokens + response.completion_tokens,
        usage.total_tokens + response.prompt_tokens + response.completion_tokens,
    )
}

/// A conversation of one text of the system and one of the user.
pub open spec fn opens_with(
    conversation: ConversationContext,
    system: Seq<char>,
    user: Seq<char>,
) -> bool {
    &&& conversation.messages@.len() == 2
    &&& conversation.messages@[0].is_text(MessageRole::System, system)
    &&& conversation.messages@[1].is_text(MessageRole::User, user)
    &&& conversation.counted()
}

/// A turn begins: first the prompt of the agent, then what was said before, then what the agent is
/// to know, and last what the user says now. All but the last counts as what was there before, and
/// nothing of it is ever cut.
pub open spec fn opens_turn(
    run: Run,
    system: Seq<char>,
    existing: Seq<ChatMessage>,
    injected: Seq<ChatMessage>,
    user: Seq<char>,
) -> bool {
    &&& run.history == 1 + existing.len() + injected.len()
    &&& run.conversation.messages@.len() == run.history + 1
    &&& run.conversation.messages@[0].is_text(MessageRole::System, system)
    &&& run.conversation.messages@.subrange(1, run.history as int) == existing + injected
    &&& run.conversation.messages@.last().is_text(MessageRole::User, user)
    &&& run.conversation.counted()
    &&& run.conversation.token_budget == u32::MAX
}

/// What the call of a tool that is not there becomes in the conversation.
pub open spec fn is_refused_call(message: ChatMessage, attempt: nat, reason: Seq<char>) -> bool {
    exists|calls: Vec<ToolCall>|
        #[trigger] message.is_tool_calls(calls) && call_views(calls@) == seq![
            CallView {
                id: "invalid-tool-recovery-"@ + decimal(attempt),
                tool_id: blamed_tool(reason),
                arguments: JsonTree::Object(Seq::empty()),
            },
        ]
}

/// What the model is told of the call of a tool that is not there.
pub open spec fn is_refusal(
    message: ChatMessage,
    attempt: nat,
    reason: Seq<char>,
    names: Seq<Seq<char>>,
) -> bool {
    exists|result: ToolResult|
        #[trigger] message.is_tool_result(result) && result.call_id@ == "invalid-tool-recovery-"@
            + decimal(attempt) && (result.output matches ToolOutput::Error(error) && error@
            == recovery_error(reason, names))
}

/// The reason of a failure that the model can be told about.
pub open spec fn recoverable(err: NeuromancerError) -> Option<Seq<char>> {
    match err {
        NeuromancerError::Llm(LlmError::InvalidResponse { reason }) => if blames_tool_call(
            reason@,
        ) {
            Some(reason@)
        } else {
            None
        },
        _ => None,
    }
}

impl AgentRuntime {
    pub fn new(config: AgentConfig, tool_call_retry_limit: u32) -> (r: AgentRuntime)
        ensures
            r.config == config,
            r.tool_call_retry_limit == tool_call_retry_limit,
    {
        AgentRuntime { config, tool_call_retry_limit }
    }

    /// What the agent may use while it works on a task.
    pub fn agent_context(&self, task_id: TaskId) -> (r: AgentContext)
        ensures
            r.agent_id == self.config.id,
            r.task_id == task_id,
            r.allowed_tools@ == self.config.capabilities.skills@,
            r.allowed_mcp_servers@ == self.config.capabilities.mcp_servers@,
            r.allowed_peer_agents@ == self.config.capabilities.a2a_peers@,
            r.allowed_secrets@ == self.config.capabilities.secrets@,
            r.allowed_memory_partitions@ == self.config.capabilities.memory_partitions@,
    {
        AgentContext {
            agent_id: self.config.id.clone(),
            task_id,
            allowed_tools: copy_list(&self.config.capabilities.skills),
            allowed_mcp_servers: copy_list(&self.config.capabilities.mcp_servers),
            allowed_peer_agents: copy_list(&self.config.capabilities.a2a_peers),
            allowed_secrets: copy_list(&self.config.capabilities.secrets),
            allowed_memory_partitions: copy_list(&self.config.capabilities.memory_partitions),
        }
    }

    /// Starts to work on a task: the conversation holds the prompt of the agent and what the task
    /// asks for.
    pub fn begin(&self, task: &mut Task, specs: &Vec<ToolSpec>) -> (r: Run)
        ensures
            *final(task) == (Task {
                state: TaskState::Running {
                    execution_state: TaskExecutionState::Initializing { task_id: old(task).id },
                },
                ..*old(task)
            }),
            r.task_id == old(task).id,
            opens_with(r.conversation, self.config.system_prompt@, old(task).instruction@),
            r.conversation.token_budget == 128_000,
            r.conversation.truncation_strategy == (TruncationStrategy::SlidingWindow {
                keep_last: 50,
            }),
            views(r.tool_names@) == deduped(in_order(spec_names(specs@))),
            r.iteration == 0,
            r.recovery_attempts == 0,
            r.usage == (TokenUsage { prompt_tokens: 0, completion_tokens: 0, total_tokens: 0 }),
            r.history == 1,
    {
        task.state = TaskState::Running {
            execution_state: TaskExecutionState::Initializing { task_id: task.id },
        };
        let mut conversation = ConversationContext::new(
            128_000,
            TruncationStrategy::SlidingWindow { keep_last: 50 },
        );
        let system = ChatMessage::system(self.config.system_prompt.as_str());
        proof {
            lemma_tokens_bound(self.config.system_prompt@);
            lemma_tokens_bound(task.instruction@);
        }
        conversation.add_message(system);
        conversation.add_message(ChatMessage::user(task.instruction.as_str()));
        Run {
            task_id: task.id,
            conversation,
            tool_names: available_tool_names(specs),
            iteration: 0,
            recovery_attempts: 0,
            usage: TokenUsage { prompt_tokens: 0, completion_tokens: 0, total_tokens: 0 },
            history: 1,
        }
    }

    /// Starts a turn of a conversation: first the prompt of the agent, then what was said before,
    /// then what the agent is to know, and last what the user says now.
    pub fn begin_turn(
        &self,
        source: TriggerSource,
        user_message: String,
        task_id: TaskId,
        existing: Vec<ChatMessage>,
        injected: Vec<ChatMessage>,
        specs: &Vec<ToolSpec>,
    ) -> (r: (Task, Run))
        requires
            tokens_in(self.config.system_prompt@) + total(existing@) + total(injected@)
                + tokens_in(user_message@) <= u32::MAX,
            existing@.len() + injected@.len() + 2 <= usize::MAX,
        ensures
            r.0.state == (TaskState::Running {
                execution_state: TaskExecutionState::Initializing { task_id },
            }),
            (Task { state: TaskState::Queued, ..r.0 }).is_new(
                task_id,
                source,
                user_message,
                self.config.id,
            ),
            r.1.task_id == task_id,
            opens_turn(
                r.1,
                self.config.system_prompt@,
                existing@,
                injected@,
                user_message@,
            ),
            r.1.conversation.truncation_strategy == (TruncationStrategy::SlidingWindow {
                keep_last: 50,
            }),
            views(r.1.tool_names@) == deduped(in_order(spec_names(specs@))),
            r.1.iteration == 0,
            r.1.recovery_attempts == 0,
            r.1.usage == (TokenUsage { prompt_tokens: 0, completion_tokens: 0, total_tokens: 0 }),
    {
        let user = ChatMessage::user(user_message.as_str());
        let mut task = Task::new_with_id(task_id, source, user_message, self.config.id.clone());
        task.state = TaskState::Running {
            execution_state: TaskExecutionState::Initializing { task_id },
        };
        let mut conversation = ConversationContext::new(
            u32::MAX,
            TruncationStrategy::SlidingWindow { keep_last: 50 },
        );
        let system = ChatMessage::system(self.config.system_prompt.as_str());
        conversation.add_message(system);
        let ghost head = conversation.messages@;
        proof {
            assert(head =~= seq![system]);
            assert(head.drop_last() =~= Seq::empty());
        }
        add_all(&mut conversation, existing);
        proof {
            lemma_total_add(head, existing@);
        }
        let ghost mid = conversation.messages@;
        add_all(&mut conversation, injected);
        proof {
            lemma_total_add(mid, injected@);
        }
        let history = conversation.messages.len();
        conversation.add_message(user);
        assert(conversation.messages@.subrange(1, history as int) =~= existing@ + injected@);
        let run = Run {
            task_id,
            conversation,
            tool_names: available_tool_names(specs),
            iteration: 0,
            recovery_attempts: 0,
            usage: TokenUsage { prompt_tokens: 0, completion_tokens: 0, total_tokens: 0 },
            history,
        };
        (task, run)
    }

    /// Turns to the model with what of the conversation fits, or gives up when that was done
    /// often enough.
    pub fn think(&self, run: &mut Run) -> (r: Thought)
        requires
            old(run).iteration < u32::MAX,
            old(run).conversation.truncated().1 <= u32::MAX,
        ensures
            old(run).conversation.token_budget == u32::MAX ==> extends(*old(run), *final(run)),
            match r {
                Thought::Ask { messages } => stepped(*self, Step::Ask, *old(run), *final(run))
                    && prompt_views(messages@) == prompts(final(run).conversation.messages@),
                Thought::GiveUp { stuck, error } => stepped(
                    *self,
                    Step::GiveUp,
                    *old(run),
                    *final(run),
                ) && is_stuck(stuck, old(run).task_id, self.config.max_iterations) && error == (
                AgentError::MaxIterationsExceeded {
                    task_id: old(run).task_id,
                    iterations: final(run).iteration,
                }),
            },
    {
        proof {
            let had = run.conversation.messages@;
            assert(had.take(had.len() as int) =~= had);
            if run.conversation.token_budget == u32::MAX {
                turns_keep_everything(run.conversation);
            }
        }
        run.iteration = run.iteration + 1;
        if run.iteration > self.config.max_iterations {
            let reason = cat3(
                "max iterations (",
                to_decimal(self.config.max_iterations as u64).as_str(),
                ") exceeded",
            );
            return Thought::GiveUp {
                stuck: SubAgentReport::Stuck {
                    task_id: run.task_id,
                    thread_id: None,
                    reason,
                    partial_result: None,
                },
                error: AgentError::MaxIterationsExceeded {
                    task_id: run.task_id,
                    iterations: run.iteration,
                },
            };
        }
        run.conversation.maybe_truncate();
        Thought::Ask { messages: run.conversation.to_rig_messages() }
    }

    /// Deals with a failure of the model. Where the model asked for a tool that is not there, it
    /// is told so, as long as it was not told too often.
    pub fn recover(&self, run: &mut Run, err: NeuromancerError) -> (r: Recovery)
        requires
            recoverable(err) matches Some(reason) ==> old(run).recovery_attempts
                < self.tool_call_retry_limit ==> old(run).conversation.token_used + 50 + tokens_in(
                recovery_error(reason, views(old(run).tool_names@)),
            ) <= u32::MAX,
        ensures
            extends(*old(run), *final(run)),
            match (recoverable(err), r) {
                (Some(reason), Recovery::Again { report }) => {
                    let attempt = old(run).recovery_attempts + 1;
                    let names = views(old(run).tool_names@);
                    let had = old(run).conversation.messages@;
                    let has = final(run).conversation.messages@;
                    &&& stepped(*self, Step::Refuse, *old(run), *final(run))
                    &&& is_refused_call(has[had.len() as int], attempt as nat, reason)
                    &&& is_refusal(has.last(), attempt as nat, reason, names)
                    &&& final(run).conversation.token_used == old(run).conversation.token_used + 50
                        + tokens_in(recovery_error(reason, names))
                    &&& is_tool_failure(
                        report,
                        old(run).task_id,
                        blamed_tool(reason),
                        recovery_error(reason, names),
                        attempt < self.tool_call_retry_limit,
                        attempt as u32,
                    )
                },
                (Some(reason), Recovery::Fail { error }) => {
                    &&& old(run).recovery_attempts >= self.tool_call_retry_limit
                    &&& *final(run) == *old(run)
                    &&& error matches NeuromancerError::Llm(LlmError::InvalidResponse { reason: s })
                    &&& s@ == "invalid tool-call recovery exhausted after "@ + decimal(
                        self.tool_call_retry_limit as nat,
                    ) + " retries: "@ + reason
                },
                (None, Recovery::Fail { error }) => *final(run) == *old(run) && error == err,
                (None, Recovery::Again { .. }) => false,
            },
    {
        proof {
            let had = run.conversation.messages@;
            assert(had.take(had.len() as int) =~= had);
        }
        let reason = match &err {
            NeuromancerError::Llm(LlmError::InvalidResponse { reason }) => if
            is_invalid_tool_call_reason(reason.as_str()) {
                reason.clone()
            } else {
                return Recovery::Fail { error: err };
            },
            _ => {
                return Recovery::Fail { error: err };
            },
        };
        if run.recovery_attempts >= self.tool_call_retry_limit {
            let mut text = cat3(
                "invalid tool-call recovery exhausted after ",
                to_decimal(self.tool_call_retry_limit as u64).as_str(),
                " retries: ",
            );
            text.append(reason.as_str());
            return Recovery::Fail {
                error: NeuromancerError::Llm(LlmError::InvalidResponse { reason: text }),
            };
        }
        let ghost had = run.conversation.messages@;
        run.recovery_attempts = run.recovery_attempts + 1;
        let tool_id = blamed_tool_name(reason.as_str());
        let call_id = cat(
            "invalid-tool-recovery-",
            to_decimal(run.recovery_attempts as u64).as_str(),
        );
        let said = recovery_message(reason.as_str(), &run.tool_names);
        let arguments = object(Vec::new());
        let call = ToolCall { id: call_id.clone(), tool_id: tool_id.clone(), arguments };
        let calls = vec![call];
        let asked = ChatMessage::assistant_tool_calls(calls);
        let result = ToolResult { call_id, output: ToolOutput::Error(said.clone()) };
        let answer = ChatMessage::tool_result(result);
        proof {
            assert(arguments@->Object_0 =~= Seq::empty());
            assert(call_views(calls@) =~= seq![call@]);
            assert(asked.is_tool_calls(calls));
            assert(answer.is_tool_result(result));
        }
        run.conversation.add_message(asked);
        run.conversation.add_message(answer);
        assert(run.conversation.messages@.take(had.len() as int) =~= had);
        Recovery::Again {
            report: SubAgentReport::ToolFailure {
                task_id: run.task_id,
                thread_id: None,
                tool_id,
                error: said,
                retry_eligible: run.recovery_attempts < self.tool_call_retry_limit,
                attempted_count: run.recovery_attempts,
            },
        }
    }

    /// Takes an answer of the model. Now and then there is a report on how far the run has come.
    pub fn answer(&self, run: &mut Run, response: LlmResponse) -> (r: (
        Option<SubAgentReport>,
        Next,
    ))
        requires
            usage_after(old(run).usage, response).0 <= u32::MAX,
            usage_after(old(run).usage, response).1 <= u32::MAX,
            usage_after(old(run).usage, response).2 <= u32::MAX,
            response.tool_calls@.len() > 0 ==> old(run).conversation.token_used
                + response.tool_calls@.len() * 50 <= u32::MAX,
        ensures
            (
                final(run).usage.prompt_tokens as int,
                final(run).usage.completion_tokens as int,
                final(run).usage.total_tokens as int,
            ) == usage_after(old(run).usage, response),
            extends(*old(run), *final(run)),
            match r.0 {
                Some(report) => old(run).iteration % 5 == 0 && is_progress(
                    report,
                    old(run).task_id,
                    old(run).iteration,
                    self.config.max_iterations,
                ),
                None => old(run).iteration % 5 != 0,
            },
            match r.1 {
                Next::Act { calls } => {
                    &&& response.tool_calls@.len() > 0
                    &&& call_views(calls@) == call_views(response.tool_calls@)
                    &&& stepped(*self, Step::Act, *old(run), *final(run))
                    &&& final(run).conversation.messages@.last().is_tool_calls(
                        response.tool_calls,
                    )
                },
                Next::Done { text } => {
                    &&& response.tool_calls@.len() == 0
                    &&& stepped(*self, Step::Answer, *old(run), *final(run))
                    &&& text@ == (match response.text {
                        Some(s) => s@,
                        None => Seq::empty(),
                    })
                },
            },
    {
        run.usage = TokenUsage {
            prompt_tokens: run.usage.prompt_tokens + response.prompt_tokens,
            completion_tokens: run.usage.completion_tokens + response.completion_tokens,
            total_tokens: run.usage.total_tokens + response.prompt_tokens
                + response.completion_tokens,
        };
        let progress = if run.iteration % 5 == 0 {
            let mut description = cat3(
                "iteration ",
                to_decimal(run.iteration as u64).as_str(),
                "/",
            );
            description.append(to_decimal(self.config.max_iterations as u64).as_str());
            Some(
                SubAgentReport::Progress {
                    task_id: run.task_id,
                    thread_id: None,
                    step: run.iteration,
                    description,
                    artifacts_so_far: Vec::new(),
                },
            )
        } else {
            None
        };
        if response.has_tool_calls() {
            let calls = copy_calls(&response.tool_calls);
            run.conversation.add_message(ChatMessage::assistant_tool_calls(response.tool_calls));
            proof {
                let had = old(run).conversation.messages@;
                assert(run.conversation.messages@.drop_last() =~= had);
                assert(run.conversation.messages@.take(had.len() as int) =~= had);
            }
            return (progress, Next::Act { calls });
        }
        proof {
            let had = run.conversation.messages@;
            assert(had.take(had.len() as int) =~= had);
        }
        let text = match response.text {
            Some(s) => s,
            None => String::new(),
        };
        (progress, Next::Done { text })
    }

    /// Takes what a tool gave back. There is a report if the tool failed.
    pub fn tool_done(&self, run: &mut Run, call: &ToolCall, result: ToolResult) -> (r: Option<
        SubAgentReport,
    >)
        requires
            old(run).conversation.token_used + crate::thread::result_tokens(result) <= u32::MAX,
        ensures
            extends(*old(run), *final(run)),
            stepped(*self, Step::Hear, *old(run), *final(run)),
            final(run).conversation.messages@.last().is_tool_result(result),
            match (result.output, r) {
                (ToolOutput::Error(error), Some(report)) => is_tool_failure(
                    report,
                    old(run).task_id,
                    call.tool_id@,
                    error@,
                    true,
                    1,
                ),
                (ToolOutput::Success(_), None) => true,
                _ => false,
            },
    {
        let report = match &result.output {
            ToolOutput::Error(error) => Some(
                SubAgentReport::ToolFailure {
                    task_id: run.task_id,
                    thread_id: None,
                    tool_id: call.tool_id.clone(),
                    error: error.clone(),
                    retry_eligible: true,
                    attempted_count: 1,
                },
            ),
            ToolOutput::Success(_) => None,
        };
        run.conversation.add_message(ChatMessage::tool_result(result));
        proof {
            let had = old(run).conversation.messages@;
            assert(run.conversation.messages@.drop_last() =~= had);
            assert(run.conversation.messages@.take(had.len() as int) =~= had);
        }
        report
    }

    /// Ends the work on a task with an answer.
    pub fn finish(
        &self,
        run: &Run,
        task: &mut Task,
        text: String,
        elapsed: Duration,
        at: Timestamp,
    ) -> (r: (TaskOutput, SubAgentReport))
        ensures
            r.0@ == (OutputView {
                artifacts: seq![answer_artifact(text@)],
                summary: summary_of(text@, 200),
                token_usage: run.usage,
                duration: elapsed,
            }),
            task_is_done(*old(task), *final(task), r.0@, at),
            is_completed(r.1, old(task).id, r.0@),
    {
        let summary = truncate_summary(text.as_str(), 200);
        let artifacts = vec![answer_as_artifact(text)];
        assert(artifact_views(artifacts@) =~= seq![answer_artifact(text@)]);
        let output = TaskOutput {
            artifacts,
            summary,
            token_usage: run.usage,
            duration: elapsed,
        };
        let report = close_task(task, &output, at);
        (output, report)
    }

    /// Ends a turn with an answer, which becomes part of the conversation.
    pub fn finish_turn(
        &self,
        run: &mut Run,
        task: &mut Task,
        text: String,
        elapsed: Duration,
        at: Timestamp,
    ) -> (r: (AgentOutput, SubAgentReport))
        requires
            old(run).conversation.token_used + tokens_in(text@) <= u32::MAX,
        ensures
            extends(*old(run), *final(run)),
            stepped(*self, Step::Conclude, *old(run), *final(run)),
            final(run).conversation.messages@.last().is_text(MessageRole::Assistant, text@),
            r.0 == (AgentOutput { message: text, token_usage: old(run).usage, duration: elapsed }),
            task_is_done(
                *old(task),
                *final(task),
                OutputView {
                    artifacts: seq![answer_artifact(text@)],
                    summary: answer_summary(text@),
                    token_usage: old(run).usage,
                    duration: elapsed,
                },
                at,
            ),
            is_completed(
                r.1,
                old(task).id,
                OutputView {
                    artifacts: seq![answer_artifact(text@)],
                    summary: answer_summary(text@),
                    token_usage: old(run).usage,
                    duration: elapsed,
                },
            ),
    {
        run.conversation.add_message(ChatMessage::assistant_text(text.as_str()));
        proof {
            let had = old(run).conversation.messages@;
            assert(run.conversation.messages@.drop_last() =~= had);
            assert(run.conversation.messages@.take(had.len() as int) =~= had);
        }
        let output = AgentOutput { message: text, token_usage: run.usage, duration: elapsed };
        let task_output = output.copy().into_task_output();
        let report = close_task(task, &task_output, at);
        (output, report)
    }

    /// Ends the work on a task that took too many steps.
    pub fn give_up(&self, task: &mut Task, error: &AgentError) -> (r: SubAgentReport)
        ensures
            is_failed(r, old(task).id, error.said()),
            task_has_failed(
                *old(task),
                *final(task),
                "max_iterations_exceeded"@,
                error.said(),
            ),
    {
        let said = error.to_text();
        task.state = TaskState::Failed {
            error: AgentErrorLike::new("max_iterations_exceeded", said.as_str()),
        };
        SubAgentReport::Failed {
            task_id: task.id,
            thread_id: None,
            error: said,
            partial_result: None,
        }
    }

    /// Ends a turn that failed.
    pub fn fail_turn(&self, task: &mut Task, error: &NeuromancerError) -> (r: SubAgentReport)
        ensures
            is_failed(r, old(task).id, error.said()),
            task_has_failed(*old(task), *final(task), "execution_failed"@, error.said()),
    {
        let said = error.to_text();
        task.state = TaskState::Failed {
            error: AgentErrorLike::new("execution_failed", said.as_str()),
        };
        SubAgentReport::Failed {
            task_id: task.id,
            thread_id: None,
            error: said,
            partial_result: None,
        }
    }
}

impl Run {
    /// The messages that a turn added to what was there before.
    pub open spec fn news(self) -> Seq<ChatMessage> {
        self.conversation.messages@.skip(self.history as int)
    }

    /// Ends a turn: what is kept of it, whether it succeeded or failed, and what it comes to.
    pub fn end_turn(self, outcome: Result<AgentOutput, NeuromancerError>) -> (r: (
        Vec<ChatMessage>,
        Result<TurnExecutionResult, NeuromancerError>,
    ))
        requires
            self.history <= self.conversation.messages@.len(),
        ensures
            r.0@ == self.news(),
            match (outcome, r.1) {
                (Ok(output), Ok(result)) => result == (TurnExecutionResult {
                    task_id: self.task_id,
                    output,
                }),
                (Err(error), Err(e)) => e == error,
                _ => false,
            },
    {
        let task_id = self.task_id;
        let kept = self.new_messages();
        match outcome {
            Ok(output) => (kept, Ok(TurnExecutionResult { task_id, output })),
            Err(error) => (kept, Err(error)),
        }
    }

    /// The messages that a turn added to what was there before.
    pub fn new_messages(self) -> (r: Vec<ChatMessage>)
        requires
            self.history <= self.conversation.messages@.len(),
        ensures
            r@ == self.news(),
    {
        let ghost all = self.conversation.messages@;
        let mut messages = self.conversation.messages;
        let mut dropped: usize = 0;
        assert(all.skip(0) =~= all);
        while dropped < self.history
            invariant
                dropped <= self.history <= all.len(),
                messages@ == all.skip(dropped as int),
            decreases self.history - dropped,
        {
            let _ = messages.remove(0);
            dropped = dropped + 1;
            assert(messages@ =~= all.skip(dropped as int));
        }
        messages
    }
}

fn add_all(conversation: &mut ConversationContext, messages: Vec<ChatMessage>)
    requires
        old(conversation).counted(),
        old(conversation).token_used + total(messages@) <= u32::MAX,
    ensures
        final(conversation).messages@ == old(conversation).messages@ + messages@,
        final(conversation).token_used == old(conversation).token_used + total(messages@),
        final(conversation).token_budget == old(conversation).token_budget,
        final(conversation).truncation_strategy == old(conversation).truncation_strategy,
        final(conversation).counted(),
{
    let ghost had = conversation.messages@;
    let ghost all = messages@;
    let mut rest = messages;
    let ghost mut i: int = 0;
    proof {
        assert(all.skip(0) =~= all);
        assert(all.take(0) =~= Seq::empty());
        assert(had + all.take(0) =~= had);
    }
    while rest.len() > 0
        invariant
            0 <= i <= all.len(),
            rest@ == all.skip(i),
            conversation.messages@ == had + all.take(i),
            conversation.token_used == old(conversation).token_used + total(all.take(i)),
            old(conversation).token_used + total(all) <= u32::MAX,
            conversation.token_budget == old(conversation).token_budget,
            conversation.truncation_strategy == old(conversation).truncation_strategy,
            conversation.counted(),
        decreases rest@.len(),
    {
        let message = rest.remove(0);
        proof {
            assert(rest@ =~= all.skip(i + 1));
            assert(all.take(i + 1).drop_last() =~= all.take(i));
            lemma_total_add(all.take(i + 1), all.skip(i + 1));
            assert(all.take(i + 1) + all.skip(i + 1) =~= all);
        }
        conversation.add_message(message);
        proof {
            assert(conversation.messages@ =~= had + all.take(i + 1));
            i = i + 1;
        }
    }
    assert(all.take(i) =~= all);
}

fn close_task(task: &mut Task, output: &TaskOutput, at: Timestamp) -> (r: SubAgentReport)
    ensures
        task_is_done(*old(task), *final(task), output@, at),
        is_completed(r, old(task).id, output@),
{
    task.checkpoints.push(completed_checkpoint(task.id, output, at));
    assert(task.checkpoints@.drop_last() =~= old(task).checkpoints@);
    task.state = TaskState::Completed { output: output.copy() };
    SubAgentReport::Completed {
        task_id: task.id,
        thread_id: None,
        artifacts: copy_artifacts(&output.artifacts),
        summary: output.summary.clone(),
    }
}

proof fn lemma_tokens_bound(text: Seq<char>)
    ensures
        1 <= tokens_in(text) <= 0x4000_0000,
{
}

// ---- secrets in tool calls ---------------------------------------------------------------

/// The handles in the arguments of a call that the agent may use.
pub open spec fn allowed_handles(ctx: AgentContext, call: ToolCall) -> Seq<Seq<char>> {
    deduped(in_order(handles(call.arguments@))).filter(
        |handle: Seq<char>| views(ctx.allowed_secrets@).contains(handle),
    )
}

/// The secrets that are asked for before a tool is called: those that its arguments name and that
/// the agent may use.
pub fn handles_to_resolve(ctx: &AgentContext, call: &ToolCall) -> (r: Vec<String>)
    ensures
        views(r@) == allowed_handles(*ctx, *call),
{
    let refs = extract_handle_refs(&call.arguments);
    let ghost all = views(refs@);
    let ghost p = |handle: Seq<char>| views(ctx.allowed_secrets@).contains(handle);
    let mut r: Vec<String> = Vec::new();
    let mut i: usize = 0;
    proof {
        crate::lists::lemma_filter_none(all, p);
        assert(views(r@) =~= Seq::empty());
    }
    while i < refs.len()
        invariant
            i <= refs@.len(),
            all == views(refs@),
            p == (|handle: Seq<char>| views(ctx.allowed_secrets@).contains(handle)),
            views(r@) == all.take(i as int).filter(p),
        decreases refs@.len() - i,
    {
        proof {
            crate::lists::lemma_filter_step(all, i as int, p);
        }
        if list_has(&ctx.allowed_secrets, refs[i].as_str()) {
            let ghost before = views(r@);
            r.push(refs[i].clone());
            assert(views(r@) =~= before.push(all[i as int]));
        }
        i = i + 1;
    }
    assert(all.take(i as int) =~= all);
    r
}

/// What a secret is wanted for.
pub fn secret_usage(call: &ToolCall) -> (r: SecretUsage)
    ensures
        r.tool_id == call.tool_id,
        r.purpose@ == "tool_call:"@ + call.id@,
{
    SecretUsage { tool_id: call.tool_id.clone(), purpose: cat("tool_call:", call.id.as_str()) }
}

/// A call with the secrets that could be had in its arguments.
pub fn resolve_secret_handles(call: &ToolCall, resolved: &Named<String>) -> (r: ToolCall)
    ensures
        r@ == (CallView {
            arguments: expanded(call.arguments@, braced_pairs(resolved.list())),
            ..call@
        }),
{
    if resolved.len() == 0 {
        proof {
            no_tokens_change_nothing(call.arguments@);
            assert(braced_pairs(resolved.list()) =~= Seq::empty());
        }
        return call.copy();
    }
    ToolCall {
        id: call.id.clone(),
        tool_id: call.tool_id.clone(),
        arguments: expand_secret_handles(&call.arguments, resolved),
    }
}

/// What calling a tool came to. A call that could not be made counts as one that failed.
pub fn execute_tool_call(call: &ToolCall, outcome: Result<ToolResult, NeuromancerError>) -> (r:
    ToolResult)
    ensures
        match outcome {
            Ok(result) => r == result,
            Err(e) => r.call_id == call.id && (r.output matches ToolOutput::Error(s) && s@
                == e.said()),
        },
{
    match outcome {
        Ok(result) => result,
        Err(e) => ToolResult { call_id: call.id.clone(), output: ToolOutput::Error(e.to_text()) },
    }
}

// ---- what holds of every run -------------------------------------------------------------

/// The agent turns to its model between two moments of a run.
pub open spec fn asks(runtime: AgentRuntime, before: Run, after: Run) -> bool {
    before.iteration < runtime.config.max_iterations && after.iteration == before.iteration + 1
}

/// The model is told between two moments of a run that a tool is not there.
pub open spec fn refuses(runtime: AgentRuntime, before: Run, after: Run) -> bool {
    &&& before.recovery_attempts < runtime.tool_call_retry_limit
    &&& after.recovery_attempts == before.recovery_attempts + 1
}

/// What happens between two moments of a run.
#[derive(Debug, Clone, Copy, PartialEq, Eq, Structural)]
pub enum Step {
    /// The agent turns to its model.
    Ask,
    /// It has turned to its model too often.
    GiveUp,
    /// The model is told that a tool is not there.
    Refuse,
    /// The model asks for tools.
    Act,
    /// The model gives an answer.
    Answer,
    /// A tool has given back something.
    Hear,
    /// The answer becomes part of the conversation.
    Conclude,
}

/// The step leads from one moment of a run to the next.
pub open spec fn stepped(runtime: AgentRuntime, step: Step, before: Run, after: Run) -> bool {
    match step {
        Step::Ask => {
            &&& asks(runtime, before, after)
            &&& same_but_conversation(Run { iteration: after.iteration, ..before }, after)
            &&& after.conversation.messages@ == before.conversation.truncated().0
            &&& after.conversation.token_used == before.conversation.truncated().1
        },
        Step::GiveUp => {
            &&& before.iteration >= runtime.config.max_iterations
            &&& after.iteration == before.iteration + 1
            &&& same_but_conversation(Run { iteration: after.iteration, ..before }, after)
            &&& after.conversation == before.conversation
        },
        Step::Refuse => {
            &&& refuses(runtime, before, after)
            &&& same_but_conversation(
                Run { recovery_attempts: after.recovery_attempts, ..before },
                after,
            )
            &&& after.conversation.messages@.len() == before.conversation.messages@.len() + 2
            &&& after.conversation.messages@.take(before.conversation.messages@.len() as int)
                == before.conversation.messages@
        },
        Step::Act => same_but_conversation(Run { usage: after.usage, ..before }, after) && told(
            before,
            after,
        ),
        Step::Answer => same_but_conversation(Run { usage: after.usage, ..before }, after)
            && after.conversation == before.conversation,
        Step::Hear => same_but_conversation(before, after) && told(before, after),
        Step::Conclude => same_but_conversation(before, after) && told(before, after),
    }
}

/// A later moment of a run: its messages go on from those of the earlier one, and the same of them
/// count as what was there before.
pub open spec fn extends(before: Run, after: Run) -> bool {
    &&& after.history == before.history
    &&& after.conversation.messages@.len() >= before.conversation.messages@.len()
    &&& after.conversation.messages@.take(before.conversation.messages@.len() as int)
        == before.conversation.messages@
}

/// The moments of a run, one after the other, with the steps between them.
pub open spec fn is_course(runtime: AgentRuntime, course: Seq<Run>, steps: Seq<Step>) -> bool {
    &&& course.len() == steps.len() + 1
    &&& course[0].iteration == 0
    &&& course[0].recovery_attempts == 0
    &&& forall|i: int|
        0 <= i < steps.len() ==> stepped(runtime, #[trigger] steps[i], course[i], course[i + 1])
}

/// How often a step was taken.
pub open spec fn times(steps: Seq<Step>, step: Step) -> nat
    decreases steps.len(),
{
    if steps.len() == 0 {
        0
    } else if steps.last() == step {
        times(steps.drop_last(), step) + 1
    } else {
        times(steps.drop_last(), step)
    }
}

proof fn lemma_counts(runtime: AgentRuntime, course: Seq<Run>, steps: Seq<Step>)
    requires
        is_course(runtime, course, steps),
    ensures
        times(steps, Step::Ask) + times(steps, Step::GiveUp) == course.last().iteration,
        times(steps, Step::Ask) <= runtime.config.max_iterations,
        times(steps, Step::GiveUp) > 0 ==> times(steps, Step::Ask)
            == runtime.config.max_iterations,
        times(steps, Step::Refuse) == course.last().recovery_attempts,
        times(steps, Step::Refuse) <= runtime.tool_call_retry_limit,
    decreases steps.len(),
{
    if steps.len() > 0 {
        let front = steps.drop_last();
        let moments = course.drop_last();
        assert forall|i: int| 0 <= i < front.len() implies stepped(
            runtime,
            #[trigger] front[i],
            moments[i],
            moments[i + 1],
        ) by {
            assert(stepped(runtime, steps[i], course[i], course[i + 1]));
        }
        lemma_counts(runtime, moments, front);
        let n = steps.len() - 1;
        assert(stepped(runtime, steps[n], course[n], course[n + 1]));
    }
}

/// In the course of a run the agent turns to its model at most as often as the configuration
/// allows.
pub proof fn runs_are_bounded(runtime: AgentRuntime, course: Seq<Run>, steps: Seq<Step>)
    requires
        is_course(runtime, course, steps),
    ensures
        times(steps, Step::Ask) <= runtime.config.max_iterations,
{
    lemma_counts(runtime, course, steps);
}

/// The agent gives up exactly when it has turned to its model as often as the configuration allows.
/// So a run whose answers all ask for tools turns to the model that often, and then gives up.
pub proof fn agents_give_up_in_time(
    runtime: AgentRuntime,
    course: Seq<Run>,
    steps: Seq<Step>,
    i: int,
)
    requires
        is_course(runtime, course, steps),
        0 <= i < steps.len(),
    ensures
        steps[i] is Ask ==> times(steps.take(i), Step::Ask) < runtime.config.max_iterations,
        steps[i] is GiveUp ==> times(steps.take(i), Step::Ask) == runtime.config.max_iterations,
{
    let front = steps.take(i);
    let moments = course.take(i + 1);
    assert forall|k: int| 0 <= k < front.len() implies stepped(
        runtime,
        #[trigger] front[k],
        moments[k],
        moments[k + 1],
    ) by {
        assert(stepped(runtime, steps[k], course[k], course[k + 1]));
    }
    lemma_counts(runtime, moments, front);
    assert(stepped(runtime, steps[i], course[i], course[i + 1]));
    assert(moments.last() == course[i]);
}

/// A run in which every answer asks for tools turns to the model as often as the configuration
/// allows, no more and no less, before it gives up.
pub proof fn tools_without_end(runtime: AgentRuntime, course: Seq<Run>, steps: Seq<Step>)
    requires
        is_course(runtime, course, steps),
        steps.len() > 0,
        steps.last() is GiveUp,
        forall|i: int|
            0 <= i < steps.len() - 1 ==> (#[trigger] steps[i]) is Ask || steps[i] is Act
                || steps[i] is Hear,
    ensures
        times(steps, Step::Ask) == runtime.config.max_iterations,
        course.last().iteration == runtime.config.max_iterations + 1,
{
    let n = steps.len() - 1;
    agents_give_up_in_time(runtime, course, steps, n);
    assert(steps.take(n) =~= steps.drop_last());
    assert(stepped(runtime, steps[n], course[n], course[n + 1]));
    lemma_counts(runtime, course, steps);
    lemma_never(steps.drop_last(), Step::GiveUp);
}

proof fn lemma_never(steps: Seq<Step>, step: Step)
    requires
        forall|i: int| 0 <= i < steps.len() ==> (#[trigger] steps[i]) != step,
    ensures
        times(steps, step) == 0,
    decreases steps.len(),
{
    if steps.len() > 0 {
        assert(steps[steps.len() - 1] != step);
        assert forall|i: int| 0 <= i < steps.drop_last().len() implies (
        #[trigger] steps.drop_last()[i]) != step by {
            assert(steps[i] != step);
        }
        lemma_never(steps.drop_last(), step);
    }
}

/// In the course of a run the model is told at most as often as the configuration allows that a
/// tool is not there.
pub proof fn recoveries_are_bounded(runtime: AgentRuntime, course: Seq<Run>, steps: Seq<Step>)
    requires
        is_course(runtime, course, steps),
    ensures
        times(steps, Step::Refuse) <= runtime.tool_call_retry_limit,
{
    lemma_counts(runtime, course, steps);
}

/// Every step of a turn leaves what was said before as it is.
pub proof fn turns_only_go_on(runtime: AgentRuntime, step: Step, before: Run, after: Run)
    requires
        stepped(runtime, step, before, after),
        before.conversation.token_budget == u32::MAX,
    ensures
        extends(before, after),
        after.conversation.token_budget == u32::MAX,
{
    let n = before.conversation.messages@.len() as int;
    let had = before.conversation.messages@;
    let has = after.conversation.messages@;
    if step is Ask {
        turns_keep_everything(before.conversation);
    }
    if step is Act || step is Hear || step is Conclude {
        assert(has.take(n) =~= has.drop_last());
    } else if !(step is Refuse) {
        assert(has.take(n) =~= had);
    }
}

proof fn lemma_turn_goes_on(runtime: AgentRuntime, course: Seq<Run>, steps: Seq<Step>)
    requires
        is_course(runtime, course, steps),
        course[0].conversation.token_budget == u32::MAX,
    ensures
        extends(course[0], course.last()),
        course.last().conversation.token_budget == u32::MAX,
    decreases steps.len(),
{
    let first = course[0].conversation.messages@;
    if steps.len() == 0 {
        assert(first.take(first.len() as int) =~= first);
    } else {
        let front = steps.drop_last();
        let moments = course.drop_last();
        assert forall|i: int| 0 <= i < front.len() implies stepped(
            runtime,
            #[trigger] front[i],
            moments[i],
            moments[i + 1],
        ) by {
            assert(stepped(runtime, steps[i], course[i], course[i + 1]));
        }
        lemma_turn_goes_on(runtime, moments, front);
        let n = steps.len() - 1;
        assert(stepped(runtime, steps[n], course[n], course[n + 1]));
        turns_only_go_on(runtime, steps[n], course[n], course[n + 1]);
        let mid = course[n].conversation.messages@;
        let last = course.last().conversation.messages@;
        assert(last.take(first.len() as int) =~= last.take(mid.len() as int).take(
            first.len() as int,
        ));
    }
}

/// At every moment of a turn, whether it succeeds or fails, what is kept of it is what the user said
/// and all that came after that. The prompt of the agent, what was said in earlier turns and what
/// the agent was given to know stand in front of it, and none of that is kept again.
pub proof fn turns_keep_only_what_is_new(
    runtime: AgentRuntime,
    course: Seq<Run>,
    steps: Seq<Step>,
    existing: Seq<ChatMessage>,
    injected: Seq<ChatMessage>,
    user: Seq<char>,
)
    requires
        is_course(runtime, course, steps),
        opens_turn(course[0], runtime.config.system_prompt@, existing, injected, user),
    ensures
        ({
            let all = course.last().conversation.messages@;
            let new = course.last().news();
            &&& new.len() > 0
            &&& new[0].is_text(MessageRole::User, user)
            &&& all == all.take(1) + existing + injected + new
            &&& all[0].is_text(MessageRole::System, runtime.config.system_prompt@)
        }),
{
    lemma_turn_goes_on(runtime, course, steps);
    let first = course[0].conversation.messages@;
    let all = course.last().conversation.messages@;
    let n = course[0].history as int;
    assert(first == all.take(first.len() as int));
    assert(course.last().news()[0] == first[n]);
    assert(first.subrange(1, n) =~= all.subrange(1, n));
    assert(all =~= all.take(1) + all.subrange(1, n) + all.skip(n));
    assert(all.take(1) + (existing + injected) =~= all.take(1) + existing + injected);
}

/// Nothing of a turn's conversation is ever dropped: its budget is as large as a count can be.
pub proof fn turns_keep_everything(conversation: ConversationContext)
    requires
        conversation.token_budget == u32::MAX,
    ensures
        conversation.truncated() == (
            conversation.messages@,
            conversation.token_used as int,
        ),
{
}

/// A secret that the agent may not use is not asked for.
pub proof fn only_allowed_secrets_are_asked_for(ctx: AgentContext, call: ToolCall, handle: Seq<char>)
    requires
        allowed_handles(ctx, call).contains(handle),
    ensures
        views(ctx.allowed_secrets@).contains(handle),
        handles(call.arguments@).contains(handle),
{
    let refs = deduped(in_order(handles(call.arguments@)));
    let p = |h: Seq<char>| views(ctx.allowed_secrets@).contains(h);
    refs.lemma_filter_contains_rev(p, handle);
    lemma_filter_pred(refs, p, handle);
    crate::text::sorted_once_keeps_texts(handles(call.arguments@));
}

proof fn lemma_filter_pred(
    s: Seq<Seq<char>>,
    p: spec_fn(Seq<char>) -> bool,
    x: Seq<char>,
)
    requires
        s.filter(p).contains(x),
    ensures
        p(x),
    decreases s.len(),
{
    reveal(Seq::filter);
    if s.len() > 0 {
        let rest = s.drop_last().filter(p);
        let k = choose|k: int| 0 <= k < s.filter(p).len() && s.filter(p)[k] == x;
        if k < rest.len() {
            assert(rest[k] == x);
            lemma_filter_pred(s.drop_last(), p, x);
        }
    }
}

/// A report says which task it is about and what became of it.
pub proof fn reports_say_what_became_of_the_task(
    report: SubAgentReport,
    task_id: TaskId,
    said: Seq<char>,
    iteration: u32,
    max_iterations: u32,
    tool_id: Seq<char>,
    eligible: bool,
    output: OutputView,
)
    ensures
        is_stuck(report, task_id, max_iterations) ==> (report matches SubAgentReport::Stuck {
            task_id: t,
            thread_id,
            reason,
            partial_result,
        } && t == task_id && thread_id is None && partial_result is None && reason@
            == "max iterations ("@ + decimal(max_iterations as nat) + ") exceeded"@),
        is_failed(report, task_id, said) ==> (report matches SubAgentReport::Failed {
            task_id: t,
            thread_id,
            error,
            partial_result,
        } && t == task_id && thread_id is None && partial_result is None && error@ == said),
        is_progress(report, task_id, iteration, max_iterations) ==> (
        report matches SubAgentReport::Progress {
            task_id: t,
            thread_id,
            step,
            description,
            artifacts_so_far,
        } && t == task_id && thread_id is None && step == iteration && description@ == "iteration "@
            + decimal(iteration as nat) + "/"@ + decimal(max_iterations as nat)
            && artifacts_so_far@.len() == 0),
        is_tool_failure(report, task_id, tool_id, said, eligible, iteration) ==> (
        report matches SubAgentReport::ToolFailure {
            task_id: t,
            thread_id,
            tool_id: tool,
            error,
            retry_eligible,
            attempted_count,
        } && t == task_id && thread_id is None && tool@ == tool_id && error@ == said
            && retry_eligible == eligible && attempted_count == iteration),
        is_completed(report, task_id, output) ==> (report matches SubAgentReport::Completed {
            task_id: t,
            thread_id,
            artifacts,
            summary,
        } && t == task_id && thread_id is None && summary@ == output.summary && artifacts@.len()
            == output.artifacts.len() && forall|i: int|
            0 <= i < artifacts@.len() ==> (#[trigger] artifacts@[i]).content@
                == output.artifacts[i].content && artifacts@[i].name@ == output.artifacts[i].name
                && artifacts@[i].kind == output.artifacts[i].kind),
{
    match report {
        SubAgentReport::Completed { task_id: t, thread_id, artifacts, summary } => {
            if is_completed(report, task_id, output) {
                assert forall|i: int| 0 <= i < artifacts@.len() implies (
                #[trigger] artifacts@[i]).content@ == output.artifacts[i].content
                    && artifacts@[i].name@ == output.artifacts[i].name && artifacts@[i].kind
                    == output.artifacts[i].kind by {
                    assert(artifact_views(artifacts@)[i] == artifacts@[i]@);
                }
            }
        },
        _ => {},
    }
}

/// A task that is done has its output and one checkpoint more, which holds the output; one that has
/// failed says why. All else about the task stays.
pub proof fn tasks_are_closed_with_what_came_of_them(
    before: Task,
    after: Task,
    output: OutputView,
    at: Timestamp,
    code: Seq<char>,
    said: Seq<char>,
)
    ensures
        task_is_done(before, after, output, at) ==> (after.state matches TaskState::Completed {
            output: o,
        } && o.summary@ == output.summary && o.token_usage == output.token_usage && o.duration
            == output.duration) && after.checkpoints@.len() == before.checkpoints@.len() + 1
            && before.checkpoints@.is_prefix_of(after.checkpoints@)
            && after.checkpoints@.last().task_id == before.id && after.checkpoints@.last().created_at
            == at && after.checkpoints@.last().state_data@ == completed_tree(output),
        task_has_failed(before, after, code, said) ==> (after.state matches TaskState::Failed {
            error,
        } && error.code@ == code && error.message@ == said) && after.checkpoints == before.checkpoints,
        task_is_done(before, after, output, at) || task_has_failed(before, after, code, said)
            ==> after.id == before.id && after.instruction == before.instruction
            && after.assigned_agent == before.assigned_agent && after.parent_id == before.parent_id
            && after.priority == before.priority && after.trigger_source == before.trigger_source
            && after.created_at == before.created_at && after.deadline == before.deadline
            && after.idempotency_key == before.idempotency_key,
{
    if task_is_done(before, after, output, at) {
        assert(before.checkpoints@ =~= after.checkpoints@.take(before.checkpoints@.len() as int));
    }
}

/// A conversation of a task opens with the system prompt and then the instruction.
pub proof fn conversations_open_with_the_prompt(
    conversation: ConversationContext,
    system: Seq<char>,
    user: Seq<char>,
)
    requires
        opens_with(conversation, system, user),
    ensures
        conversation.messages@.len() == 2,
        conversation.messages@[0].role is System,
        conversation.messages@[0].content matches MessageContent::Text(t) && t@ == system,
        conversation.messages@[1].role is User,
        conversation.messages@[1].content matches MessageContent::Text(t) && t@ == user,
{
}

/// A turn opens with the system prompt, what was said before, what is brought in, and what the user
/// says, in this order.
pub proof fn turns_open_with_what_was_said(
    run: Run,
    system: Seq<char>,
    existing: Seq<ChatMessage>,
    injected: Seq<ChatMessage>,
    user: Seq<char>,
    i: int,
)
    requires
        opens_turn(run, system, existing, injected, user),
    ensures
        run.conversation.messages@.len() == existing.len() + injected.len() + 2,
        run.conversation.messages@[0].role is System,
        run.conversation.messages@[0].content matches MessageContent::Text(t) && t@ == system,
        run.conversation.messages@.last().role is User,
        run.conversation.messages@.last().content matches MessageContent::Text(t) && t@ == user,
        0 <= i < existing.len() ==> run.conversation.messages@[1 + i] == existing[i],
        0 <= i < injected.len() ==> run.conversation.messages@[1 + existing.len() + i] == injected[i],
        run.news() == seq![run.conversation.messages@.last()],
        run.conversation.token_budget == u32::MAX,
{
    let all = run.conversation.messages@;
    let middle = all.subrange(1, run.history as int);
    if 0 <= i < existing.len() {
        assert(middle[i] == all[1 + i]);
    }
    if 0 <= i < injected.len() {
        assert(middle[existing.len() + i] == all[1 + existing.len() + i]);
    }
    assert(run.news() =~= seq![all.last()]);
}

/// What a step leaves as it was, and what it changes: how often the model is asked goes up by one
/// when it is, how often it was refused goes up by one when it was, and otherwise neither does.
pub proof fn steps_count_what_they_do(runtime: AgentRuntime, step: Step, before: Run, after: Run)
    requires
        stepped(runtime, step, before, after),
    ensures
        after.task_id == before.task_id,
        after.tool_names == before.tool_names,
        after.history == before.history,
        after.conversation.token_budget == before.conversation.token_budget,
        after.conversation.truncation_strategy == before.conversation.truncation_strategy,
        after.iteration == before.iteration + (if step is Ask || step is GiveUp {
            1int
        } else {
            0int
        }),
        after.recovery_attempts == before.recovery_attempts + (if step is Refuse {
            1int
        } else {
            0int
        }),
        !(step is Act) && !(step is Answer) ==> after.usage == before.usage,
        step is Ask ==> before.iteration < runtime.config.max_iterations,
        step is GiveUp ==> before.iteration >= runtime.config.max_iterations,
        step is Refuse ==> before.recovery_attempts < runtime.tool_call_retry_limit,
        step is Answer || step is GiveUp ==> after.conversation == before.conversation,
        step is Act || step is Hear || step is Conclude ==> after.conversation.messages@.len()
            == before.conversation.messages@.len() + 1 && before.conversation.messages@.is_prefix_of(
            after.conversation.messages@,
        ) && after.conversation.token_used == before.conversation.token_used
            + after.conversation.messages@.last().token_estimate,
        step is Refuse ==> after.conversation.messages@.len() == before.conversation.messages@.len()
            + 2 && before.conversation.messages@.is_prefix_of(after.conversation.messages@),
{
    let had = before.conversation.messages@;
    let has = after.conversation.messages@;
    if step is Act || step is Hear || step is Conclude {
        assert(had =~= has.take(had.len() as int));
    }
}

/// The tokens of an answer are added to those before, each to its own count and both to the total.
pub proof fn tokens_add_up(usage: TokenUsage, response: LlmResponse)
    ensures
        usage_after(usage, response).0 - usage.prompt_tokens == response.prompt_tokens,
        usage_after(usage, response).1 - usage.completion_tokens == response.completion_tokens,
        usage_after(usage, response).2 - usage.total_tokens == response.prompt_tokens
            + response.completion_tokens,
{
}

/// An error can be recovered from where the model gave an answer that blames a tool call, and
/// nowhere else.
pub proof fn only_tool_calls_are_recovered(err: NeuromancerError, reason: Seq<char>)
    ensures
        recoverable(err) == Some(reason) <==> (err matches NeuromancerError::Llm(
            LlmError::InvalidResponse { reason: r },
        ) && r@ == reason && blames_tool_call(reason)),
{
}

/// A refused call and its refusal stand under one identifier, and tell the model which tool it was.
pub proof fn refusals_answer_the_refused_call(
    call: ChatMessage,
    refusal: ChatMessage,
    attempt: nat,
    reason: Seq<char>,
    names: Seq<Seq<char>>,
)
    requires
        is_refused_call(call, attempt, reason),
        is_refusal(refusal, attempt, reason, names),
    ensures
        call.role is Assistant,
        call.content matches MessageContent::ToolCalls(calls) && calls@.len() == 1 && calls@[0].id@
            == "invalid-tool-recovery-"@ + decimal(attempt) && calls@[0].tool_id@ == blamed_tool(
            reason,
        ) && calls@[0].arguments@ == JsonTree::Object(Seq::empty()),
        refusal.role is Tool,
        refusal.content matches MessageContent::ToolResult(result) && result.call_id@
            == "invalid-tool-recovery-"@ + decimal(attempt) && (
        result.output matches ToolOutput::Error(error) && error@ == recovery_error(reason, names)),
{
    let calls = choose|calls: Vec<ToolCall>|
        #[trigger] call.is_tool_calls(calls) && call_views(calls@) == seq![
            CallView {
                id: "invalid-tool-recovery-"@ + decimal(attempt),
                tool_id: blamed_tool(reason),
                arguments: JsonTree::Object(Seq::empty()),
            },
        ];
    assert(call_views(calls@).len() == calls@.len());
    assert(call_views(calls@)[0] == calls@[0]@);
}

/// Each secret that a call asks for and the agent may have is asked for, once, in order.
pub proof fn allowed_secrets_are_all_asked_for(ctx: AgentContext, call: ToolCall, handle: Seq<char>)
    requires
        handles(call.arguments@).contains(handle),
        views(ctx.allowed_secrets@).contains(handle),
    ensures
        allowed_handles(ctx, call).contains(handle),
{
    let all = deduped(in_order(handles(call.arguments@)));
    let p = |handle: Seq<char>| views(ctx.allowed_secrets@).contains(handle);
    crate::text::sorted_once_keeps_texts(handles(call.arguments@));
    assert(all.contains(handle));
    let i = choose|i: int| 0 <= i < all.len() && all[i] == handle;
    all.lemma_filter_contains(p, i);
}

/// Before the model is asked, the conversation is cut to what fits; whatever goes on, what a run has
/// only grows.
pub proof fn models_are_asked_with_what_fits(runtime: AgentRuntime, before: Run, after: Run)
    ensures
        stepped(runtime, Step::Ask, before, after) ==> after.conversation.messages@
            == before.conversation.truncated().0 && after.conversation.token_used
            == before.conversation.truncated().1,
        extends(before, after) ==> before.conversation.messages@.is_prefix_of(
            after.conversation.messages@,
        ) && after.history == before.history,
{
}

} // verus!
