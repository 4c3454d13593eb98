//! The model behind an agent: what it is sent and what it answers.

use vstd::prelude::*;
use crate::conversation::PromptMessage;
use crate::error::{LlmError, NeuromancerError};
use crate::json::{compact, compact_text, entry_views, object, put_entry, text, Json, JsonTree};
use crate::text::{cat3, chars_of, clip, decimal, opt_view, to_decimal};
use crate::tool::ToolCall;

verus! {

/// An LLM completion response that our agent runtime works with.
#[derive(Debug)]
pub struct LlmResponse {
    /// Text content from the assistant (if any).
    pub text: Option<String>,
    /// Tool calls requested by the assistant (if any).
    pub tool_calls: Vec<ToolCall>,
    /// Token usage for this call.
    pub prompt_tokens: u32,
    pub completion_tokens: u32,
}

impl LlmResponse {
    pub fn has_tool_calls(&self) -> (r: bool)
        ensures
            r == (self.tool_calls@.len() > 0),
    {
        self.tool_calls.len() > 0
    }

    pub fn is_text_only(&self) -> (r: bool)
        ensures
            r == (self.tool_calls@.len() == 0 && self.text is Some),
    {
        self.tool_calls.len() == 0 && self.text.is_some()
    }
}

/// A part of what a model answers.
#[derive(Debug)]
pub enum AssistantPart {
    Text(String),
    ToolCall(ToolCall),
    /// Anything else, such as its reasoning.
    Other,
}

/// The last text among the parts of an answer.
pub open spec fn last_text(parts: Seq<AssistantPart>) -> Option<String>
    decreases parts.len(),
{
    if parts.len() == 0 {
        None
    } else {
        match parts.last() {
            AssistantPart::Text(s) => Some(s),
            _ => last_text(parts.drop_last()),
        }
    }
}

/// The tool calls among the parts of an answer.
pub open spec fn calls_among(parts: Seq<AssistantPart>) -> Seq<ToolCall>
    decreases parts.len(),
{
    if parts.len() == 0 {
        Seq::empty()
    } else {
        let before = calls_among(parts.drop_last());
        match parts.last() {
            AssistantPart::ToolCall(call) => before.push(call),
            _ => before,
        }
    }
}

/// The answer that parts make up. Its tokens are not counted.
pub fn response_from(parts: Vec<AssistantPart>) -> (r: LlmResponse)
    ensures
        r.text == last_text(parts@),
        r.tool_calls@ == calls_among(parts@),
        r.prompt_tokens == 0,
        r.completion_tokens == 0,
{
    let ghost all = parts@;
    let mut rest = parts;
    let mut words: Option<String> = None;
    let mut tool_calls: Vec<ToolCall> = Vec::new();
    let ghost mut i: int = 0;
    proof {
        assert(all.take(0) =~= Seq::empty());
        assert(all.skip(0) =~= all);
    }
    while rest.len() > 0
        invariant
            0 <= i <= all.len(),
            rest@ == all.skip(i),
            words == last_text(all.take(i)),
            tool_calls@ == calls_among(all.take(i)),
        decreases rest@.len(),
    {
        let part = rest.remove(0);
        proof {
            assert(rest@ =~= all.skip(i + 1));
            assert(all.take(i + 1).drop_last() =~= all.take(i));
            assert(all.take(i + 1).last() == part);
            i = i + 1;
        }
        match part {
            AssistantPart::Text(s) => {
                words = Some(s);
            },
            AssistantPart::ToolCall(call) => {
                tool_calls.push(call);
            },
            AssistantPart::Other => {},
        }
    }
    assert(all.take(i) =~= all);
    LlmResponse { text: words, tool_calls, prompt_tokens: 0, completion_tokens: 0 }
}

/// The text that the user says in a message, if it is one of the user's that says something.
pub open spec fn user_text(message: PromptMessage) -> Option<Seq<char>> {
    match message {
        PromptMessage::User(s) => Some(s@),
        _ => None,
    }
}

pub fn extract_user_text(message: &PromptMessage) -> (r: Option<String>)
    ensures
        opt_view(r) == user_text(*message),
{
    match message {
        PromptMessage::User(s) => Some(s.clone()),
        _ => None,
    }
}

/// What is asked, and what was said before. A last word of the user is the question; else there
/// is none, and all is history.
pub open spec fn split_of(messages: Seq<PromptMessage>) -> (Seq<char>, Seq<PromptMessage>) {
    if messages.len() > 0 && user_text(messages.last()) is Some {
        (user_text(messages.last())->0, messages.drop_last())
    } else {
        (Seq::empty(), messages)
    }
}

/// What is asked, and what was said before.
pub fn split_prompt_and_history(messages: Vec<PromptMessage>) -> (r: (String, Vec<PromptMessage>))
    ensures
        (r.0@, r.1@) == split_of(messages@),
{
    if messages.len() == 0 {
        return (String::new(), messages);
    }
    match extract_user_text(&messages[messages.len() - 1]) {
        Some(s) => {
            let mut history = messages;
            let _ = history.pop();
            (s, history)
        },
        None => (String::new(), messages),
    }
}

/// The question and what was said before make up all that was said.
pub proof fn splitting_loses_nothing(messages: Seq<PromptMessage>)
    ensures
        ({
            let (prompt, history) = split_of(messages);
            ||| history == messages && prompt.len() == 0
            ||| messages.len() == history.len() + 1 && history.push(messages.last()) == messages
                && user_text(messages.last()) == Some(prompt)
        }),
{
    let (prompt, history) = split_of(messages);
    if messages.len() > 0 && user_text(messages.last()) is Some {
        assert(history.push(messages.last()) =~= messages);
    }
}

/// A text that was cut short, with the number of characters that are missing.
pub open spec fn cut_for_debug(value: Seq<char>, max_chars: int) -> Seq<char> {
    if value.len() <= max_chars {
        value
    } else {
        value.take(max_chars) + "...(+"@ + decimal((value.len() - max_chars) as nat) + " chars)"@
    }
}

pub fn truncate_debug(value: &str, max_chars: usize) -> (r: String)
    ensures
        r@ == cut_for_debug(value@, max_chars as int),
{
    let chars = chars_of(value);
    if chars.len() <= max_chars {
        return value.to_owned();
    }
    let missing = to_decimal((chars.len() - max_chars) as u64);
    let mut r = cat3(clip(value, max_chars).as_str(), "...(+", missing.as_str());
    r.append(" chars)");
    r
}

/// What is said of a request for those who look for faults.
pub open spec fn request_debug(
    system_prompt: Seq<char>,
    current_prompt: Seq<char>,
    chat_history: JsonTree,
    tools: JsonTree,
) -> Seq<char> {
    compact_text(
        JsonTree::Object(
            seq![
                ("chat_history"@, chat_history),
                ("current_prompt_preview"@, JsonTree::Text(cut_for_debug(current_prompt, 500))),
                ("system_prompt_preview"@, JsonTree::Text(cut_for_debug(system_prompt, 500))),
                ("tools"@, tools),
            ],
        ),
    )
}

pub fn render_request_debug(
    system_prompt: &str,
    current_prompt: &str,
    chat_history: Json,
    tools: Json,
) -> (r: String)
    ensures
        r@ == request_debug(system_prompt@, current_prompt@, chat_history@, tools@),
{
    let mut entries: Vec<(String, Json)> = Vec::new();
    assert(entry_views(entries@) =~= Seq::empty());
    put_entry(&mut entries, "chat_history", chat_history);
    put_entry(
        &mut entries,
        "current_prompt_preview",
        text(truncate_debug(current_prompt, 500).as_str()),
    );
    put_entry(
        &mut entries,
        "system_prompt_preview",
        text(truncate_debug(system_prompt, 500).as_str()),
    );
    put_entry(&mut entries, "tools", tools);
    assert(entry_views(entries@) =~= seq![
        ("chat_history"@, chat_history@),
        ("current_prompt_preview"@, JsonTree::Text(cut_for_debug(current_prompt@, 500))),
        ("system_prompt_preview"@, JsonTree::Text(cut_for_debug(system_prompt@, 500))),
        ("tools"@, tools@),
    ]);
    compact(&object(entries))
}

/// The error that a failed request comes to: what went wrong, and what was asked.
pub fn request_failed(error: &str, request: &str) -> (r: NeuromancerError)
    ensures
        r matches NeuromancerError::Llm(LlmError::InvalidResponse { reason }) && reason@ == error@
            + "\nrequest_debug: "@ + cut_for_debug(request@, 8000),
{
    let reason = cat3(error, "\nrequest_debug: ", truncate_debug(request, 8000).as_str());
    NeuromancerError::Llm(LlmError::InvalidResponse { reason })
}

/// A model that answers what it was told to, in order.
#[derive(Debug)]
pub struct MockLlmClient {
    pub responses: Vec<LlmResponse>,
}

impl MockLlmClient {
    pub fn new(responses: Vec<LlmResponse>) -> (r: MockLlmClient)
        ensures
            r.responses == responses,
    {
        MockLlmClient { responses }
    }

    /// The next answer, or that there is none.
    pub fn complete(&mut self) -> (r: LlmResponse)
        ensures
            old(self).responses@.len() > 0 ==> r == old(self).responses@[0]
                && final(self).responses@ == old(self).responses@.drop_first(),
            old(self).responses@.len() == 0 ==> final(self).responses@ == old(self).responses@
                && (r.text matches Some(s) && s@ == "No more mock responses"@)
                && r.tool_calls@.len() == 0 && r.prompt_tokens == 0 && r.completion_tokens == 0,
    {
        if self.responses.len() == 0 {
            LlmResponse {
                text: Some("No more mock responses".to_owned()),
                tool_calls: Vec::new(),
                prompt_tokens: 0,
                completion_tokens: 0,
            }
        } else {
            let r = self.responses.remove(0);
            assert(self.responses@ =~= old(self).responses@.drop_first());
            r
        }
    }
}

/// What the assistant says is the last text among its parts, whatever comes behind it that is none.
pub proof fn the_last_text_is_said(before: Seq<AssistantPart>, text: String, after: Seq<AssistantPart>)
    requires
        forall|i: int| 0 <= i < after.len() ==> !(#[trigger] after[i] is Text),
    ensures
        last_text(before.push(AssistantPart::Text(text)) + after) == Some(text),
        last_text(after) is None,
    decreases after.len(),
{
    let all = before.push(AssistantPart::Text(text)) + after;
    if after.len() > 0 {
        let rest = after.drop_last();
        assert forall|i: int| 0 <= i < rest.len() implies !(#[trigger] rest[i] is Text) by {
            assert(rest[i] == after[i]);
        }
        the_last_text_is_said(before, text, rest);
        assert(all.drop_last() =~= before.push(AssistantPart::Text(text)) + rest);
        assert(all.last() == after.last());
        assert(!(after[after.len() - 1] is Text));
    } else {
        assert(all =~= before.push(AssistantPart::Text(text)));
    }
}

/// All calls among the parts are made, in their order, and nothing else is.
pub proof fn all_calls_are_made(
    before: Seq<AssistantPart>,
    part: AssistantPart,
    after: Seq<AssistantPart>,
)
    ensures
        calls_among(before + after) == calls_among(before) + calls_among(after),
        part matches AssistantPart::ToolCall(call) ==> calls_among(seq![part]) == seq![call],
        !(part is ToolCall) ==> calls_among(seq![part]).len() == 0,
    decreases after.len(),
{
    let one = seq![part];
    assert(one.drop_last() =~= Seq::empty());
    assert(calls_among(one.drop_last()) =~= Seq::empty());
    match part {
        AssistantPart::ToolCall(call) => {
            assert(calls_among(one) =~= seq![call]);
        },
        _ => {},
    }
    if after.len() == 0 {
        assert(before + after =~= before);
        assert(calls_among(before) + calls_among(after) =~= calls_among(before));
    } else {
        all_calls_are_made(before, part, after.drop_last());
        let all = before + after;
        assert(all.drop_last() =~= before + after.drop_last());
        assert(calls_among(all) =~= calls_among(before) + calls_among(after));
    }
}

/// The prompt is what the user said last, if the last message is the user's; the messages before it
/// are the history. Otherwise the prompt is empty and all messages are the history.
pub proof fn the_last_word_of_the_user_is_the_prompt(history: Seq<PromptMessage>, last: PromptMessage)
    ensures
        last matches PromptMessage::User(s) ==> split_of(history.push(last)) == (s@, history),
        !(last is User) ==> split_of(history.push(last)) == (
            Seq::<char>::empty(),
            history.push(last),
        ),
{
    assert(history.push(last).drop_last() =~= history);
}

/// A long text is cut behind as many characters as asked for, and says how many are left out.
pub proof fn cut_texts_say_what_is_missing(value: Seq<char>, max_chars: int)
    requires
        max_chars >= 0,
    ensures
        value.len() <= max_chars ==> cut_for_debug(value, max_chars) == value,
        value.len() > max_chars ==> cut_for_debug(value, max_chars) == value.take(max_chars)
            + "...(+"@ + decimal((value.len() - max_chars) as nat) + " chars)"@,
{
}

/// A request is shown with the history and the tools as they are, and the first five hundred
/// characters of both prompts.
pub proof fn requests_are_shown(
    system_prompt: Seq<char>,
    current_prompt: Seq<char>,
    chat_history: JsonTree,
    tools: JsonTree,
) -> (shown: JsonTree)
    ensures
        request_debug(system_prompt, current_prompt, chat_history, tools) == compact_text(shown),
        shown.field("chat_history"@) == Some(chat_history),
        shown.field("tools"@) == Some(tools),
        system_prompt.len() <= 500 ==> shown.field("system_prompt_preview"@) == Some(
            JsonTree::Text(system_prompt),
        ),
        current_prompt.len() <= 500 ==> shown.field("current_prompt_preview"@) == Some(
            JsonTree::Text(current_prompt),
        ),
{
    reveal_strlit("chat_history");
    reveal_strlit("current_prompt_preview");
    reveal_strlit("system_prompt_preview");
    reveal_strlit("tools");
    assert("chat_history"@.len() == 12 && "current_prompt_preview"@.len() == 22
        && "system_prompt_preview"@.len() == 21 && "tools"@.len() == 5);
    reveal_with_fuel(crate::json::entry, 5);
    JsonTree::Object(
        seq![
            ("chat_history"@, chat_history),
            ("current_prompt_preview"@, JsonTree::Text(cut_for_debug(current_prompt, 500))),
            ("system_prompt_preview"@, JsonTree::Text(cut_for_debug(system_prompt, 500))),
            ("tools"@, tools),
        ],
    )
}

} // verus!
