//! Small helpers of the agent runtime.

use vstd::prelude::*;
use crate::json::{Json, JsonTree};
use crate::text::{cat, chars_of, clip, deduped, in_order, sort_and_dedup, views};
use crate::tool::ToolSpec;

verus! {

/// The names of the tools of a list.
pub open spec fn spec_names(specs: Seq<ToolSpec>) -> Seq<Seq<char>> {
    Seq::new(specs.len(), |i: int| specs[i].name@)
}

/// The names of the tools that there are, in order, each once.
pub fn available_tool_names(specs: &Vec<ToolSpec>) -> (r: Vec<String>)
    ensures
        views(r@) == deduped(in_order(spec_names(specs@))),
{
    let mut names: Vec<String> = Vec::new();
    let mut i: usize = 0;
    while i < specs.len()
        invariant
            i <= specs@.len(),
            names@.len() == i,
            forall|k: int| 0 <= k < i ==> (#[trigger] names@[k])@ == specs@[k].name@,
        decreases specs@.len() - i,
    {
        names.push(specs[i].name.clone());
        i = i + 1;
    }
    assert(views(names@) =~= spec_names(specs@));
    sort_and_dedup(&names)
}

/// A tool as a model is told of it.
#[derive(Debug)]
pub struct ToolDefinition {
    pub name: String,
    pub description: String,
    pub parameters: Json,
}

/// What a model is told of a tool.
#[verifier::ext_equal]
pub struct DefinitionView {
    pub name: Seq<char>,
    pub description: Seq<char>,
    pub parameters: JsonTree,
}

impl View for ToolDefinition {
    type V = DefinitionView;

    open spec fn view(&self) -> DefinitionView {
        DefinitionView {
            name: self.name@,
            description: self.description@,
            parameters: self.parameters@,
        }
    }
}

/// Convert neuromancer ToolSpecs to the definitions that a model gets.
pub fn specs_to_rig_definitions(specs: &Vec<ToolSpec>) -> (r: Vec<ToolDefinition>)
    ensures
        r@.len() == specs@.len(),
        forall|i: int|
            0 <= i < specs@.len() ==> (#[trigger] r@[i])@ == (DefinitionView {
                name: specs@[i].name@,
                description: specs@[i].description@,
                parameters: specs@[i].parameters_schema@,
            }),
{
    let mut r: Vec<ToolDefinition> = Vec::new();
    let mut i: usize = 0;
    while i < specs.len()
        invariant
            i <= specs@.len(),
            r@.len() == i,
            forall|k: int|
                0 <= k < i ==> (#[trigger] r@[k])@ == (DefinitionView {
                    name: specs@[k].name@,
                    description: specs@[k].description@,
                    parameters: specs@[k].parameters_schema@,
                }),
        decreases specs@.len() - i,
    {
        r.push(
            ToolDefinition {
                name: specs[i].name.clone(),
                description: specs[i].description.clone(),
                parameters: specs[i].parameters_schema.copy(),
            },
        );
        i = i + 1;
    }
    r
}

/// The beginning of a text, marked where there is more.
pub open spec fn summary_of(text: Seq<char>, max_len: int) -> Seq<char> {
    if text.len() <= max_len {
        text
    } else {
        text.take(max_len) + "..."@
    }
}

/// Truncate text to at most `max_len` characters for summaries.
pub fn truncate_summary(text: &str, max_len: usize) -> (r: String)
    ensures
        r@ == summary_of(text@, max_len as int),
{
    if chars_of(text).len() <= max_len {
        text.to_owned()
    } else {
        cat(clip(text, max_len).as_str(), "...")
    }
}

/// A summary begins as the text does, and is at most a mark longer than asked for.
pub proof fn summaries_are_beginnings(text: Seq<char>, max_len: int)
    requires
        0 <= max_len,
    ensures
        summary_of(text, max_len).len() <= max_len + 3,
        text.len() > max_len ==> summary_of(text, max_len).take(max_len) == text.take(max_len),
{
    reveal_strlit("...");
    if text.len() > max_len {
        assert(summary_of(text, max_len).take(max_len) =~= text.take(max_len));
    }
}

/// A text that is short enough is its own summary; a longer one ends in three dots.
pub proof fn short_texts_are_their_summary(text: Seq<char>, max_len: int)
    requires
        0 <= max_len,
    ensures
        text.len() <= max_len ==> summary_of(text, max_len) == text,
        text.len() > max_len ==> summary_of(text, max_len) == text.take(max_len) + seq![
            '.',
            '.',
            '.',
        ],
{
    reveal_strlit("...");
    assert("..."@ =~= seq!['.', '.', '.']);
}

/// The tools are named as they are, each under its name.
pub proof fn tools_go_by_their_names(specs: Seq<ToolSpec>, i: int)
    requires
        0 <= i < specs.len(),
    ensures
        spec_names(specs).len() == specs.len(),
        spec_names(specs)[i] == specs[i].name@,
        deduped(in_order(spec_names(specs))).contains(specs[i].name@),
{
    crate::text::sorted_once_keeps_texts(spec_names(specs));
    assert(spec_names(specs).contains(spec_names(specs)[i]));
}

} // verus!
