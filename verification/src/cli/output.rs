//! What the client prints.

use vstd::prelude::*;
use crate::json::{
    compact, compact_text, entry_views, number, number_tree, object, pretty, pretty_text, put_entry,
    text, Json, JsonTree,
};
use crate::text::cat;

verus! {

/// What is printed of a result.
pub open spec fn success_said(json_mode: bool, payload: JsonTree) -> Seq<char> {
    if json_mode {
        compact_text(
            JsonTree::Object(seq![("ok"@, JsonTree::Bool(true)), ("result"@, payload)]),
        )
    } else {
        match payload {
            JsonTree::Text(s) => s,
            _ => pretty_text(payload),
        }
    }
}

/// What is printed of a result: a text as it is, else a document over several lines; or an
/// envelope on one line.
pub fn success_text(json_mode: bool, payload: &Json) -> (r: String)
    ensures
        r@ == success_said(json_mode, payload@),
{
    if json_mode {
        let mut entries: Vec<(String, Json)> = Vec::new();
        assert(entry_views(entries@) =~= Seq::empty());
        put_entry(&mut entries, "ok", Json::Bool(true));
        put_entry(&mut entries, "result", payload.copy());
        assert(entry_views(entries@) =~= seq![
            ("ok"@, JsonTree::Bool(true)),
            ("result"@, payload@),
        ]);
        return compact(&object(entries));
    }
    match payload.as_str() {
        Some(s) => s.to_owned(),
        None => pretty(payload),
    }
}

/// What is printed of an error.
pub open spec fn error_said(json_mode: bool, message: Seq<char>, exit_code: nat) -> Seq<char> {
    if json_mode {
        compact_text(
            JsonTree::Object(
                seq![
                    (
                        "error"@,
                        JsonTree::Object(
                            seq![
                                ("code"@, number_tree(exit_code)),
                                ("message"@, JsonTree::Text(message)),
                            ],
                        ),
                    ),
                    ("ok"@, JsonTree::Bool(false)),
                ],
            ),
        )
    } else {
        "error: "@ + message
    }
}

/// What is printed of an error.
pub fn error_text(json_mode: bool, message: &str, exit_code: u32) -> (r: String)
    ensures
        r@ == error_said(json_mode, message@, exit_code as nat),
{
    if json_mode {
        let mut inner: Vec<(String, Json)> = Vec::new();
        assert(entry_views(inner@) =~= Seq::empty());
        put_entry(&mut inner, "code", number(exit_code as u64));
        put_entry(&mut inner, "message", text(message));
        assert(entry_views(inner@) =~= seq![
            ("code"@, number_tree(exit_code as nat)),
            ("message"@, JsonTree::Text(message@)),
        ]);
        let inner = object(inner);
        let mut entries: Vec<(String, Json)> = Vec::new();
        assert(entry_views(entries@) =~= Seq::empty());
        put_entry(&mut entries, "error", inner);
        put_entry(&mut entries, "ok", Json::Bool(false));
        assert(entry_views(entries@) =~= seq![
            ("error"@, inner@),
            ("ok"@, JsonTree::Bool(false)),
        ]);
        return compact(&object(entries));
    }
    cat("error: ", message)
}

/// A result is shown as it is: a text without quotes, and anything else over several lines. As JSON
/// it stands in an envelope that says that all went well.
pub proof fn results_are_shown(payload: JsonTree) -> (envelope: JsonTree)
    ensures
        payload matches JsonTree::Text(s) ==> success_said(false, payload) == s,
        !(payload is Text) ==> success_said(false, payload) == pretty_text(payload),
        success_said(true, payload) == compact_text(envelope),
        envelope.field("ok"@) == Some(JsonTree::Bool(true)),
        envelope.field("result"@) == Some(payload),
{
    reveal_strlit("ok");
    reveal_strlit("result");
    assert("ok"@.len() == 2 && "result"@.len() == 6);
    reveal_with_fuel(crate::json::entry, 3);
    JsonTree::Object(seq![("ok"@, JsonTree::Bool(true)), ("result"@, payload)])
}

/// An error is shown as such. As JSON it stands in an envelope with its code and its words.
pub proof fn errors_are_shown(message: Seq<char>, exit_code: nat) -> (envelope: JsonTree)
    ensures
        error_said(false, message, exit_code) == "error: "@ + message,
        error_said(true, message, exit_code) == compact_text(envelope),
        envelope.field("ok"@) == Some(JsonTree::Bool(false)),
        envelope.field("error"@) matches Some(error) && error.field("code"@) == Some(
            number_tree(exit_code),
        ) && error.field("message"@) == Some(JsonTree::Text(message)),
{
    reveal_strlit("ok");
    reveal_strlit("error");
    reveal_strlit("code");
    reveal_strlit("message");
    assert("ok"@.len() == 2 && "error"@.len() == 5 && "code"@.len() == 4 && "message"@.len() == 7);
    reveal_with_fuel(crate::json::entry, 3);
    JsonTree::Object(
        seq![
            (
                "error"@,
                JsonTree::Object(
                    seq![("code"@, number_tree(exit_code)), ("message"@, JsonTree::Text(message))],
                ),
            ),
            ("ok"@, JsonTree::Bool(false)),
        ],
    )
}

} // verus!
