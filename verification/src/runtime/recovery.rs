//! What becomes of a model that asks for a tool that is not there.

use vstd::prelude::*;
use crate::text::{
    ascii_lower, chars_of, has, join, joined, lemma_place_holds, occurs, place, place_from,
    string_of, to_ascii_lower, views,
};

verus! {

/// The reason that a provider gives is that a tool call was not valid.
pub open spec fn blames_tool_call(reason: Seq<char>) -> bool {
    let lower = ascii_lower(reason);
    ||| occurs(lower, "tool call validation failed"@)
    ||| occurs(lower, "attempted to call tool"@)
    ||| occurs(lower, "request.tools"@)
    ||| occurs(lower, "tool_use_failed"@)
}

pub fn is_invalid_tool_call_reason(reason: &str) -> (r: bool)
    ensures
        r == blames_tool_call(reason@),
{
    let lower = to_ascii_lower(reason);
    has(lower.as_str(), "tool call validation failed") || has(
        lower.as_str(),
        "attempted to call tool",
    ) || has(lower.as_str(), "request.tools") || has(lower.as_str(), "tool_use_failed")
}

/// A character that can stand in the name of a tool.
pub open spec fn in_tool_name(c: char) -> bool {
    ||| 48 <= c as u32 <= 57
    ||| 65 <= c as u32 <= 90
    ||| 97 <= c as u32 <= 122
    ||| c == '-'
    ||| c == '_'
    ||| c == '.'
    ||| c == '/'
}

/// How many characters at the beginning of a text can stand in the name of a tool.
pub open spec fn name_len(s: Seq<char>) -> nat
    decreases s.len(),
{
    if s.len() > 0 && in_tool_name(s[0]) {
        1 + name_len(s.drop_first())
    } else {
        0
    }
}

proof fn lemma_name_len_is(s: Seq<char>, n: int)
    requires
        0 <= n <= s.len(),
        forall|i: int| 0 <= i < n ==> in_tool_name(#[trigger] s[i]),
        n < s.len() ==> !in_tool_name(s[n]),
    ensures
        name_len(s) == n,
    decreases n,
{
    if n > 0 {
        assert(in_tool_name(s[0]));
        let rest = s.drop_first();
        assert forall|i: int| 0 <= i < n - 1 implies in_tool_name(#[trigger] rest[i]) by {
            assert(rest[i] == s[i + 1]);
        }
        lemma_name_len_is(rest, n - 1);
    }
}

/// The name that follows the first occurrence of a marker.
pub open spec fn name_after(reason: Seq<char>, marker: Seq<char>) -> Option<Seq<char>> {
    match place(reason, marker) {
        None => None,
        Some(k) => {
            let tail = reason.skip(k + marker.len());
            let n = name_len(tail);
            if n == 0 {
                None
            } else {
                Some(tail.take(n as int))
            }
        },
    }
}

pub fn extract_tool_name_after_marker(reason: &str, marker: &str) -> (r: Option<String>)
    ensures
        crate::text::opt_view(r) == name_after(reason@, marker@),
{
    let chars = chars_of(reason);
    let pat = chars_of(marker);
    let count: usize = chars.len();
    assert(chars@.skip(0) =~= chars@);
    match place_from(&chars, &pat, 0) {
        None => None,
        Some(k) => {
            let from: usize = k + pat.len();
            let ghost tail = reason@.skip(from as int);
            let mut to: usize = from;
            while to < count
                invariant
                    from <= to <= count,
                    count == chars@.len(),
                    chars@ == reason@,
                    tail == reason@.skip(from as int),
                    forall|i: int| 0 <= i < to - from ==> in_tool_name(#[trigger] tail[i]),
                ensures
                    to < chars@.len() ==> !in_tool_name(chars@[to as int]),
                decreases chars@.len() - to,
            {
                let c: char = chars[to];
                let u: u32 = c as u32;
                let ok = (48 <= u && u <= 57) || (65 <= u && u <= 90) || (97 <= u && u <= 122) || c
                    == '-' || c == '_' || c == '.' || c == '/';
                assert(tail[to - from] == c);
                if !ok {
                    break;
                }
                to = to + 1;
            }
            proof {
                if to < chars@.len() {
                    assert(tail[to - from] == chars@[to as int]);
                }
                lemma_name_len_is(tail, to - from);
            }
            if to == from {
                None
            } else {
                let r = string_of(&chars, from, to);
                assert(r@ =~= tail.take(to - from));
                Some(r)
            }
        },
    }
}

/// The first that is there of two.
pub open spec fn or_else(a: Option<Seq<char>>, b: Option<Seq<char>>) -> Option<Seq<char>> {
    if a is Some {
        a
    } else {
        b
    }
}

/// The tool that the model asked for, as far as the reason tells.
pub open spec fn attempted_tool(reason: Seq<char>) -> Option<Seq<char>> {
    or_else(
        name_after(reason, "attempted to call tool '"@),
        or_else(
            name_after(reason, "attempted to call tool \""@),
            or_else(
                name_after(reason, "\"name\":\""@),
                or_else(
                    name_after(reason, "\"name\": \""@),
                    or_else(name_after(reason, "'name':'"@), name_after(reason, "'name': '"@)),
                ),
            ),
        ),
    )
}

pub fn extract_attempted_tool_name(reason: &str) -> (r: Option<String>)
    ensures
        crate::text::opt_view(r) == attempted_tool(reason@),
{
    if let Some(name) = extract_tool_name_after_marker(reason, "attempted to call tool '") {
        return Some(name);
    }
    if let Some(name) = extract_tool_name_after_marker(reason, "attempted to call tool \"") {
        return Some(name);
    }
    if let Some(name) = extract_tool_name_after_marker(reason, "\"name\":\"") {
        return Some(name);
    }
    if let Some(name) = extract_tool_name_after_marker(reason, "\"name\": \"") {
        return Some(name);
    }
    if let Some(name) = extract_tool_name_after_marker(reason, "'name':'") {
        return Some(name);
    }
    extract_tool_name_after_marker(reason, "'name': '")
}

/// The tool that is said to have been asked for.
pub open spec fn blamed_tool(reason: Seq<char>) -> Seq<char> {
    match attempted_tool(reason) {
        Some(name) => name,
        None => "__invalid_tool__"@,
    }
}

/// The tools that there are, for those who read.
pub open spec fn tools_display(names: Seq<Seq<char>>) -> Seq<char> {
    if names.len() == 0 {
        "none"@
    } else {
        joined(names, ", "@)
    }
}

/// What the model is told in place of the result of a call that was not valid.
pub open spec fn recovery_error(reason: Seq<char>, names: Seq<Seq<char>>) -> Seq<char> {
    "Tool '"@ + blamed_tool(reason) + "' is unavailable or invalid. Available tools: "@
        + tools_display(names) + ". Original error: "@ + reason
}

pub(crate) fn blamed_tool_name(reason: &str) -> (r: String)
    ensures
        r@ == blamed_tool(reason@),
{
    match extract_attempted_tool_name(reason) {
        Some(name) => name,
        None => "__invalid_tool__".to_owned(),
    }
}

/// What the model is told of the call of a tool that is not there.
pub fn recovery_message(reason: &str, names: &Vec<String>) -> (r: String)
    ensures
        r@ == recovery_error(reason@, views(names@)),
{
    let display = if names.len() == 0 {
        "none".to_owned()
    } else {
        join(names, ", ")
    };
    let mut text = crate::text::cat3(
        "Tool '",
        blamed_tool_name(reason).as_str(),
        "' is unavailable or invalid. Available tools: ",
    );
    text.append(display.as_str());
    text.append(". Original error: ");
    text.append(reason);
    text
}

/// A name that was found is made of characters that can stand in one, and is not empty.
pub proof fn found_names_are_names(reason: Seq<char>, marker: Seq<char>)
    ensures
        name_after(reason, marker) matches Some(name) ==> name.len() > 0 && forall|i: int|
            0 <= i < name.len() ==> in_tool_name(#[trigger] name[i]),
{
    lemma_place_holds(reason, marker);
    if let Some(k) = place(reason, marker) {
        lemma_name_len(reason.skip(k + marker.len()));
    }
}

proof fn lemma_name_len(s: Seq<char>)
    ensures
        name_len(s) <= s.len(),
        forall|i: int| 0 <= i < name_len(s) ==> in_tool_name(#[trigger] s[i]),
    decreases s.len(),
{
    if s.len() > 0 && in_tool_name(s[0]) {
        let rest = s.drop_first();
        lemma_name_len(rest);
        assert forall|i: int| 0 <= i < name_len(s) implies in_tool_name(#[trigger] s[i]) by {
            if i > 0 {
                assert(rest[i - 1] == s[i]);
            }
        }
    }
}

/// A reason blames a tool call where it has one of four phrases in it, in letters of any case.
pub proof fn phrases_blame_tool_calls(reason: Seq<char>, other: Seq<char>)
    ensures
        blames_tool_call(reason) <==> (occurs(ascii_lower(reason), "tool call validation failed"@)
            || occurs(ascii_lower(reason), "attempted to call tool"@) || occurs(
            ascii_lower(reason),
            "request.tools"@,
        ) || occurs(ascii_lower(reason), "tool_use_failed"@)),
        ascii_lower(reason) == ascii_lower(other) ==> blames_tool_call(reason) == blames_tool_call(
            other,
        ),
{
}

/// A name consists of letters, digits, dashes, underscores, dots and slashes.
pub proof fn characters_of_names(c: char)
    ensures
        in_tool_name(c) <==> ('0' as u32 <= c as u32 <= '9' as u32 || 'a' as u32 <= c as u32
            <= 'z' as u32 || 'A' as u32 <= c as u32 <= 'Z' as u32 || c == '-' || c == '_' || c == '.'
            || c == '/'),
{
}

proof fn lemma_name_ends(name: Seq<char>, after: Seq<char>)
    requires
        forall|i: int| 0 <= i < name.len() ==> in_tool_name(#[trigger] name[i]),
        after.len() == 0 || !in_tool_name(after[0]),
    ensures
        name_len(name + after) == name.len(),
    decreases name.len(),
{
    let s = name + after;
    if name.len() > 0 {
        let rest = name.drop_first();
        assert forall|i: int| 0 <= i < rest.len() implies in_tool_name(#[trigger] rest[i]) by {
            assert(rest[i] == name[i + 1]);
        }
        lemma_name_ends(rest, after);
        assert(s.drop_first() =~= rest + after);
        assert(in_tool_name(name[0]));
        assert(s[0] == name[0]);
    } else if after.len() > 0 {
        assert(s[0] == after[0]);
    }
}

/// The name behind the first place of a marker is found, up to the first character that no name has;
/// where there is no such name, or no marker, nothing is.
pub proof fn names_stand_behind_markers(
    before: Seq<char>,
    marker: Seq<char>,
    name: Seq<char>,
    after: Seq<char>,
)
    requires
        forall|i: int|
            0 <= i < before.len() ==> #[trigger] (before + marker + name + after).subrange(
                i,
                i + marker.len(),
            ) != marker,
        forall|i: int| 0 <= i < name.len() ==> in_tool_name(#[trigger] name[i]),
        after.len() == 0 || !in_tool_name(after[0]),
    ensures
        name.len() > 0 ==> name_after(before + marker + name + after, marker) == Some(name),
        name.len() == 0 ==> name_after(before + marker + name + after, marker) is None,
{
    let s = before + marker + name + after;
    let k = before.len() as int;
    assert(s.subrange(k, k + marker.len()) =~= marker);
    assert forall|j: int| 0 <= j < k implies !crate::text::occurs_at(s, marker, j) by {
        assert((before + marker + name + after).subrange(j, j + marker.len()) != marker);
    }
    crate::text::lemma_place_is(s, marker, k);
    assert(s.skip(k + marker.len()) =~= name + after);
    lemma_name_ends(name, after);
    assert((name + after).take(name.len() as int) =~= name);
}

/// Without the marker there is no name behind it.
pub proof fn no_marker_no_name(reason: Seq<char>, marker: Seq<char>)
    requires
        forall|i: int|
            0 <= i && i + marker.len() <= reason.len() ==> #[trigger] reason.subrange(
                i,
                i + marker.len(),
            ) != marker,
    ensures
        name_after(reason, marker) is None,
{
    assert forall|j: int| 0 <= j implies !crate::text::occurs_at(reason, marker, j) by {
        if j + marker.len() <= reason.len() {
            assert(reason.subrange(j, j + marker.len()) != marker);
        }
    }
    crate::text::lemma_place_none(reason, marker);
}

/// What was tried to be called is looked for in quotes first, then as a name in an object, and the
/// first that is found counts.
pub proof fn the_first_name_found_counts(reason: Seq<char>)
    ensures
        ({
            let a = name_after(reason, "attempted to call tool '"@);
            let b = name_after(reason, "attempted to call tool \""@);
            let c = name_after(reason, "\"name\":\""@);
            let d = name_after(reason, "\"name\": \""@);
            let e = name_after(reason, "'name':'"@);
            let f = name_after(reason, "'name': '"@);
            &&& a is Some ==> attempted_tool(reason) == a
            &&& a is None && b is Some ==> attempted_tool(reason) == b
            &&& a is None && b is None && c is Some ==> attempted_tool(reason) == c
            &&& a is None && b is None && c is None && d is Some ==> attempted_tool(reason) == d
            &&& a is None && b is None && c is None && d is None && e is Some ==> attempted_tool(
                reason,
            ) == e
            &&& a is None && b is None && c is None && d is None && e is None ==> attempted_tool(
                reason,
            ) == f
        }),
{
}

/// The model is told which tool is not there, which there are, and what went wrong.
pub proof fn refusals_name_the_tools(reason: Seq<char>, names: Seq<Seq<char>>, name: Seq<char>)
    ensures
        attempted_tool(reason) == Some(name) && names.len() > 0 ==> recovery_error(reason, names)
            == "Tool '"@ + name + "' is unavailable or invalid. Available tools: "@ + joined(
            names,
            ", "@,
        ) + ". Original error: "@ + reason,
        attempted_tool(reason) is None && names.len() > 0 ==> recovery_error(reason, names)
            == "Tool '"@ + "__invalid_tool__"@
            + "' is unavailable or invalid. Available tools: "@ + joined(names, ", "@)
            + ". Original error: "@ + reason,
        attempted_tool(reason) == Some(name) && names.len() == 0 ==> recovery_error(reason, names)
            == "Tool '"@ + name + "' is unavailable or invalid. Available tools: "@ + "none"@
            + ". Original error: "@ + reason,
        attempted_tool(reason) is None ==> blamed_tool(reason) == "__invalid_tool__"@,
        attempted_tool(reason) == Some(name) ==> blamed_tool(reason) == name,
{
}

} // verus!
