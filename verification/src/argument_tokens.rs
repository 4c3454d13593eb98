//! Tokens in the arguments of tool calls: `{{NAME}}` stands for a value that is put in later.

use vstd::prelude::*;
use crate::json::{lemma_entry_is_smaller, lemma_item_is_smaller, Json, JsonTree};
use crate::named::Named;
use crate::text::{
    cat3, chars_of, deduped, in_order, lemma_place_holds, place, place_from, same, sort_and_dedup,
    string_of, substitute, substituted, views,
};

verus! {

pub const USER_QUERY_TOKEN: &'static str = "{{USER_QUERY}}";

/// A text with the tokens of a list replaced, one after the other.
pub open spec fn with_tokens(text: Seq<char>, tokens: Seq<(Seq<char>, Seq<char>)>) -> Seq<char>
    decreases tokens.len(),
{
    if tokens.len() == 0 {
        text
    } else {
        substituted(
            with_tokens(text, tokens.drop_last()),
            tokens.last().0,
            tokens.last().1,
        )
    }
}

/// A document with the tokens of a list replaced in each of its texts. The keys of objects stay
/// as they are.
pub open spec fn expanded(value: JsonTree, tokens: Seq<(Seq<char>, Seq<char>)>) -> JsonTree
    decreases value,
{
    match value {
        JsonTree::Text(text) => JsonTree::Text(with_tokens(text, tokens)),
        JsonTree::Array(items) => JsonTree::Array(expanded_items(items, tokens)),
        JsonTree::Object(entries) => JsonTree::Object(expanded_entries(entries, tokens)),
        _ => value,
    }
}

/// Each document of a list with the tokens replaced.
pub open spec fn expanded_items(
    items: Seq<JsonTree>,
    tokens: Seq<(Seq<char>, Seq<char>)>,
) -> Seq<JsonTree>
    decreases items,
{
    if items.len() == 0 {
        Seq::empty()
    } else {
        expanded_items(items.drop_last(), tokens).push(expanded(items.last(), tokens))
    }
}

/// Each entry of an object with the tokens replaced in its value.
pub open spec fn expanded_entries(
    entries: Seq<(Seq<char>, JsonTree)>,
    tokens: Seq<(Seq<char>, Seq<char>)>,
) -> Seq<(Seq<char>, JsonTree)>
    decreases entries,
{
    if entries.len() == 0 {
        Seq::empty()
    } else {
        expanded_entries(entries.drop_last(), tokens).push(
            (entries.last().0, expanded(entries.last().1, tokens)),
        )
    }
}

/// The names and values of a list, as text.
pub open spec fn pairs(list: Seq<(String, String)>) -> Seq<(Seq<char>, Seq<char>)> {
    Seq::new(list.len(), |i: int| (list[i].0@, list[i].1@))
}

fn replace_tokens(text: &str, tokens: &Named<String>) -> (r: String)
    ensures
        r@ == with_tokens(text@, pairs(tokens.list())),
{
    let ghost all = pairs(tokens.list());
    let mut out = text.to_owned();
    let mut i: usize = 0;
    assert(all.take(0) =~= Seq::empty());
    while i < tokens.len()
        invariant
            i <= tokens.list().len(),
            all == pairs(tokens.list()),
            out@ == with_tokens(text@, all.take(i as int)),
        decreases tokens.list().len() - i,
    {
        assert(all.take(i + 1).drop_last() =~= all.take(i as int));
        assert(all.take(i + 1).last() == all[i as int]);
        let token = tokens.at(i);
        out = substitute(out.as_str(), token.0.as_str(), token.1.as_str());
        i = i + 1;
    }
    assert(all.take(i as int) =~= all);
    out
}

/// Expand all recognized argument tokens in a JSON value, in the order in which they are listed.
///
/// Strings support interpolation (token can appear anywhere in the string).
/// Objects/arrays are traversed recursively.
pub fn expand_tokens(value: &Json, tokens: &Named<String>) -> (r: Json)
    ensures
        r@ == expanded(value@, pairs(tokens.list())),
    decreases value,
{
    let ghost list = pairs(tokens.list());
    match value {
        Json::Text(text) => Json::Text(replace_tokens(text.as_str(), tokens)),
        Json::Array(items) => {
            let ghost all = value@->Array_0;
            let mut out: Vec<Json> = Vec::new();
            let mut i: usize = 0;
            assert(all.take(0) =~= Seq::empty());
            assert(crate::json::json_views(out@) =~= Seq::empty());
            while i < items.len()
                invariant
                    i <= items@.len(),
                    *value == Json::Array(*items),
                    all == value@->Array_0,
                    list == pairs(tokens.list()),
                    crate::json::json_views(out@) == expanded_items(all.take(i as int), list),
                decreases items@.len() - i,
            {
                proof {
                    lemma_item_is_smaller(*value, i as int);
                    assert(all.take(i + 1).drop_last() =~= all.take(i as int));
                    assert(all.take(i + 1).last() == items@[i as int]@);
                }
                let ghost before = out@;
                let item = expand_tokens(&items[i], tokens);
                out.push(item);
                assert(crate::json::json_views(out@) =~= crate::json::json_views(before).push(
                    item@,
                ));
                i = i + 1;
            }
            assert(all.take(i as int) =~= all);
            let r = Json::Array(out);
            assert(r@->Array_0 =~= crate::json::json_views(out@));
            r
        },
        Json::Object(entries) => {
            let ghost all = value@->Object_0;
            let mut out: Vec<(String, Json)> = Vec::new();
            let mut i: usize = 0;
            assert(all.take(0) =~= Seq::empty());
            assert(crate::json::entry_views(out@) =~= Seq::empty());
            while i < entries.len()
                invariant
                    i <= entries@.len(),
                    *value == Json::Object(*entries),
                    all == value@->Object_0,
                    list == pairs(tokens.list()),
                    crate::json::entry_views(out@) == expanded_entries(all.take(i as int), list),
                decreases entries@.len() - i,
            {
                proof {
                    lemma_entry_is_smaller(*value, i as int);
                    assert(all.take(i + 1).drop_last() =~= all.take(i as int));
                    assert(all.take(i + 1).last() == (
                        entries@[i as int].0@,
                        entries@[i as int].1@,
                    ));
                }
                let ghost before = out@;
                let key = entries[i].0.clone();
                let item = expand_tokens(&entries[i].1, tokens);
                out.push((key, item));
                assert(crate::json::entry_views(out@) =~= crate::json::entry_views(before).push(
                    (key@, item@),
                ));
                i = i + 1;
            }
            assert(all.take(i as int) =~= all);
            let r = Json::Object(out);
            assert(r@->Object_0 =~= crate::json::entry_views(out@));
            r
        },
        _ => value.copy(),
    }
}

/// Puts what the user asked in place of its token.
pub fn expand_user_query_tokens(value: &Json, user_query: &str) -> (r: Json)
    ensures
        r@ == expanded(value@, seq![(USER_QUERY_TOKEN@, user_query@)]),
{
    let mut tokens: Named<String> = Named::new();
    tokens.append(USER_QUERY_TOKEN.to_owned(), user_query.to_owned());
    assert(pairs(tokens.list()) =~= seq![(USER_QUERY_TOKEN@, user_query@)]);
    expand_tokens(value, &tokens)
}

/// The names between double braces in a text, from the front on. The name of what the user asked
/// is left out, and so is the empty one.
pub open spec fn text_handles(text: Seq<char>) -> Seq<Seq<char>>
    decreases text.len(),
    via text_handles_shrinks
{
    match place(text, "{{"@) {
        None => Seq::empty(),
        Some(start) => {
            let after = text.skip(start + "{{"@.len());
            match place(after, "}}"@) {
                None => Seq::empty(),
                Some(end) => {
                    let handle = after.take(end as int);
                    let rest = text_handles(after.skip(end + "}}"@.len()));
                    if handle != "USER_QUERY"@ && handle.len() > 0 {
                        seq![handle] + rest
                    } else {
                        rest
                    }
                },
            }
        },
    }
}

#[via_fn]
proof fn text_handles_shrinks(text: Seq<char>) {
    reveal_strlit("{{");
    reveal_strlit("}}");
    lemma_place_holds(text, "{{"@);
    if let Some(start) = place(text, "{{"@) {
        lemma_place_holds(text.skip(start + 2), "}}"@);
    }
}

/// The names between double braces in the texts of a document, in the order in which they stand.
pub open spec fn handles(value: JsonTree) -> Seq<Seq<char>>
    decreases value,
{
    match value {
        JsonTree::Text(text) => text_handles(text),
        JsonTree::Array(items) => items_handles(items),
        JsonTree::Object(entries) => entries_handles(entries),
        _ => Seq::empty(),
    }
}

/// The names between double braces in a list of documents.
pub open spec fn items_handles(items: Seq<JsonTree>) -> Seq<Seq<char>>
    decreases items,
{
    if items.len() == 0 {
        Seq::empty()
    } else {
        items_handles(items.drop_last()) + handles(items.last())
    }
}

/// The names between double braces in the values of an object.
pub open spec fn entries_handles(entries: Seq<(Seq<char>, JsonTree)>) -> Seq<Seq<char>>
    decreases entries,
{
    if entries.len() == 0 {
        Seq::empty()
    } else {
        entries_handles(entries.drop_last()) + handles(entries.last().1)
    }
}

fn collect_text_handles(text: &str, out: &mut Vec<String>)
    ensures
        views(final(out)@) == views(old(out)@) + text_handles(text@),
{
    let chars = chars_of(text);
    let open = chars_of("{{");
    let close = chars_of("}}");
    proof {
        reveal_strlit("{{");
        reveal_strlit("}}");
        assert(chars@.skip(0) =~= chars@);
    }
    let ghost had = views(out@);
    let count: usize = chars.len();
    let mut from: usize = 0;
    assert(had =~= had + Seq::<Seq<char>>::empty());
    loop
        invariant
            from <= chars@.len(),
            count == chars@.len(),
            open@ == "{{"@,
            close@ == "}}"@,
            open@.len() == 2,
            close@.len() == 2,
            chars@ == text@,
            had + text_handles(text@) == views(out@) + text_handles(chars@.skip(from as int)),
        ensures
            views(out@) == had + text_handles(text@),
        decreases chars@.len() - from,
    {
        let ghost rest = chars@.skip(from as int);
        match place_from(&chars, &open, from) {
            None => {
                assert(views(out@) + text_handles(rest) =~= views(out@));
                break;
            },
            Some(start) => {
                let begin: usize = from + start + 2;
                let ghost after = rest.skip(start + 2);
                assert(after =~= chars@.skip(begin as int));
                match place_from(&chars, &close, begin) {
                    None => {
                        assert(views(out@) + text_handles(rest) =~= views(out@));
                        break;
                    },
                    Some(end) => {
                        let handle = string_of(&chars, begin, begin + end);
                        assert(handle@ =~= after.take(end as int));
                        assert(after.skip(end + 2) =~= chars@.skip(begin + end + 2));
                        let ghost before = views(out@);
                        let ghost later = text_handles(chars@.skip(begin + end + 2));
                        if !same(handle.as_str(), "USER_QUERY") && end > 0 {
                            out.push(handle);
                            assert(views(out@) =~= before.push(handle@));
                            assert(before + (seq![handle@] + later) =~= views(out@) + later);
                        }
                        from = begin + end + 2;
                    },
                }
            },
        }
    }
}

fn collect_handle_refs(value: &Json, out: &mut Vec<String>)
    ensures
        views(final(out)@) == views(old(out)@) + handles(value@),
    decreases value,
{
    let ghost had = views(out@);
    match value {
        Json::Text(text) => {
            collect_text_handles(text.as_str(), out);
        },
        Json::Array(items) => {
            let ghost all = value@->Array_0;
            let mut i: usize = 0;
            assert(all.take(0) =~= Seq::empty());
            assert(had + items_handles(all.take(0)) =~= had);
            while i < items.len()
                invariant
                    i <= items@.len(),
                    *value == Json::Array(*items),
                    all == value@->Array_0,
                    views(out@) == had + items_handles(all.take(i as int)),
                decreases items@.len() - i,
            {
                proof {
                    lemma_item_is_smaller(*value, i as int);
                    assert(all.take(i + 1).drop_last() =~= all.take(i as int));
                    assert(all.take(i + 1).last() == items@[i as int]@);
                }
                let ghost before = views(out@);
                collect_handle_refs(&items[i], out);
                assert(views(out@) =~= had + (items_handles(all.take(i as int)) + handles(
                    items@[i as int]@,
                )));
                i = i + 1;
            }
            assert(all.take(i as int) =~= all);
        },
        Json::Object(entries) => {
            let ghost all = value@->Object_0;
            let mut i: usize = 0;
            assert(all.take(0) =~= Seq::empty());
            assert(had + entries_handles(all.take(0)) =~= had);
            while i < entries.len()
                invariant
                    i <= entries@.len(),
                    *value == Json::Object(*entries),
                    all == value@->Object_0,
                    views(out@) == had + entries_handles(all.take(i as int)),
                decreases entries@.len() - i,
            {
                proof {
                    lemma_entry_is_smaller(*value, i as int);
                    assert(all.take(i + 1).drop_last() =~= all.take(i as int));
                    assert(all.take(i + 1).last() == (
                        entries@[i as int].0@,
                        entries@[i as int].1@,
                    ));
                }
                collect_handle_refs(&entries[i].1, out);
                assert(views(out@) =~= had + (entries_handles(all.take(i as int)) + handles(
                    entries@[i as int].1@,
                )));
                i = i + 1;
            }
            assert(all.take(i as int) =~= all);
        },
        _ => {
            assert(had + handles(value@) =~= had);
        },
    }
}

/// Extract all `{{HANDLE}}` references from a JSON value's string fields.
///
/// Returns deduplicated handle names (without the `{{` `}}` delimiters), in order.
/// Used by tool brokers to resolve secret handles before tool execution.
pub fn extract_handle_refs(value: &Json) -> (r: Vec<String>)
    ensures
        views(r@) == deduped(in_order(handles(value@))),
{
    let mut refs: Vec<String> = Vec::new();
    collect_handle_refs(value, &mut refs);
    assert(Seq::<Seq<char>>::empty() + handles(value@) =~= handles(value@));
    assert(views(refs@) =~= handles(value@));
    sort_and_dedup(&refs)
}

/// A name between double braces.
pub open spec fn braced(handle: Seq<char>) -> Seq<char> {
    "{{"@ + handle + "}}"@
}

/// The names of a list between double braces, each with its value.
pub open spec fn braced_pairs(list: Seq<(String, String)>) -> Seq<(Seq<char>, Seq<char>)> {
    Seq::new(list.len(), |i: int| (braced(list[i].0@), list[i].1@))
}

/// Expand resolved secret handles in tool call arguments.
///
/// Takes a map of handle_name to plaintext_value and replaces all `{{handle_name}}`
/// occurrences in the JSON value, in the order in which the names are listed. The plaintext
/// appears only in the tool call arguments, never in conversation context.
pub fn expand_secret_handles(value: &Json, resolved: &Named<String>) -> (r: Json)
    ensures
        r@ == expanded(value@, braced_pairs(resolved.list())),
{
    let mut tokens: Named<String> = Named::new();
    let mut i: usize = 0;
    assert(pairs(tokens.list()) =~= braced_pairs(resolved.list()).take(0));
    proof {
        reveal_strlit("{{");
        reveal_strlit("}}");
    }
    while i < resolved.len()
        invariant
            i <= resolved.list().len(),
            "{{"@.len() == 2,
            "}}"@.len() == 2,
            tokens.list().len() == i,
            pairs(tokens.list()) == braced_pairs(resolved.list()).take(i as int),
            forall|k: int|
                0 <= k < i ==> (#[trigger] tokens.list()[k]).0@ == braced(resolved.list()[k].0@),
        decreases resolved.list().len() - i,
    {
        let handle = resolved.at(i);
        let token = cat3("{{", handle.0.as_str(), "}}");
        proof {
            assert forall|k: int| 0 <= k < tokens.list().len() implies (
            #[trigger] tokens.list()[k]).0@ != token@ by {
                let a = resolved.list()[k].0@;
                let b = handle.0@;
                assert(a != b);
                assert(braced(a).subrange(2, braced(a).len() - 2) =~= a);
                assert(braced(b).subrange(2, braced(b).len() - 2) =~= b);
            }
        }
        tokens.append(token, handle.1.clone());
        i = i + 1;
        assert(pairs(tokens.list()) =~= braced_pairs(resolved.list()).take(i as int));
    }
    assert(braced_pairs(resolved.list()).take(i as int) =~= braced_pairs(resolved.list()));
    expand_tokens(value, &tokens)
}

/// Without a token there is nothing to replace.
pub proof fn no_tokens_change_nothing(value: JsonTree)
    ensures
        expanded(value, Seq::empty()) == value,
    decreases value,
{
    match value {
        JsonTree::Array(items) => {
            no_tokens_keep_items(items);
        },
        JsonTree::Object(entries) => {
            no_tokens_keep_entries(entries);
        },
        _ => {},
    }
}

proof fn no_tokens_keep_items(items: Seq<JsonTree>)
    ensures
        expanded_items(items, Seq::empty()) == items,
    decreases items,
{
    if items.len() > 0 {
        no_tokens_keep_items(items.drop_last());
        no_tokens_change_nothing(items.last());
        assert(items.drop_last().push(items.last()) =~= items);
    }
}

proof fn no_tokens_keep_entries(entries: Seq<(Seq<char>, JsonTree)>)
    ensures
        expanded_entries(entries, Seq::empty()) == entries,
    decreases entries,
{
    if entries.len() > 0 {
        no_tokens_keep_entries(entries.drop_last());
        no_tokens_change_nothing(entries.last().1);
        assert(entries.drop_last().push(entries.last()) =~= entries);
    }
}

/// Expanding keeps the shape of a document: an array keeps its length and an object its keys.
pub proof fn expanding_keeps_the_shape(value: JsonTree, tokens: Seq<(Seq<char>, Seq<char>)>)
    ensures
        expanded(value, tokens).items().len() == value.items().len(),
        expanded(value, tokens).keys() == value.keys(),
{
    match value {
        JsonTree::Array(items) => {
            lemma_items_len(items, tokens);
        },
        JsonTree::Object(entries) => {
            lemma_entries_keys(entries, tokens);
            assert(expanded(value, tokens).keys() =~= value.keys());
        },
        _ => {},
    }
}

proof fn lemma_items_len(items: Seq<JsonTree>, tokens: Seq<(Seq<char>, Seq<char>)>)
    ensures
        expanded_items(items, tokens).len() == items.len(),
    decreases items.len(),
{
    if items.len() > 0 {
        lemma_items_len(items.drop_last(), tokens);
    }
}

proof fn lemma_entries_keys(
    entries: Seq<(Seq<char>, JsonTree)>,
    tokens: Seq<(Seq<char>, Seq<char>)>,
)
    ensures
        expanded_entries(entries, tokens).len() == entries.len(),
        forall|i: int|
            0 <= i < entries.len() ==> (#[trigger] expanded_entries(entries, tokens)[i]).0
                == entries[i].0,
    decreases entries.len(),
{
    if entries.len() > 0 {
        lemma_entries_keys(entries.drop_last(), tokens);
    }
}

/// A text in which no name stands between double braces asks for no value.
pub proof fn plain_text_has_no_handles(text: Seq<char>)
    requires
        place(text, "{{"@) is None,
    ensures
        handles(JsonTree::Text(text)) == Seq::<Seq<char>>::empty(),
{
}

/// What is found in a document on a way that names, step by step, the place of an item or an entry.
pub open spec fn reached(value: JsonTree, way: Seq<int>) -> Option<JsonTree>
    decreases way.len(),
{
    if way.len() == 0 {
        Some(value)
    } else {
        match value {
            JsonTree::Array(items) => if 0 <= way[0] < items.len() {
                reached(items[way[0]], way.drop_first())
            } else {
                None
            },
            JsonTree::Object(entries) => if 0 <= way[0] < entries.len() {
                reached(entries[way[0]].1, way.drop_first())
            } else {
                None
            },
            _ => None,
        }
    }
}

proof fn lemma_items(items: Seq<JsonTree>, tokens: Seq<(Seq<char>, Seq<char>)>)
    ensures
        expanded_items(items, tokens).len() == items.len(),
        forall|i: int|
            0 <= i < items.len() ==> (#[trigger] expanded_items(items, tokens)[i]) == expanded(
                items[i],
                tokens,
            ),
    decreases items.len(),
{
    if items.len() > 0 {
        lemma_items(items.drop_last(), tokens);
    }
}

proof fn lemma_entries(
    entries: Seq<(Seq<char>, JsonTree)>,
    tokens: Seq<(Seq<char>, Seq<char>)>,
)
    ensures
        expanded_entries(entries, tokens).len() == entries.len(),
        forall|i: int|
            0 <= i < entries.len() ==> (#[trigger] expanded_entries(entries, tokens)[i]) == (
                entries[i].0,
                expanded(entries[i].1, tokens),
            ),
    decreases entries.len(),
{
    if entries.len() > 0 {
        lemma_entries(entries.drop_last(), tokens);
    }
}

/// Each part of a document is expanded as it is when it stands alone: the items of an array, the
/// values of an object under their keys, and a text with the tokens put in one after the other. What
/// is neither stays as it is.
pub proof fn parts_are_expanded_alike(value: JsonTree, tokens: Seq<(Seq<char>, Seq<char>)>)
    ensures
        match value {
            JsonTree::Array(items) => expanded(value, tokens) is Array && expanded(
                value,
                tokens,
            )->Array_0.len() == items.len() && forall|i: int|
                0 <= i < items.len() ==> (#[trigger] expanded(value, tokens)->Array_0[i])
                    == expanded(items[i], tokens),
            JsonTree::Object(entries) => expanded(value, tokens) is Object && expanded(
                value,
                tokens,
            )->Object_0.len() == entries.len() && forall|i: int|
                0 <= i < entries.len() ==> (#[trigger] expanded(value, tokens)->Object_0[i]) == (
                    entries[i].0,
                    expanded(entries[i].1, tokens),
                ),
            JsonTree::Text(text) => expanded(value, tokens) is Text && (tokens.len() == 0
                ==> expanded(value, tokens) == value) && (tokens.len() > 0 ==> expanded(
                value,
                tokens,
            ) == JsonTree::Text(
                substituted(
                    expanded(value, tokens.drop_last())->Text_0,
                    tokens.last().0,
                    tokens.last().1,
                ),
            )),
            _ => expanded(value, tokens) == value,
        },
{
    match value {
        JsonTree::Array(items) => lemma_items(items, tokens),
        JsonTree::Object(entries) => lemma_entries(entries, tokens),
        _ => {},
    }
}

/// However deep a text stands in a document, through arrays and objects in any nesting, the expanded
/// document holds there what the text alone expands to, and what is no text is where it was.
pub proof fn texts_are_expanded_everywhere(
    value: JsonTree,
    tokens: Seq<(Seq<char>, Seq<char>)>,
    way: Seq<int>,
)
    ensures
        match reached(value, way) {
            Some(part) => reached(expanded(value, tokens), way) == Some(expanded(part, tokens)),
            None => reached(expanded(value, tokens), way) is None,
        },
    decreases way.len(),
{
    if way.len() > 0 {
        match value {
            JsonTree::Array(items) => {
                lemma_items(items, tokens);
                if 0 <= way[0] < items.len() {
                    texts_are_expanded_everywhere(items[way[0]], tokens, way.drop_first());
                }
            },
            JsonTree::Object(entries) => {
                lemma_entries(entries, tokens);
                if 0 <= way[0] < entries.len() {
                    texts_are_expanded_everywhere(entries[way[0]].1, tokens, way.drop_first());
                }
            },
            _ => {},
        }
    }
}

/// A token in a text gives way to its value; all around it stays, but for further places where the
/// token stands behind it.
pub proof fn tokens_give_way_to_their_values(
    before: Seq<char>,
    token: Seq<char>,
    after: Seq<char>,
    value: Seq<char>,
)
    requires
        token.len() > 0,
        forall|i: int|
            0 <= i < before.len() ==> #[trigger] (before + token + after).subrange(
                i,
                i + token.len(),
            ) != token,
        forall|i: int|
            0 <= i && i + token.len() <= after.len() ==> #[trigger] after.subrange(
                i,
                i + token.len(),
            ) != token,
    ensures
        expanded(JsonTree::Text(before + token + after), seq![(token, value)]) == JsonTree::Text(
            before + value + after,
        ),
{
    let tokens = seq![(token, value)];
    crate::text::replacing_begins_at_the_first_place(before, token, after, value);
    crate::text::replacing_what_is_not_there(after, token, value);
    assert(tokens.drop_last() =~= Seq::empty());
    assert(tokens.last() == (token, value));
    reveal_with_fuel(with_tokens, 2);
}

/// The first name between double braces in a text comes first, unless it is empty or that of what
/// the user asked; then come those behind it.
pub proof fn names_are_read_from_the_front(
    before: Seq<char>,
    name: Seq<char>,
    after: Seq<char>,
)
    requires
        forall|i: int|
            0 <= i < before.len() ==> #[trigger] (before + "{{"@ + name + "}}"@ + after).subrange(
                i,
                i + 2,
            ) != "{{"@,
        forall|i: int|
            0 <= i < name.len() ==> #[trigger] (name + "}}"@ + after).subrange(i, i + 2) != "}}"@,
    ensures
        handles(JsonTree::Text(before + "{{"@ + name + "}}"@ + after)) == (if name.len() > 0 && name
            != "USER_QUERY"@ {
            seq![name]
        } else {
            Seq::empty()
        }) + handles(JsonTree::Text(after)),
{
    reveal_strlit("{{");
    reveal_strlit("}}");
    let text = before + "{{"@ + name + "}}"@ + after;
    let n = before.len() as int;
    assert(text.subrange(n, n + 2) =~= "{{"@);
    assert forall|j: int| 0 <= j < n implies !crate::text::occurs_at(text, "{{"@, j) by {
        assert(text.subrange(j, j + 2) != "{{"@);
    }
    crate::text::lemma_place_is(text, "{{"@, n);
    let rest = text.skip(n + 2);
    let tail = name + "}}"@ + after;
    assert(rest =~= tail);
    let m = name.len() as int;
    assert(tail.subrange(m, m + 2) =~= "}}"@);
    assert forall|j: int| 0 <= j < m implies !crate::text::occurs_at(tail, "}}"@, j) by {
        assert(tail.subrange(j, j + 2) != "}}"@);
    }
    crate::text::lemma_place_is(tail, "}}"@, m);
    assert(tail.take(m) =~= name);
    assert(tail.skip(m + 2) =~= after);
    assert(Seq::<Seq<char>>::empty() + text_handles(after) =~= text_handles(after));
}

proof fn lemma_items_names(items: Seq<JsonTree>, name: Seq<char>)
    ensures
        items_handles(items).contains(name) <==> exists|i: int|
            0 <= i < items.len() && handles(#[trigger] items[i]).contains(name),
    decreases items.len(),
{
    if items.len() > 0 {
        let front = items.drop_last();
        let a = items_handles(front);
        let b = handles(items.last());
        lemma_items_names(front, name);
        lemma_contains_add(a, b, name);
        if exists|i: int| 0 <= i < items.len() && handles(#[trigger] items[i]).contains(name) {
            let i = choose|i: int| 0 <= i < items.len() && handles(#[trigger] items[i]).contains(name);
            if i < front.len() {
                assert(front[i] == items[i]);
            }
        }
        if a.contains(name) {
            let i = choose|i: int| 0 <= i < front.len() && handles(#[trigger] front[i]).contains(name);
            assert(items[i] == front[i]);
        }
        if b.contains(name) {
            assert(handles(items[items.len() - 1]).contains(name));
        }
    }
}

proof fn lemma_entries_names(entries: Seq<(Seq<char>, JsonTree)>, name: Seq<char>)
    ensures
        entries_handles(entries).contains(name) <==> exists|i: int|
            0 <= i < entries.len() && handles((#[trigger] entries[i]).1).contains(name),
    decreases entries.len(),
{
    if entries.len() > 0 {
        let front = entries.drop_last();
        let a = entries_handles(front);
        let b = handles(entries.last().1);
        lemma_entries_names(front, name);
        lemma_contains_add(a, b, name);
        if exists|i: int| 0 <= i < entries.len() && handles((#[trigger] entries[i]).1).contains(name) {
            let i = choose|i: int|
                0 <= i < entries.len() && handles((#[trigger] entries[i]).1).contains(name);
            if i < front.len() {
                assert(front[i] == entries[i]);
            }
        }
        if a.contains(name) {
            let i = choose|i: int|
                0 <= i < front.len() && handles((#[trigger] front[i]).1).contains(name);
            assert(entries[i] == front[i]);
        }
        if b.contains(name) {
            assert(handles(entries[entries.len() - 1].1).contains(name));
        }
    }
}

proof fn lemma_contains_add(a: Seq<Seq<char>>, b: Seq<Seq<char>>, x: Seq<char>)
    ensures
        (a + b).contains(x) <==> a.contains(x) || b.contains(x),
{
    if a.contains(x) {
        let i = choose|i: int| 0 <= i < a.len() && a[i] == x;
        assert((a + b)[i] == x);
    }
    if b.contains(x) {
        let i = choose|i: int| 0 <= i < b.len() && b[i] == x;
        assert((a + b)[a.len() + i] == x);
    }
    if (a + b).contains(x) {
        let i = choose|i: int| 0 <= i < (a + b).len() && (a + b)[i] == x;
        if i < a.len() {
            assert(a[i] == x);
        } else {
            assert(b[i - a.len()] == x);
        }
    }
}

/// A document asks for the names that its texts ask for, however deep they stand.
pub proof fn names_are_found_everywhere(value: JsonTree, way: Seq<int>, name: Seq<char>)
    requires
        reached(value, way) is Some,
        handles(reached(value, way)->0).contains(name),
    ensures
        handles(value).contains(name),
    decreases way.len(),
{
    if way.len() > 0 {
        match value {
            JsonTree::Array(items) => {
                names_are_found_everywhere(items[way[0]], way.drop_first(), name);
                lemma_items_names(items, name);
            },
            JsonTree::Object(entries) => {
                names_are_found_everywhere(entries[way[0]].1, way.drop_first(), name);
                lemma_entries_names(entries, name);
            },
            _ => {},
        }
    }
}

/// A document asks for no other names: each stands in a part of it.
pub proof fn names_stand_in_parts(value: JsonTree, name: Seq<char>)
    requires
        handles(value).contains(name),
    ensures
        match value {
            JsonTree::Text(_) => true,
            JsonTree::Array(items) => exists|i: int|
                0 <= i < items.len() && handles(#[trigger] items[i]).contains(name),
            JsonTree::Object(entries) => exists|i: int|
                0 <= i < entries.len() && handles((#[trigger] entries[i]).1).contains(name),
            _ => false,
        },
{
    match value {
        JsonTree::Array(items) => lemma_items_names(items, name),
        JsonTree::Object(entries) => lemma_entries_names(entries, name),
        _ => {},
    }
}

/// Each name stands for its own value: as it is where tokens are given, and between double braces
/// where secrets are.
pub proof fn names_stand_for_their_values(list: Seq<(String, String)>, i: int)
    requires
        0 <= i < list.len(),
    ensures
        pairs(list).len() == list.len(),
        pairs(list)[i] == (list[i].0@, list[i].1@),
        braced_pairs(list).len() == list.len(),
        braced_pairs(list)[i] == ("{{"@ + list[i].0@ + "}}"@, list[i].1@),
        USER_QUERY_TOKEN@ == "{{USER_QUERY}}"@,
{
}

} // verus!
