//! Short forms of texts, identifiers and JSON documents, for cards that are folded up.

use vstd::prelude::*;
use crate::chat::paint::{ink, Color, Style};
use crate::json::{lemma_entry_is_smaller, lemma_item_is_smaller, pretty, pretty_text, Json, JsonTree};
use crate::text::{
    ascii_lower, ascii_upper, cat, clip, clipped, count, has, in_order, join, joined, lines,
    lines_of, list_has, occurs, same, sort_texts, to_ascii_lower, to_ascii_upper, views,
};

verus! {

/// A text with more lines than this can be folded up.
pub const TEXT_COLLAPSE_LINE_THRESHOLD: usize = 4;

/// A text with more characters than this can be folded up.
pub const TEXT_COLLAPSE_CHAR_THRESHOLD: usize = 280;

/// A text is long enough to be folded up.
pub open spec fn collapsible(text: Seq<char>) -> bool {
    lines(text).len() > TEXT_COLLAPSE_LINE_THRESHOLD || text.len() > TEXT_COLLAPSE_CHAR_THRESHOLD
}

/// Whether a text is long enough to be folded up.
pub fn text_is_collapsible(text: &str) -> (r: bool)
    ensures
        r == collapsible(text@),
{
    let all = lines_of(text);
    assert(views(all@).len() == all@.len());
    all.len() > TEXT_COLLAPSE_LINE_THRESHOLD || count(text) > TEXT_COLLAPSE_CHAR_THRESHOLD
}

/// The first of some lines: at most `rows` of them, and at most `room` characters in all. A line
/// that does not fit whole is cut, marked, and the last.
pub open spec fn preview_from(list: Seq<Seq<char>>, rows: int, room: int) -> Seq<Seq<char>>
    decreases list.len(),
{
    if list.len() == 0 || rows <= 0 || room <= 0 {
        seq![]
    } else if room < list[0].len() {
        seq![list[0].take(room) + "..."@]
    } else {
        seq![list[0]] + preview_from(list.drop_first(), rows - 1, room - list[0].len())
    }
}

/// The first lines of a text, at least one.
pub open spec fn preview(text: Seq<char>, rows: int, room: int) -> Seq<Seq<char>> {
    let first = preview_from(lines(text), rows, room);
    if first.len() == 0 {
        seq![Seq::empty()]
    } else {
        first
    }
}

/// The first lines of a text, at least one.
pub fn text_preview_lines(text: &str, max_lines: usize, max_chars: usize) -> (r: Vec<String>)
    ensures
        views(r@) == preview(text@, max_lines as int, max_chars as int),
        r@.len() > 0,
{
    let list = lines_of(text);
    let ghost all = views(list@);
    let ghost want = preview_from(all, max_lines as int, max_chars as int);
    let mut out: Vec<String> = Vec::new();
    let mut room: usize = max_chars;
    let mut i: usize = 0;
    let mut cut = false;
    proof {
        assert(all.skip(0) =~= all);
        assert(views(out@) =~= seq![]);
        assert(views(out@) + want =~= want);
    }
    while i < list.len() && out.len() < max_lines && room > 0 && !cut
        invariant
            i <= list@.len(),
            all == views(list@),
            want == preview_from(all, max_lines as int, max_chars as int),
            !cut ==> out@.len() == i <= max_lines,
            !cut ==> views(out@) + preview_from(all.skip(i as int), max_lines - i, room as int)
                == want,
            cut ==> views(out@) == want,
        decreases list@.len() - i,
    {
        let ghost rest = all.skip(i as int);
        let ghost before = views(out@);
        proof {
            assert(rest[0] == list@[i as int]@);
            assert(rest.drop_first() =~= all.skip(i + 1));
        }
        let len = count(list[i].as_str());
        if room < len {
            let start = clip(list[i].as_str(), room);
            let last = cat(start.as_str(), "...");
            out.push(last);
            cut = true;
            proof {
                assert(views(out@) =~= before + seq![last@]);
                assert(views(out@) =~= want);
            }
        } else {
            let line = list[i].clone();
            out.push(line);
            proof {
                assert(views(out@) =~= before + seq![line@]);
                assert(views(out@) + preview_from(all.skip(i + 1), max_lines - i - 1, room - len)
                    =~= before + (seq![line@] + preview_from(
                    all.skip(i + 1),
                    max_lines - i - 1,
                    room - len,
                )));
            }
            room = room - len;
        }
        i = i + 1;
    }
    proof {
        if !cut {
            assert(views(out@) + preview_from(all.skip(i as int), max_lines - i, room as int)
                =~= views(out@));
        }
    }
    if out.len() == 0 {
        out.push(String::new());
        assert(want.len() == 0);
        assert(views(out@) =~= seq![Seq::<char>::empty()]);
    } else {
        assert(views(out@).len() > 0);
    }
    out
}

/// The first lines of a text, in one line.
pub open spec fn one_line(text: Seq<char>, rows: int, room: int) -> Seq<char> {
    joined(preview(text, rows, room), " "@)
}

/// The first lines of a text, in one line.
pub fn preview_in_line(text: &str, max_lines: usize, max_chars: usize) -> (r: String)
    ensures
        r@ == one_line(text@, max_lines as int, max_chars as int),
{
    join(&text_preview_lines(text, max_lines, max_chars), " ")
}

/// The first eight characters of an identifier.
pub fn short_id(id: &str) -> (r: String)
    ensures
        r@ == clipped(id@, 8),
{
    clip(id, 8)
}

/// The first eight characters of a thread's identifier.
pub fn short_thread_id(thread_id: &str) -> (r: String)
    ensures
        r@ == clipped(thread_id@, 8),
{
    short_id(thread_id)
}

/// An identifier in at most twelve characters.
pub open spec fn compacted(value: Option<Seq<char>>) -> Seq<char> {
    match value {
        None => "n/a"@,
        Some(id) => if id.len() <= 12 {
            id
        } else {
            id.take(8) + "..."@
        },
    }
}

/// An identifier in at most twelve characters.
pub fn compact_id(value: &Option<String>) -> (r: String)
    ensures
        r@ == compacted(crate::text::opt_view(*value)),
{
    match value {
        None => "n/a".to_owned(),
        Some(id) => if count(id.as_str()) <= 12 {
            id.clone()
        } else {
            cat(clip(id.as_str(), 8).as_str(), "...")
        },
    }
}

/// A state in capitals, with one word for states that mean the same.
pub open spec fn status_word(status: Seq<char>) -> Seq<char> {
    if status == "success"@ || status == "completed"@ {
        "COMPLETED"@
    } else if status == "error"@ || status == "failed"@ {
        "FAILED"@
    } else if status == "running"@ || status == "pending"@ {
        "RUNNING"@
    } else {
        ascii_upper(status)
    }
}

/// A state in capitals, with one word for states that mean the same.
pub fn pretty_status(status: &str) -> (r: String)
    ensures
        r@ == status_word(status@),
{
    if same(status, "success") || same(status, "completed") {
        "COMPLETED".to_owned()
    } else if same(status, "error") || same(status, "failed") {
        "FAILED".to_owned()
    } else if same(status, "running") || same(status, "pending") {
        "RUNNING".to_owned()
    } else {
        to_ascii_upper(status)
    }
}

/// The style that a state is drawn in.
pub open spec fn status_ink(status: Seq<char>) -> Style {
    if status == "success"@ || status == "completed"@ {
        ink(Color::Green)
    } else if status == "error"@ || status == "failed"@ {
        ink(Color::Red)
    } else if status == "running"@ || status == "pending"@ {
        ink(Color::Yellow)
    } else {
        ink(Color::Gray)
    }
}

/// The style that a state is drawn in.
pub fn status_style(status: &str) -> (r: Style)
    ensures
        r == status_ink(status@),
{
    if same(status, "success") || same(status, "completed") {
        ink(Color::Green)
    } else if same(status, "error") || same(status, "failed") {
        ink(Color::Red)
    } else if same(status, "running") || same(status, "pending") {
        ink(Color::Yellow)
    } else {
        ink(Color::Gray)
    }
}

// ---- JSON --------------------------------------------------------------------------------

/// The position of the first entry with the given key, or the number of entries.
pub open spec fn key_index(entries: Seq<(Seq<char>, JsonTree)>, key: Seq<char>) -> int
    decreases entries.len(),
{
    if entries.len() == 0 || entries[0].0 == key {
        0
    } else {
        1 + key_index(entries.drop_first(), key)
    }
}

proof fn lemma_key_index(entries: Seq<(Seq<char>, JsonTree)>, key: Seq<char>)
    ensures
        0 <= key_index(entries, key) <= entries.len(),
        crate::json::entry(entries, key) == (if key_index(entries, key) < entries.len() {
            Some(entries[key_index(entries, key)].1)
        } else {
            None
        }),
        key_index(entries, key) < entries.len() ==> entries[key_index(entries, key)].0 == key,
        forall|j: int| 0 <= j < key_index(entries, key) ==> entries[j].0 != key,
    decreases entries.len(),
{
    if entries.len() > 0 && entries[0].0 != key {
        lemma_key_index(entries.drop_first(), key);
        assert forall|j: int| 0 <= j < key_index(entries, key) implies entries[j].0 != key by {
            if j > 0 {
                assert(entries.drop_first()[j - 1] == entries[j]);
            }
        }
    }
}

/// At most `room` characters of a text, marked where it is cut.
pub open spec fn marked(text: Seq<char>, room: int) -> Seq<char> {
    if text.len() > room {
        text.take(if room < 3 {
            0
        } else {
            room - 3
        }) + "..."@
    } else {
        text
    }
}

/// At most three of a list of texts, in one line, marked where there are more.
pub open spec fn three_of(shown: Seq<Seq<char>>, total: int) -> Seq<char> {
    if total > 3 {
        joined(shown, ", "@) + ", ..."@
    } else {
        joined(shown, ", "@)
    }
}

/// A document in at most `room` characters: of an array the first three items, of an object the
/// first three fields in the order of their keys.
pub open spec fn preview_value(v: JsonTree, room: int) -> Seq<char>
    decreases v, 4nat,
{
    let rendered = match v {
        JsonTree::Null => "none"@,
        JsonTree::Text(s) => s,
        JsonTree::Bool(b) => if b {
            "true"@
        } else {
            "false"@
        },
        JsonTree::Number(s) => s,
        JsonTree::Array(items) => if items.len() == 0 {
            "none"@
        } else {
            three_of(
                first_previews(
                    v,
                    if items.len() < 3 {
                        items.len()
                    } else {
                        3
                    },
                ),
                items.len() as int,
            )
        },
        JsonTree::Object(entries) => three_of(
            first_previews(
                v,
                if entries.len() < 3 {
                    entries.len()
                } else {
                    3
                },
            ),
            entries.len() as int,
        ),
    };
    marked(rendered, room)
}

/// The first `n` items of an array, or fields of an object in the order of their keys, each in at
/// most 24 characters.
pub open spec fn first_previews(v: JsonTree, n: nat) -> Seq<Seq<char>>
    decreases v, n,
{
    if n == 0 {
        seq![]
    } else {
        let last = match v {
            JsonTree::Array(items) => if n <= items.len() {
                preview_value(items[n - 1], 24)
            } else {
                seq![]
            },
            JsonTree::Object(entries) => {
                let name = in_order(v.keys())[n - 1];
                let k = key_index(entries, name);
                name + "="@ + (if 0 <= k < entries.len() {
                    preview_value(entries[k].1, 24)
                } else {
                    "none"@
                })
            },
            _ => seq![],
        };
        first_previews(v, (n - 1) as nat).push(last)
    }
}

fn mark(text: String, room: usize) -> (r: String)
    ensures
        r@ == marked(text@, room as int),
{
    if count(text.as_str()) > room {
        let keep: usize = if room < 3 {
            0
        } else {
            room - 3
        };
        cat(clip(text.as_str(), keep).as_str(), "...")
    } else {
        text
    }
}

fn join_three(shown: &Vec<String>, total: usize) -> (r: String)
    ensures
        r@ == three_of(views(shown@), total as int),
{
    let list = join(shown, ", ");
    if total > 3 {
        cat(list.as_str(), ", ...")
    } else {
        list
    }
}

/// The keys of an object, in order; of any other value, none.
pub fn sorted_keys(value: &Json) -> (r: Vec<String>)
    ensures
        views(r@) == in_order(value@.keys()),
{
    let mut names: Vec<String> = Vec::new();
    match value {
        Json::Object(entries) => {
            let mut i: usize = 0;
            while i < entries.len()
                invariant
                    i <= entries@.len(),
                    *value == Json::Object(*entries),
                    views(names@) == value@.keys().take(i as int),
                decreases entries@.len() - i,
            {
                let ghost before = views(names@);
                let name = entries[i].0.clone();
                names.push(name);
                proof {
                    assert(views(names@) =~= before.push(name@));
                    assert(value@.keys()[i as int] == name@);
                    assert(value@.keys().take(i + 1) =~= before.push(name@));
                }
                i = i + 1;
            }
            assert(value@.keys().take(i as int) =~= value@.keys());
        },
        _ => {
            assert(views(names@) =~= value@.keys());
        },
    }
    sort_texts(&names)
}

proof fn lemma_in_order_len(list: Seq<Seq<char>>)
    ensures
        in_order(list).len() == list.len(),
        forall|x: Seq<char>| in_order(list).contains(x) ==> list.contains(x),
{
    crate::text::text_order_is_total();
    list.lemma_sort_by_ensures(crate::text::text_order());
    vstd::seq_lib::to_multiset_len(list);
    vstd::seq_lib::to_multiset_len(in_order(list));
}

/// A document in at most `max_chars` characters.
pub fn preview_json_value(value: &Json, max_chars: usize) -> (r: String)
    ensures
        r@ == preview_value(value@, max_chars as int),
    decreases value,
{
    let rendered = match value {
        Json::Null => "none".to_owned(),
        Json::Text(s) => s.clone(),
        Json::Bool(b) => if *b {
            "true".to_owned()
        } else {
            "false".to_owned()
        },
        Json::Number(s) => s.clone(),
        Json::Array(items) => if items.len() == 0 {
            "none".to_owned()
        } else {
            let ghost all = value@->Array_0;
            let n: usize = if items.len() < 3 {
                items.len()
            } else {
                3
            };
            let mut shown: Vec<String> = Vec::new();
            let mut i: usize = 0;
            assert(views(shown@) =~= seq![]);
            while i < n
                invariant
                    i <= n <= items@.len(),
                    *value == Json::Array(*items),
                    all == value@->Array_0,
                    value@ == JsonTree::Array(all),
                    views(shown@) == first_previews(value@, i as nat),
                decreases n - i,
            {
                proof {
                    lemma_item_is_smaller(*value, i as int);
                }
                let ghost before = views(shown@);
                let one = preview_json_value(&items[i], 24);
                shown.push(one);
                proof {
                    assert(all[i as int] == items@[i as int]@);
                    assert(views(shown@) =~= before.push(one@));
                }
                i = i + 1;
            }
            let list = join_three(&shown, items.len());
            assert(marked(list@, max_chars as int) == preview_value(value@, max_chars as int));
            list
        },
        Json::Object(entries) => {
            let names = sorted_keys(value);
            let ghost all = value@->Object_0;
            let ghost ks = in_order(value@.keys());
            proof {
                lemma_in_order_len(value@.keys());
                assert(names@.len() == views(names@).len());
            }
            let n: usize = if names.len() < 3 {
                names.len()
            } else {
                3
            };
            let mut shown: Vec<String> = Vec::new();
            let mut i: usize = 0;
            assert(views(shown@) =~= seq![]);
            while i < n
                invariant
                    i <= n <= names@.len(),
                    names@.len() == ks.len() == entries@.len(),
                    *value == Json::Object(*entries),
                    all == value@->Object_0,
                    value@ == JsonTree::Object(all),
                    all.len() == entries@.len(),
                    ks == in_order(value@.keys()),
                    views(names@) == ks,
                    views(shown@) == first_previews(value@, i as nat),
                decreases n - i,
            {
                let at = find_key(value, names[i].as_str());
                let mut one = cat(names[i].as_str(), "=");
                let ghost before = views(shown@);
                proof {
                    assert(views(names@)[i as int] == names@[i as int]@);
                }
                if at < entries.len() {
                    proof {
                        lemma_entry_is_smaller(*value, at as int);
                        assert(all[at as int].1 == entries@[at as int].1@);
                    }
                    let inner = preview_json_value(&entries[at].1, 24);
                    one.append(inner.as_str());
                } else {
                    one.append("none");
                }
                shown.push(one);
                assert(views(shown@) =~= before.push(one@));
                i = i + 1;
            }
            let list = join_three(&shown, names.len());
            assert(marked(list@, max_chars as int) == preview_value(value@, max_chars as int));
            list
        },
    };
    mark(rendered, max_chars)
}

fn find_key(value: &Json, key: &str) -> (r: usize)
    requires
        value is Object,
    ensures
        r == key_index(value@->Object_0, key@),
        r <= value->Object_0@.len(),
{
    match value {
        Json::Object(entries) => {
            let ghost all = value@->Object_0;
            let mut i: usize = 0;
            assert(all.skip(0) =~= all);
            while i < entries.len()
                invariant
                    i <= entries@.len(),
                    *value == Json::Object(*entries),
                    all == value@->Object_0,
                    all.len() == entries@.len(),
                    key_index(all, key@) == i + key_index(all.skip(i as int), key@),
                decreases entries@.len() - i,
            {
                proof {
                    assert(all.skip(i as int).drop_first() =~= all.skip(i + 1));
                    assert(all.skip(i as int)[0] == all[i as int]);
                }
                if same(entries[i].0.as_str(), key) {
                    return i;
                }
                i = i + 1;
            }
            i
        },
        _ => 0,
    }
}

/// Names with their values.
pub open spec fn pair_views(rows: Seq<(String, String)>) -> Seq<(Seq<char>, Seq<char>)> {
    Seq::new(rows.len(), |i: int| (rows[i].0@, rows[i].1@))
}

/// A field and a short form of what it holds.
pub open spec fn field_pair(v: JsonTree, name: Seq<char>, room: int) -> (Seq<char>, Seq<char>) {
    (
        name,
        preview_value(
            match v.field(name) {
                Some(value) => value,
                None => JsonTree::Null,
            },
            room,
        ),
    )
}

/// The fields with the given names, each with a short form of what it holds.
pub open spec fn field_pairs(v: JsonTree, names: Seq<Seq<char>>, room: int) -> Seq<
    (Seq<char>, Seq<char>),
> {
    Seq::new(names.len(), |i: int| field_pair(v, names[i], room))
}

/// The names of a list that are not to be left out.
pub open spec fn names_left(names: Seq<Seq<char>>, skip: Seq<Seq<char>>) -> Seq<Seq<char>> {
    names.filter(|name: Seq<char>| !skip.contains(name))
}

/// The first fields of an object in the order of their keys, but for those to be left out. A
/// value that is no object is a single row; nothing is none.
pub open spec fn key_values(v: JsonTree, max_fields: int, skip: Seq<Seq<char>>) -> Seq<
    (Seq<char>, Seq<char>),
> {
    match v {
        JsonTree::Object(_) => {
            let names = names_left(in_order(v.keys()), skip);
            field_pairs(
                v,
                if max_fields < names.len() {
                    names.take(max_fields)
                } else {
                    names
                },
                90,
            )
        },
        JsonTree::Null => seq![],
        _ => seq![("value"@, preview_value(v, 90))],
    }
}

fn field_preview(value: &Json, name: &str, room: usize) -> (r: String)
    ensures
        (name@, r@) == field_pair(value@, name@, room as int),
{
    match value.get(name) {
        Some(field) => preview_json_value(field, room),
        None => preview_json_value(&Json::Null, room),
    }
}

/// The first fields of an object in the order of their keys, but for those to be left out.
pub fn key_values_from_json(value: &Json, max_fields: usize, skip_keys: &Vec<String>) -> (r: Vec<
    (String, String),
>)
    ensures
        pair_views(r@) == key_values(value@, max_fields as int, views(skip_keys@)),
{
    let mut rows: Vec<(String, String)> = Vec::new();
    let is_object = match value {
        Json::Object(_) => true,
        _ => false,
    };
    if !is_object {
        match value {
            Json::Null => {
                assert(pair_views(rows@) =~= seq![]);
            },
            _ => {
                let shown = preview_json_value(value, 90);
                rows.push(("value".to_owned(), shown));
                assert(pair_views(rows@) =~= seq![("value"@, shown@)]);
            },
        }
        return rows;
    }
    let names = sorted_keys(value);
    let ghost all = views(names@);
    let ghost skip = views(skip_keys@);
    let ghost pred = |name: Seq<char>| !skip.contains(name);
    let mut i: usize = 0;
    proof {
        assert(all.take(0) =~= seq![]);
        assert(names_left(all.take(0), skip) =~= seq![]);
        assert(pair_views(rows@) =~= field_pairs(value@, seq![], 90));
    }
    while i < names.len() && rows.len() < max_fields
        invariant
            i <= names@.len(),
            all == views(names@),
            skip == views(skip_keys@),
            pred == (|name: Seq<char>| !skip.contains(name)),
            rows@.len() <= max_fields,
            pair_views(rows@) == field_pairs(value@, names_left(all.take(i as int), skip), 90),
        decreases names@.len() - i,
    {
        let ghost before = pair_views(rows@);
        proof {
            assert(all[i as int] == names@[i as int]@);
            assert(all.take(i + 1) =~= all.take(i as int).push(all[i as int]));
            all.take(i as int).lemma_filter_push(all[i as int], pred);
        }
        if !list_has(skip_keys, names[i].as_str()) {
            let shown = field_preview(value, names[i].as_str(), 90);
            rows.push((names[i].clone(), shown));
            proof {
                assert(pair_views(rows@) =~= before.push((all[i as int], shown@)));
                assert(pair_views(rows@) =~= field_pairs(
                    value@,
                    names_left(all.take(i + 1), skip),
                    90,
                ));
            }
        }
        i = i + 1;
    }
    proof {
        let some = names_left(all.take(i as int), skip);
        let names = names_left(all, skip);
        assert(rows@.len() == pair_views(rows@).len() == some.len());
        lemma_filter_prefix(all, i as int, pred);
        if i == all.len() {
            assert(all.take(i as int) =~= all);
            if max_fields < names.len() {
                assert(names.take(max_fields as int) =~= names);
            }
        } else {
            assert(some =~= names.take(max_fields as int));
            if max_fields >= names.len() {
                assert(names.take(max_fields as int) =~= names);
            }
        }
    }
    rows
}

proof fn lemma_filter_prefix(s: Seq<Seq<char>>, k: int, pred: spec_fn(Seq<char>) -> bool)
    requires
        0 <= k <= s.len(),
    ensures
        s.take(k).filter(pred).len() <= s.filter(pred).len(),
        s.filter(pred).take(s.take(k).filter(pred).len() as int) == s.take(k).filter(pred),
    decreases s.len() - k,
{
    if k == s.len() {
        assert(s.take(k) =~= s);
        assert(s.filter(pred).take(s.filter(pred).len() as int) =~= s.filter(pred));
    } else {
        lemma_filter_prefix(s, k + 1, pred);
        assert(s.take(k + 1) =~= s.take(k).push(s[k]));
        s.take(k).lemma_filter_push(s[k], pred);
        let n = s.take(k).filter(pred).len() as int;
        assert(s.filter(pred).take(n) =~= s.take(k + 1).filter(pred).take(n));
        assert(s.take(k + 1).filter(pred).take(n) =~= s.take(k).filter(pred));
    }
}

/// The tools that a run reports to have used, in the order of their names.
pub open spec fn tool_usage(output: JsonTree) -> Seq<(Seq<char>, Seq<char>)> {
    match output.field("tools"@) {
        Some(tools) => field_pairs(tools, in_order(tools.keys()), 60),
        None => seq![],
    }
}

/// The tools that a run reports to have used, in the order of their names.
pub fn collect_tool_usage(output: &Json) -> (r: Vec<(String, String)>)
    ensures
        pair_views(r@) == tool_usage(output@),
{
    let mut rows: Vec<(String, String)> = Vec::new();
    match output.get("tools") {
        Some(tools) => {
            let names = sorted_keys(tools);
            let ghost all = views(names@);
            let mut i: usize = 0;
            assert(pair_views(rows@) =~= field_pairs(tools@, all.take(0), 60));
            while i < names.len()
                invariant
                    i <= names@.len(),
                    all == views(names@),
                    pair_views(rows@) == field_pairs(tools@, all.take(i as int), 60),
                decreases names@.len() - i,
            {
                let ghost before = pair_views(rows@);
                let shown = field_preview(tools, names[i].as_str(), 60);
                rows.push((names[i].clone(), shown));
                proof {
                    assert(all[i as int] == names@[i as int]@);
                    assert(pair_views(rows@) =~= before.push((all[i as int], shown@)));
                    assert(pair_views(rows@) =~= field_pairs(tools@, all.take(i + 1), 60));
                }
                i = i + 1;
            }
            assert(all.take(i as int) =~= all);
        },
        None => {
            assert(pair_views(rows@) =~= seq![]);
        },
    }
    rows
}

/// The lines of a document printed over several lines.
pub fn pretty_json_lines(value: &Json) -> (r: Vec<String>)
    ensures
        views(r@) == lines(pretty_text(value@)),
{
    lines_of(pretty(value).as_str())
}

/// A text that says something was left out.
pub open spec fn redaction_text(s: Seq<char>) -> bool {
    occurs(ascii_lower(s), "redacted"@) || occurs(ascii_lower(s), "sensitive_payload"@)
}

/// A key that speaks of something to be left out.
pub open spec fn redaction_key(s: Seq<char>) -> bool {
    occurs(ascii_lower(s), "redacted"@) || occurs(ascii_lower(s), "sensitive"@) || occurs(
        ascii_lower(s),
        "secret"@,
    )
}

/// A document with a text or a key, at any depth, that speaks of something left out.
pub open spec fn redacted(v: JsonTree) -> bool
    decreases v,
{
    match v {
        JsonTree::Text(s) => redaction_text(s),
        JsonTree::Array(items) => exists|i: int|
            0 <= i < items.len() && redacted(#[trigger] items[i]),
        JsonTree::Object(entries) => exists|i: int|
            0 <= i < entries.len() && (redaction_key((#[trigger] entries[i]).0) || redacted(
                entries[i].1,
            )),
        _ => false,
    }
}

/// Whether a document has a text or a key, at any depth, that speaks of something left out.
pub fn contains_redaction_marker(value: &Json) -> (r: bool)
    ensures
        r == redacted(value@),
    decreases value,
{
    match value {
        Json::Text(s) => {
            let lower = to_ascii_lower(s.as_str());
            has(lower.as_str(), "redacted") || has(lower.as_str(), "sensitive_payload")
        },
        Json::Array(items) => {
            let ghost all = value@->Array_0;
            let mut i: usize = 0;
            while i < items.len()
                invariant
                    i <= items@.len(),
                    *value == Json::Array(*items),
                    all == value@->Array_0,
                    value@ == JsonTree::Array(all),
                    all.len() == items@.len(),
                    forall|k: int| 0 <= k < i ==> !redacted(#[trigger] all[k]),
                decreases items@.len() - i,
            {
                proof {
                    lemma_item_is_smaller(*value, i as int);
                    assert(all[i as int] == items@[i as int]@);
                }
                if contains_redaction_marker(&items[i]) {
                    return true;
                }
                i = i + 1;
            }
            false
        },
        Json::Object(entries) => {
            let ghost all = value@->Object_0;
            let mut i: usize = 0;
            while i < entries.len()
                invariant
                    i <= entries@.len(),
                    *value == Json::Object(*entries),
                    all == value@->Object_0,
                    value@ == JsonTree::Object(all),
                    all.len() == entries@.len(),
                    forall|k: int|
                        0 <= k < i ==> !redaction_key((#[trigger] all[k]).0) && !redacted(
                            all[k].1,
                        ),
                decreases entries@.len() - i,
            {
                proof {
                    lemma_entry_is_smaller(*value, i as int);
                    assert(all[i as int] == (entries@[i as int].0@, entries@[i as int].1@));
                }
                let lower = to_ascii_lower(entries[i].0.as_str());
                if has(lower.as_str(), "redacted") || has(lower.as_str(), "sensitive") || has(
                    lower.as_str(),
                    "secret",
                ) || contains_redaction_marker(&entries[i].1) {
                    return true;
                }
                i = i + 1;
            }
            false
        },
        _ => false,
    }
}

// ---- laws --------------------------------------------------------------------------------

/// A short form of a document has at most `room` characters, or the three of the mark.
pub proof fn preview_value_is_short(v: JsonTree, room: int)
    requires
        room >= 0,
    ensures
        preview_value(v, room).len() <= (if room < 3 {
            3
        } else {
            room
        }),
{
    reveal_strlit("...");
}

/// The first lines of a text are at least one and at most as many as asked for.
pub proof fn preview_has_few_lines(text: Seq<char>, rows: int, room: int)
    requires
        rows >= 1,
    ensures
        1 <= preview(text, rows, room).len() <= rows,
{
    lemma_preview_rows(lines(text), rows, room);
}

proof fn lemma_preview_rows(list: Seq<Seq<char>>, rows: int, room: int)
    requires
        rows >= 0,
    ensures
        preview_from(list, rows, room).len() <= rows,
    decreases list.len(),
{
    if list.len() > 0 && rows > 0 && room > 0 && room >= list[0].len() {
        lemma_preview_rows(list.drop_first(), rows - 1, room - list[0].len());
    }
}

/// A short identifier has at most twelve characters.
pub proof fn compact_id_is_short(value: Option<Seq<char>>)
    ensures
        compacted(value).len() <= 12,
{
    reveal_strlit("...");
    reveal_strlit("n/a");
}

/// A text can be folded up when it has more than four lines or 280 characters.
pub proof fn long_texts_fold(text: Seq<char>)
    ensures
        collapsible(text) <==> lines(text).len() > 4 || text.len() > 280,
{
}

/// A preview shows line after line while there is room; a line that is longer than the room is cut
/// there and ends the preview with three dots.
pub proof fn previews_show_the_first_lines(line: Seq<char>, rest: Seq<Seq<char>>, rows: int, room: int)
    ensures
        rows > 0 && 0 < room < line.len() ==> preview_from(seq![line] + rest, rows, room) == seq![
            line.take(room) + seq!['.', '.', '.'],
        ],
        rows > 0 && room > 0 && room >= line.len() ==> preview_from(seq![line] + rest, rows, room)
            == seq![line] + preview_from(rest, rows - 1, room - line.len()),
        rows <= 0 || room <= 0 ==> preview_from(rest, rows, room).len() == 0,
        preview_from(Seq::empty(), rows, room).len() == 0,
{
    reveal_strlit("...");
    assert("..."@ =~= seq!['.', '.', '.']);
    assert((seq![line] + rest).drop_first() =~= rest);
}

/// The preview of a text is that of its lines, or one empty line where there is nothing to show.
pub proof fn previews_are_never_empty(text: Seq<char>, rows: int, room: int)
    ensures
        preview_from(lines(text), rows, room).len() > 0 ==> preview(text, rows, room) == preview_from(
            lines(text),
            rows,
            room,
        ),
        preview_from(lines(text), rows, room).len() == 0 ==> preview(text, rows, room) == seq![
            Seq::<char>::empty(),
        ],
        one_line(text, rows, room) == joined(preview(text, rows, room), seq![' ']),
{
    reveal_strlit(" ");
    assert(" "@ =~= seq![' ']);
}

/// An identifier of at most twelve characters is shown whole, a longer one by its first eight.
pub proof fn identifiers_are_shown_short(id: Seq<char>)
    ensures
        compacted(None) == "n/a"@,
        id.len() <= 12 ==> compacted(Some(id)) == id,
        id.len() > 12 ==> compacted(Some(id)) == id.take(8) + seq!['.', '.', '.'],
{
    reveal_strlit("...");
    assert("..."@ =~= seq!['.', '.', '.']);
}

/// The words and the colours for how a call stands.
pub proof fn states_have_their_words_and_colours(status: Seq<char>)
    ensures
        status == "success"@ || status == "completed"@ ==> status_word(status) == "COMPLETED"@
            && status_ink(status) == ink(Color::Green),
        status == "error"@ || status == "failed"@ ==> status_word(status) == "FAILED"@ && status_ink(
            status,
        ) == ink(Color::Red),
        status == "running"@ || status == "pending"@ ==> status_word(status) == "RUNNING"@
            && status_ink(status) == ink(Color::Yellow),
        status != "success"@ && status != "completed"@ && status != "error"@ && status != "failed"@
            && status != "running"@ && status != "pending"@ ==> status_word(status) == ascii_upper(
            status,
        ) && status_ink(status) == ink(Color::Gray),
{
    reveal_strlit("success");
    reveal_strlit("completed");
    reveal_strlit("error");
    reveal_strlit("failed");
    reveal_strlit("running");
    reveal_strlit("pending");
    assert("success"@.len() == 7 && "completed"@.len() == 9 && "error"@.len() == 5 && "failed"@.len()
        == 6 && "running"@.len() == 7 && "pending"@.len() == 7);
    assert("success"@[0] == 's' && "running"@[0] == 'r' && "pending"@[0] == 'p');
}

/// A text that is too long for the room is cut so that three dots still fit.
pub proof fn cut_texts_end_in_dots(text: Seq<char>, room: int)
    requires
        room >= 3,
    ensures
        text.len() <= room ==> marked(text, room) == text,
        text.len() > room ==> marked(text, room) == text.take(room - 3) + seq!['.', '.', '.'],
{
    reveal_strlit("...");
    assert("..."@ =~= seq!['.', '.', '.']);
}

/// What is no list and no object is shown as it is written, without quotes.
pub proof fn plain_values_are_shown_as_written(s: Seq<char>, b: bool, room: int)
    ensures
        preview_value(JsonTree::Null, room) == marked("none"@, room),
        preview_value(JsonTree::Text(s), room) == marked(s, room),
        preview_value(JsonTree::Number(s), room) == marked(s, room),
        preview_value(JsonTree::Bool(b), room) == marked(
            if b {
                "true"@
            } else {
                "false"@
            },
            room,
        ),
        preview_value(JsonTree::Array(Seq::empty()), room) == marked("none"@, room),
{
}

proof fn lemma_first_previews(v: JsonTree, n: nat)
    ensures
        first_previews(v, n).len() == n,
        v matches JsonTree::Array(items) ==> forall|i: int|
            0 <= i < n <= items.len() ==> (#[trigger] first_previews(v, n)[i]) == preview_value(
                items[i],
                24,
            ),
        v matches JsonTree::Object(entries) ==> forall|i: int|
            0 <= i < n ==> (#[trigger] first_previews(v, n)[i]) == in_order(v.keys())[i] + "="@ + (match v.field(
                in_order(v.keys())[i],
            ) {
                Some(value) => preview_value(value, 24),
                None => "none"@,
            }),
    decreases n,
{
    if n > 0 {
        let m = (n - 1) as nat;
        lemma_first_previews(v, m);
        match v {
            JsonTree::Object(entries) => {
                let name = in_order(v.keys())[n - 1];
                lemma_key_index_field(entries, name);
            },
            _ => {},
        }
    }
}

proof fn lemma_key_index_field(entries: Seq<(Seq<char>, JsonTree)>, key: Seq<char>)
    ensures
        0 <= key_index(entries, key) <= entries.len(),
        key_index(entries, key) < entries.len() ==> crate::json::entry(entries, key) == Some(
            entries[key_index(entries, key)].1,
        ),
        key_index(entries, key) == entries.len() ==> crate::json::entry(entries, key) is None,
    decreases entries.len(),
{
    if entries.len() > 0 && entries[0].0 != key {
        lemma_key_index_field(entries.drop_first(), key);
    }
}

/// Of a list the first three items are shown, each on its own in 24 characters, and three dots where
/// there are more.
pub proof fn lists_show_three_items(items: Seq<JsonTree>, room: int) -> (shown: Seq<Seq<char>>)
    requires
        items.len() > 0,
    ensures
        shown.len() == (if items.len() < 3 {
            items.len() as int
        } else {
            3
        }),
        forall|i: int| 0 <= i < shown.len() ==> (#[trigger] shown[i]) == preview_value(items[i], 24),
        preview_value(JsonTree::Array(items), room) == marked(
            if items.len() > 3 {
                joined(shown, ", "@) + ", ..."@
            } else {
                joined(shown, ", "@)
            },
            room,
        ),
{
    let v = JsonTree::Array(items);
    let n: nat = if items.len() < 3 {
        items.len()
    } else {
        3
    };
    lemma_first_previews(v, n);
    first_previews(v, n)
}

/// Of an object the first three fields by name are shown, each with its value in 24 characters, and
/// three dots where there are more.
pub proof fn objects_show_three_fields(entries: Seq<(Seq<char>, JsonTree)>, room: int) -> (shown: Seq<
    Seq<char>,
>)
    ensures
        shown.len() == (if entries.len() < 3 {
            entries.len() as int
        } else {
            3
        }),
        forall|i: int|
            0 <= i < shown.len() ==> (#[trigger] shown[i]) == in_order(
                JsonTree::Object(entries).keys(),
            )[i] + "="@ + (match JsonTree::Object(entries).field(
                in_order(JsonTree::Object(entries).keys())[i],
            ) {
                Some(value) => preview_value(value, 24),
                None => "none"@,
            }),
        preview_value(JsonTree::Object(entries), room) == marked(
            if entries.len() > 3 {
                joined(shown, ", "@) + ", ..."@
            } else {
                joined(shown, ", "@)
            },
            room,
        ),
{
    let v = JsonTree::Object(entries);
    let n: nat = if entries.len() < 3 {
        entries.len()
    } else {
        3
    };
    lemma_first_previews(v, n);
    first_previews(v, n)
}

/// The fields of an object are listed by name, without those that are left out and no more than asked
/// for, each with its own value. Nothing is listed of no value, and a plain value under one name.
pub proof fn fields_are_listed_by_name(
    v: JsonTree,
    max_fields: int,
    skip: Seq<Seq<char>>,
    i: int,
)
    requires
        max_fields >= 0,
    ensures
        ({
            let listed = key_values(v, max_fields, skip);
            match v {
                JsonTree::Null => listed.len() == 0,
                JsonTree::Object(_) => listed.len() <= max_fields && (0 <= i < listed.len() ==> {
                    &&& !skip.contains(listed[i].0)
                    &&& v.keys().contains(listed[i].0)
                    &&& v.field(listed[i].0) matches Some(value) ==> listed[i].1 == preview_value(
                        value,
                        90,
                    )
                }),
                _ => listed == seq![("value"@, preview_value(v, 90))],
            }
        }),
{
    match v {
        JsonTree::Object(_) => {
            let all = in_order(v.keys());
            let p = |name: Seq<char>| !skip.contains(name);
            let names = names_left(all, skip);
            let listed = key_values(v, max_fields, skip);
            if 0 <= i < listed.len() {
                all.lemma_filter_pred(p, i);
                all.lemma_filter_contains_rev(p, names[i]);
                crate::text::sorted_once_keeps_texts(v.keys());
                crate::text::sorting_only_moves_texts(v.keys());
                broadcast use vstd::seq_lib::group_to_multiset_ensures;

                assert(all.contains(names[i]));
                assert(all.to_multiset().count(names[i]) > 0);
                assert(v.keys().to_multiset().count(names[i]) > 0);
            }
        },
        _ => {},
    }
}

/// Each field that is not left out is listed, while there is room for all.
pub proof fn no_field_is_forgotten(v: JsonTree, max_fields: int, skip: Seq<Seq<char>>, name: Seq<char>)
    requires
        v is Object,
        v.keys().contains(name),
        !skip.contains(name),
        v.keys().len() <= max_fields,
    ensures
        exists|i: int|
            0 <= i < key_values(v, max_fields, skip).len() && (#[trigger] key_values(
                v,
                max_fields,
                skip,
            )[i]).0 == name,
{
    let all = in_order(v.keys());
    let p = |name: Seq<char>| !skip.contains(name);
    let names = names_left(all, skip);
    crate::text::sorting_only_moves_texts(v.keys());
    broadcast use vstd::seq_lib::group_to_multiset_ensures;

    assert(v.keys().to_multiset().count(name) > 0);
    assert(all.to_multiset().count(name) > 0);
    assert(all.contains(name));
    let k = choose|k: int| 0 <= k < all.len() && all[k] == name;
    all.lemma_filter_contains(p, k);
    all.lemma_filter_len(p);
    assert(all.to_multiset().len() == v.keys().to_multiset().len());
    let i = choose|i: int| 0 <= i < names.len() && names[i] == name;
    if names.len() == max_fields {
        assert(names.take(max_fields) =~= names);
    }
    assert(key_values(v, max_fields, skip)[i].0 == name);
}

/// The tools that were used are listed by name, each with how it was used.
pub proof fn used_tools_are_listed(output: JsonTree, i: int)
    ensures
        output.field("tools"@) is None ==> tool_usage(output).len() == 0,
        output.field("tools"@) matches Some(tools) ==> tool_usage(output).len() == in_order(
            tools.keys(),
        ).len() && (0 <= i < tool_usage(output).len() ==> tool_usage(output)[i].0 == in_order(
            tools.keys(),
        )[i] && (tools.field(tool_usage(output)[i].0) matches Some(value) ==> tool_usage(output)[i].1
            == preview_value(value, 60))),
{
}

/// A document is marked as redacted where a text or a name in it, however deep, says so.
pub proof fn redaction_is_seen_everywhere(value: JsonTree, way: Seq<int>)
    requires
        crate::argument_tokens::reached(value, way) is Some,
    ensures
        ({
            let part = crate::argument_tokens::reached(value, way)->0;
            &&& part matches JsonTree::Text(s) ==> occurs(ascii_lower(s), "redacted"@) || occurs(
                ascii_lower(s),
                "sensitive_payload"@,
            ) ==> redacted(value)
            &&& part matches JsonTree::Object(entries) ==> (exists|i: int|
                0 <= i < entries.len() && (occurs(ascii_lower((#[trigger] entries[i]).0), "redacted"@)
                    || occurs(ascii_lower(entries[i].0), "sensitive"@) || occurs(
                    ascii_lower(entries[i].0),
                    "secret"@,
                ))) ==> redacted(value)
        }),
    decreases way.len(),
{
    let part = crate::argument_tokens::reached(value, way)->0;
    if way.len() > 0 {
        match value {
            JsonTree::Array(items) => {
                redaction_is_seen_everywhere(items[way[0]], way.drop_first());
                if redacted(items[way[0]]) {
                    assert(redacted(value));
                }
            },
            JsonTree::Object(entries) => {
                redaction_is_seen_everywhere(entries[way[0]].1, way.drop_first());
                if redacted(entries[way[0]].1) {
                    let i = way[0];
                    assert(redaction_key(entries[i].0) || redacted(entries[i].1));
                    assert(redacted(value));
                }
            },
            _ => {},
        }
    } else {
        match value {
            JsonTree::Object(entries) => {
                if exists|i: int|
                    0 <= i < entries.len() && (occurs(
                        ascii_lower((#[trigger] entries[i]).0),
                        "redacted"@,
                    ) || occurs(ascii_lower(entries[i].0), "sensitive"@) || occurs(
                        ascii_lower(entries[i].0),
                        "secret"@,
                    )) {
                    let i = choose|i: int|
                        0 <= i < entries.len() && (occurs(
                            ascii_lower((#[trigger] entries[i]).0),
                            "redacted"@,
                        ) || occurs(ascii_lower(entries[i].0), "sensitive"@) || occurs(
                            ascii_lower(entries[i].0),
                            "secret"@,
                        ));
                    assert(redaction_key(entries[i].0));
                }
            },
            _ => {},
        }
    }
}

/// What is marked as redacted has the mark in a part of it.
pub proof fn redaction_stands_in_a_part(value: JsonTree)
    requires
        redacted(value),
    ensures
        match value {
            JsonTree::Text(s) => occurs(ascii_lower(s), "redacted"@) || occurs(
                ascii_lower(s),
                "sensitive_payload"@,
            ),
            JsonTree::Array(items) => exists|i: int|
                0 <= i < items.len() && redacted(#[trigger] items[i]),
            JsonTree::Object(entries) => exists|i: int|
                0 <= i < entries.len() && (occurs(ascii_lower((#[trigger] entries[i]).0), "redacted"@)
                    || occurs(ascii_lower(entries[i].0), "sensitive"@) || occurs(
                    ascii_lower(entries[i].0),
                    "secret"@,
                ) || redacted(entries[i].1)),
            _ => false,
        },
{
    match value {
        JsonTree::Object(entries) => {
            let i = choose|i: int|
                0 <= i < entries.len() && (redaction_key((#[trigger] entries[i]).0) || redacted(
                    entries[i].1,
                ));
            assert(redaction_key(entries[i].0) || redacted(entries[i].1));
        },
        _ => {},
    }
}

} // verus!
