//! JSON documents: what the logic reads of them, and how they are printed.

use vstd::prelude::*;
use crate::text::{parse_u64, same, unsigned};

verus! {

/// A JSON document. A number is kept as it is printed. The entries of an object come in the order
/// in which they are walked.
#[derive(Debug, PartialEq, Eq)]
pub enum Json {
    Null,
    Bool(bool),
    Number(String),
    Text(String),
    Array(Vec<Json>),
    Object(Vec<(String, Json)>),
}

/// What a JSON document holds.
#[verifier::ext_equal]
pub enum JsonTree {
    Null,
    Bool(bool),
    Number(Seq<char>),
    Text(Seq<char>),
    Array(Seq<JsonTree>),
    Object(Seq<(Seq<char>, JsonTree)>),
}

/// What a JSON document holds.
pub open spec fn tree_of(j: Json) -> JsonTree
    decreases j,
{
    match j {
        Json::Null => JsonTree::Null,
        Json::Bool(b) => JsonTree::Bool(b),
        Json::Number(s) => JsonTree::Number(s@),
        Json::Text(s) => JsonTree::Text(s@),
        Json::Array(items) => JsonTree::Array(
            Seq::new(
                items@.len(),
                |i: int|
                    if 0 <= i < items@.len() {
                        tree_of(items@[i])
                    } else {
                        JsonTree::Null
                    },
            ),
        ),
        Json::Object(entries) => JsonTree::Object(
            Seq::new(
                entries@.len(),
                |i: int|
                    if 0 <= i < entries@.len() {
                        (entries@[i].0@, tree_of(entries@[i].1))
                    } else {
                        (Seq::empty(), JsonTree::Null)
                    },
            ),
        ),
    }
}

impl View for Json {
    type V = JsonTree;

    open spec fn view(&self) -> JsonTree {
        tree_of(*self)
    }
}

/// The value of the first entry with the given key.
pub open spec fn entry(entries: Seq<(Seq<char>, JsonTree)>, key: Seq<char>) -> Option<JsonTree>
    decreases entries.len(),
{
    if entries.len() == 0 {
        None
    } else if entries[0].0 == key {
        Some(entries[0].1)
    } else {
        entry(entries.drop_first(), key)
    }
}

impl JsonTree {
    /// The value of a field, for an object that has it.
    pub open spec fn field(self, key: Seq<char>) -> Option<JsonTree> {
        match self {
            JsonTree::Object(entries) => entry(entries, key),
            _ => None,
        }
    }

    /// What a text holds, for a value that is one.
    pub open spec fn text(self) -> Option<Seq<char>> {
        match self {
            JsonTree::Text(s) => Some(s),
            _ => None,
        }
    }

    /// The number, for a value that is an unsigned one of at most 64 bits.
    pub open spec fn number(self) -> Option<nat> {
        match self {
            JsonTree::Number(s) => unsigned(s, 0x1_0000_0000_0000_0000),
            _ => None,
        }
    }

    /// What a field holds, for an object with a field that is a text.
    pub open spec fn field_text(self, key: Seq<char>) -> Option<Seq<char>> {
        match self.field(key) {
            Some(value) => value.text(),
            None => None,
        }
    }

    /// The items of an array; of any other value, none.
    pub open spec fn items(self) -> Seq<JsonTree> {
        match self {
            JsonTree::Array(items) => items,
            _ => Seq::empty(),
        }
    }

    /// The keys of an object; of any other value, none.
    pub open spec fn keys(self) -> Seq<Seq<char>> {
        match self {
            JsonTree::Object(entries) => Seq::new(entries.len(), |i: int| entries[i].0),
            _ => Seq::empty(),
        }
    }
}

impl Json {
    /// The value of a field, for an object that has it.
    pub fn get(&self, key: &str) -> (r: Option<&Json>)
        ensures
            match r {
                Some(value) => self@.field(key@) == Some(value@),
                None => self@.field(key@) is None,
            },
    {
        match self {
            Json::Object(entries) => {
                let ghost all = self@->Object_0;
                let mut i: usize = 0;
                assert(all.skip(0) =~= all);
                while i < entries.len()
                    invariant
                        i <= entries@.len(),
                        all.len() == entries@.len(),
                        self@ == JsonTree::Object(all),
                        forall|k: int|
                            0 <= k < all.len() ==> #[trigger] all[k] == (
                                entries@[k].0@,
                                entries@[k].1@,
                            ),
                        entry(all, key@) == entry(all.skip(i as int), key@),
                    decreases entries@.len() - i,
                {
                    assert(all.skip(i as int).drop_first() =~= all.skip(i + 1));
                    assert(all.skip(i as int)[0] == all[i as int]);
                    if same(entries[i].0.as_str(), key) {
                        return Some(&entries[i].1);
                    }
                    i = i + 1;
                }
                None
            },
            _ => None,
        }
    }

    /// What a text holds, for a value that is one.
    pub fn as_str(&self) -> (r: Option<&str>)
        ensures
            match r {
                Some(s) => self@.text() == Some(s@),
                None => self@.text() is None,
            },
    {
        match self {
            Json::Text(s) => Some(s.as_str()),
            _ => None,
        }
    }

    /// The number, for a value that is an unsigned one of at most 64 bits.
    pub fn as_u64(&self) -> (r: Option<u64>)
        ensures
            match r {
                Some(n) => self@.number() == Some(n as nat),
                None => self@.number() is None,
            },
    {
        match self {
            Json::Number(s) => parse_u64(s.as_str()),
            _ => None,
        }
    }

    /// What a field holds, for an object with a field that is a text.
    pub fn get_str(&self, key: &str) -> (r: Option<String>)
        ensures
            crate::text::opt_view(r) == self@.field_text(key@),
    {
        match self.get(key) {
            Some(value) => match value.as_str() {
                Some(s) => Some(s.to_owned()),
                None => None,
            },
            None => None,
        }
    }

    /// A copy of the document.
    pub fn copy(&self) -> (r: Json)
        ensures
            r@ == self@,
        decreases self,
    {
        match self {
            Json::Null => Json::Null,
            Json::Bool(b) => Json::Bool(*b),
            Json::Number(s) => Json::Number(s.clone()),
            Json::Text(s) => Json::Text(s.clone()),
            Json::Array(items) => {
                let mut out: Vec<Json> = Vec::new();
                let mut i: usize = 0;
                while i < items.len()
                    invariant
                        i <= items@.len(),
                        *self == Json::Array(*items),
                        out@.len() == i,
                        forall|k: int| 0 <= k < i ==> (#[trigger] out@[k])@ == items@[k]@,
                    decreases items@.len() - i,
                {
                    proof {
                        lemma_item_is_smaller(*self, i as int);
                    }
                    let c = items[i].copy();
                    out.push(c);
                    i = i + 1;
                }
                let r = Json::Array(out);
                assert(r@->Array_0 =~= self@->Array_0);
                r
            },
            Json::Object(entries) => {
                let mut out: Vec<(String, Json)> = Vec::new();
                let mut i: usize = 0;
                while i < entries.len()
                    invariant
                        i <= entries@.len(),
                        *self == Json::Object(*entries),
                        out@.len() == i,
                        forall|k: int|
                            0 <= k < i ==> (#[trigger] out@[k]).0@ == entries@[k].0@ && out@[k].1@
                                == entries@[k].1@,
                    decreases entries@.len() - i,
                {
                    proof {
                        lemma_entry_is_smaller(*self, i as int);
                    }
                    let k = entries[i].0.clone();
                    let c = entries[i].1.copy();
                    out.push((k, c));
                    i = i + 1;
                }
                let r = Json::Object(out);
                assert(r@->Object_0 =~= self@->Object_0);
                r
            },
        }
    }
}

impl Clone for Json {
    fn clone(&self) -> (r: Json)
        ensures
            r@ == self@,
    {
        self.copy()
    }
}

/// An item of an array is smaller than the array.
pub proof fn lemma_item_is_smaller(j: Json, i: int)
    requires
        j is Array,
        0 <= i < j->Array_0@.len(),
    ensures
        decreases_to!(j => j->Array_0@[i]),
{
    assert(decreases_to!(j => j->Array_0));
    assert(decreases_to!(j->Array_0 => j->Array_0@[i]));
}

/// A value of an object is smaller than the object.
pub proof fn lemma_entry_is_smaller(j: Json, i: int)
    requires
        j is Object,
        0 <= i < j->Object_0@.len(),
    ensures
        decreases_to!(j => j->Object_0@[i].1),
{
    assert(decreases_to!(j => j->Object_0));
    assert(decreases_to!(j->Object_0 => j->Object_0@[i]));
    assert(decreases_to!(j->Object_0@[i] => j->Object_0@[i].1));
}

// ---- building ----------------------------------------------------------------------------

/// The entries of an object.
pub open spec fn entry_views(entries: Seq<(String, Json)>) -> Seq<(Seq<char>, JsonTree)> {
    Seq::new(entries.len(), |i: int| (entries[i].0@, entries[i].1@))
}

/// The documents of a list.
pub open spec fn json_views(list: Seq<Json>) -> Seq<JsonTree> {
    Seq::new(list.len(), |i: int| list[i]@)
}

/// A text, or nothing.
pub open spec fn text_or_null(value: Option<Seq<char>>) -> JsonTree {
    match value {
        Some(s) => JsonTree::Text(s),
        None => JsonTree::Null,
    }
}

/// A number.
pub open spec fn number_tree(n: nat) -> JsonTree {
    JsonTree::Number(crate::text::decimal(n))
}

impl JsonTree {
    /// An object without entries.
    pub open spec fn no_fields() -> JsonTree {
        JsonTree::Object(Seq::empty())
    }

    /// An object with one entry more.
    pub open spec fn with(self, key: Seq<char>, value: JsonTree) -> JsonTree {
        match self {
            JsonTree::Object(entries) => JsonTree::Object(entries.push((key, value))),
            _ => self,
        }
    }

    /// An array without items.
    pub open spec fn no_items() -> JsonTree {
        JsonTree::Array(Seq::empty())
    }

    /// An array with one item more.
    pub open spec fn and(self, item: JsonTree) -> JsonTree {
        match self {
            JsonTree::Array(items) => JsonTree::Array(items.push(item)),
            _ => self,
        }
    }
}

impl Json {
    /// An object without entries.
    pub fn no_fields() -> (r: Json)
        ensures
            r@ == JsonTree::no_fields(),
    {
        let r = object(Vec::new());
        assert(r@->Object_0 =~= Seq::<(Seq<char>, JsonTree)>::empty());
        r
    }

    /// An object with one entry more. What is no object stays as it is.
    pub fn with(self, key: &str, value: Json) -> (r: Json)
        ensures
            r@ == self@.with(key@, value@),
    {
        match self {
            Json::Object(entries) => {
                let ghost before = Json::Object(entries);
                assert(before@->Object_0 =~= entry_views(entries@));
                let mut more = entries;
                put_entry(&mut more, key, value);
                object(more)
            },
            other => other,
        }
    }

    /// An array without items.
    pub fn no_items() -> (r: Json)
        ensures
            r@ == JsonTree::no_items(),
    {
        let r = array(Vec::new());
        assert(r@->Array_0 =~= Seq::<JsonTree>::empty());
        r
    }

    /// An array with one item more. What is no array stays as it is.
    pub fn and(self, item: Json) -> (r: Json)
        ensures
            r@ == self@.and(item@),
    {
        match self {
            Json::Array(items) => {
                let ghost before = Json::Array(items);
                assert(before@->Array_0 =~= json_views(items@));
                let mut more = items;
                more.push(item);
                let r = array(more);
                assert(r@->Array_0 =~= before@->Array_0.push(item@));
                r
            },
            other => other,
        }
    }
}

/// Adds an entry to those of an object.
pub fn put_entry(entries: &mut Vec<(String, Json)>, key: &str, value: Json)
    ensures
        entry_views(final(entries)@) == entry_views(old(entries)@).push((key@, value@)),
{
    let ghost before = entry_views(entries@);
    entries.push((key.to_owned(), value));
    assert(entry_views(entries@) =~= before.push((key@, value@)));
}

/// An object with the given entries.
pub fn object(entries: Vec<(String, Json)>) -> (r: Json)
    ensures
        r@ == JsonTree::Object(entry_views(entries@)),
{
    let r = Json::Object(entries);
    assert(r@->Object_0 =~= entry_views(entries@));
    r
}

/// An array of the given items.
pub fn array(items: Vec<Json>) -> (r: Json)
    ensures
        r@ == JsonTree::Array(json_views(items@)),
{
    let r = Json::Array(items);
    assert(r@->Array_0 =~= json_views(items@));
    r
}

/// A text.
pub fn text(s: &str) -> (r: Json)
    ensures
        r@ == JsonTree::Text(s@),
{
    Json::Text(s.to_owned())
}

/// A text, or nothing.
pub fn opt_text(value: &Option<String>) -> (r: Json)
    ensures
        r@ == text_or_null(crate::text::opt_view(*value)),
{
    match value {
        Some(s) => Json::Text(s.clone()),
        None => Json::Null,
    }
}

/// A number.
pub fn number(n: u64) -> (r: Json)
    ensures
        r@ == number_tree(n as nat),
{
    Json::Number(crate::text::to_decimal(n))
}

// ---- printing ----------------------------------------------------------------------------

#[verifier::external_type_specification]
#[verifier::external_body]
pub struct ExValue(serde_json::Value);

/// The text of a document over several indented lines, as `serde_json::to_string_pretty` prints
/// it.
pub uninterp spec fn pretty_text(j: JsonTree) -> Seq<char>;

/// The text of a document on one line, as `serde_json::to_string` prints it.
pub uninterp spec fn compact_text(j: JsonTree) -> Seq<char>;

/// The same document as a `serde_json::Value`, variant by variant.
#[verifier::external_body]
fn to_value(j: &Json) -> serde_json::Value {
    match j {
        Json::Null => serde_json::Value::Null,
        Json::Bool(b) => serde_json::Value::Bool(*b),
        Json::Number(s) => serde_json::from_str(s).unwrap_or(serde_json::Value::Null),
        Json::Text(s) => serde_json::Value::String(s.clone()),
        Json::Array(items) => serde_json::Value::Array(items.iter().map(to_value).collect()),
        Json::Object(entries) => serde_json::Value::Object(
            entries.iter().map(|e| (e.0.clone(), to_value(&e.1))).collect(),
        ),
    }
}

/// `serde_json::to_string_pretty`: its result depends on the document alone.
#[verifier::external_body]
pub(crate) fn pretty(j: &Json) -> (r: String)
    ensures
        r@ == pretty_text(j@),
{
    serde_json::to_string_pretty(&to_value(j)).unwrap_or_default()
}

/// The document that a text stands for, as `serde_json::from_str` reads it, or what is wrong with
/// the text.
pub uninterp spec fn value_read(text: Seq<char>) -> Result<JsonTree, Seq<char>>;

/// A document that reads back as it is printed: its numbers are unsigned ones of at most 64 bits,
/// the keys of its objects stand in order and each stands once, and it is at most `depth` deep.
pub open spec fn is_plain(j: JsonTree, depth: nat) -> bool
    decreases depth,
{
    match j {
        JsonTree::Null => true,
        JsonTree::Bool(_) => true,
        JsonTree::Number(s) => exists|n: nat|
            n < 0x1_0000_0000_0000_0000 && s == #[trigger] crate::text::decimal(n),
        JsonTree::Text(_) => true,
        JsonTree::Array(items) => depth > 0 && forall|i: int|
            0 <= i < items.len() ==> is_plain(#[trigger] items[i], (depth - 1) as nat),
        JsonTree::Object(entries) => {
            &&& depth > 0
            &&& forall|i: int|
                0 <= i < entries.len() ==> is_plain((#[trigger] entries[i]).1, (depth - 1) as nat)
            &&& forall|i: int, k: int|
                0 <= i < k < entries.len() ==> (#[trigger] entries[i]).0 != (
                #[trigger] entries[k]).0 && crate::text::text_le(entries[i].0, entries[k].0)
        },
    }
}

/// `serde_json::to_string`: its result depends on the document alone. `serde_json::from_str` reads
/// a plain document back, as long as it is not deeper than its limit.
#[verifier::external_body]
pub(crate) fn compact(j: &Json) -> (r: String)
    ensures
        r@ == compact_text(j@),
        is_plain(j@, 100) ==> crate::lists::read_as(value_read(r@), j@),
{
    serde_json::to_string(&to_value(j)).unwrap_or_default()
}

/// The document that a `serde_json::Value` holds, variant by variant.
#[verifier::external_body]
fn from_value(value: serde_json::Value) -> Json {
    match value {
        serde_json::Value::Null => Json::Null,
        serde_json::Value::Bool(b) => Json::Bool(b),
        serde_json::Value::Number(n) => Json::Number(n.to_string()),
        serde_json::Value::String(s) => Json::Text(s),
        serde_json::Value::Array(items) => Json::Array(items.into_iter().map(from_value).collect()),
        serde_json::Value::Object(entries) => Json::Object(
            entries.into_iter().map(|(key, value)| (key, from_value(value))).collect(),
        ),
    }
}

/// `serde_json::from_str`: its result depends on the text alone. An error is taken as the text
/// that it shows.
#[verifier::external_body]
pub(crate) fn parse(text: &str) -> (r: Result<Json, String>)
    ensures
        match r {
            Ok(j) => value_read(text@) == Ok::<JsonTree, Seq<char>>(j@),
            Err(e) => value_read(text@) == Err::<JsonTree, Seq<char>>(e@),
        },
{
    serde_json::from_str::<serde_json::Value>(text).map(from_value).map_err(|e| e.to_string())
}

/// A text in quotes.
pub open spec fn quoted(s: Seq<char>) -> Seq<char> {
    seq!['"'] + s + seq!['"']
}

/// A text that stands in JSON as it is: it has no quotes, backslashes or control characters.
pub open spec fn is_unescaped(s: Seq<char>) -> bool {
    forall|i: int|
        0 <= i < s.len() ==> (#[trigger] s[i]) != '"' && s[i] != '\\' && (s[i] as u32) >= 32
}

/// The JSON string of a text, as `serde_json::to_string` prints it.
pub uninterp spec fn text_text(s: Seq<char>) -> Seq<char>;

/// The text that a JSON string stands for, as `serde_json::from_str` reads it, or what is wrong
/// with the string.
pub uninterp spec fn text_read(text: Seq<char>) -> Result<Seq<char>, Seq<char>>;

/// The text that the JSON string at the front stands for, with how many bytes it takes up there,
/// or what is wrong with it.
pub uninterp spec fn first_read(text: Seq<char>) -> Result<(Seq<char>, nat), Seq<char>>;

/// `serde_json::to_string` on a text: its result depends on the text alone. It is the text in
/// quotes where nothing has to be escaped. `serde_json::from_str` gives the text back, and so does
/// reading the string at the front, which is all there is.
#[verifier::external_body]
pub(crate) fn write_text(s: &str) -> (r: String)
    ensures
        r@ == text_text(s@),
        is_unescaped(s@) ==> r@ == quoted(s@),
        crate::lists::read_as(text_read(r@), s@),
        crate::lists::read_as(first_read(r@), (s@, crate::text::byte_len(r@))),
{
    serde_json::to_string(s).unwrap_or_default()
}

/// `serde_json::from_str` into a text: its result depends on the text alone. An error is taken as
/// the text that it shows.
#[verifier::external_body]
pub(crate) fn read_text(text: &str) -> (r: Result<String, String>)
    ensures
        match r {
            Ok(s) => text_read(text@) == Ok::<Seq<char>, Seq<char>>(s@),
            Err(e) => text_read(text@) == Err::<Seq<char>, Seq<char>>(e@),
        },
{
    serde_json::from_str::<String>(text).map_err(|e| e.to_string())
}

/// The first item of `serde_json::StreamDeserializer` over texts, with its `byte_offset` behind
/// the item: both depend on the text alone. An error is taken as the text that it shows; where
/// there is no item, it is empty.
#[verifier::external_body]
pub(crate) fn read_first(text: &str) -> (r: Result<(String, usize), String>)
    ensures
        match r {
            Ok((s, n)) => first_read(text@) == Ok::<(Seq<char>, nat), Seq<char>>((s@, n as nat)),
            Err(e) => first_read(text@) == Err::<(Seq<char>, nat), Seq<char>>(e@),
        },
{
    let mut items = serde_json::Deserializer::from_str(text).into_iter::<String>();
    match items.next() {
        Some(Ok(s)) => Ok((s, items.byte_offset())),
        Some(Err(e)) => Err(e.to_string()),
        None => Err(String::new()),
    }
}

/// The text of a list of texts, as `serde_json::to_string` prints it.
pub uninterp spec fn texts_text(list: Seq<Seq<char>>) -> Seq<char>;

/// The list of texts that a text stands for, or what is wrong with it.
pub uninterp spec fn texts_read(text: Seq<char>) -> Result<Seq<Seq<char>>, Seq<char>>;

/// `serde_json::to_string` on a list of texts: its result depends on the texts alone, and
/// `serde_json::from_str` gives them back.
#[verifier::external_body]
pub(crate) fn write_texts(list: &Vec<String>) -> (r: String)
    ensures
        r@ == texts_text(crate::text::views(list@)),
        crate::lists::read_as(texts_read(r@), crate::text::views(list@)),
{
    serde_json::to_string(list).unwrap_or_default()
}

/// `serde_json::from_str` into a list of texts: its result depends on the text alone. An error is
/// taken as the text that it shows.
#[verifier::external_body]
pub(crate) fn read_texts(text: &str) -> (r: Result<Vec<String>, String>)
    ensures
        match r {
            Ok(list) => texts_read(text@) == Ok::<Seq<Seq<char>>, Seq<char>>(
                crate::text::views(list@),
            ),
            Err(e) => texts_read(text@) == Err::<Seq<Seq<char>>, Seq<char>>(e@),
        },
{
    serde_json::from_str::<Vec<String>>(text).map_err(|e| e.to_string())
}

proof fn lemma_entry(entries: Seq<(Seq<char>, JsonTree)>, key: Seq<char>, i: int)
    requires
        0 <= i <= entries.len(),
        forall|j: int| 0 <= j < i ==> (#[trigger] entries[j]).0 != key,
        i < entries.len() ==> entries[i].0 == key,
    ensures
        i < entries.len() ==> entry(entries, key) == Some(entries[i].1),
        i == entries.len() ==> entry(entries, key) is None,
    decreases entries.len(),
{
    if entries.len() > 0 && i > 0 {
        assert(entries[0].0 != key);
        let rest = entries.drop_first();
        assert forall|j: int| 0 <= j < i - 1 implies (#[trigger] rest[j]).0 != key by {
            assert(rest[j] == entries[j + 1]);
        }
        lemma_entry(rest, key, i - 1);
    }
}

/// The field of an object is the value of the first entry with that key; what has no such entry, or
/// is no object, has no such field.
pub proof fn fields_are_found_by_their_keys(
    entries: Seq<(Seq<char>, JsonTree)>,
    key: Seq<char>,
    i: int,
    other: JsonTree,
)
    requires
        0 <= i <= entries.len(),
        forall|j: int| 0 <= j < i ==> (#[trigger] entries[j]).0 != key,
        i < entries.len() ==> entries[i].0 == key,
    ensures
        i < entries.len() ==> JsonTree::Object(entries).field(key) == Some(entries[i].1),
        i == entries.len() ==> JsonTree::Object(entries).field(key) is None,
        other is Object || other.field(key) is None,
{
    lemma_entry(entries, key, i);
}

/// A field has a text where it is one, and only there.
pub proof fn fields_have_texts(value: JsonTree, key: Seq<char>)
    ensures
        value.field(key) matches Some(JsonTree::Text(s)) ==> value.field_text(key) == Some(s),
        value.field_text(key) matches Some(s) ==> value.field(key) == Some(JsonTree::Text(s)),
{
}

/// A value says what it is: a text its characters, a number what its digits stand for below two to
/// the power of 64, an array its items in order.
pub proof fn values_say_what_they_are(value: JsonTree, n: nat)
    ensures
        value.text() matches Some(s) ==> value == JsonTree::Text(s),
        value matches JsonTree::Text(s) ==> value.text() == Some(s),
        n < 0x1_0000_0000_0000_0000 ==> number_tree(n).number() == Some(n),
        value !is Number ==> value.number() is None,
        value matches JsonTree::Array(items) ==> value.items() == items,
        value !is Array ==> value.items().len() == 0,
{
    crate::text::numbers_are_read_from_digits(
        crate::text::decimal(n),
        n,
        0x1_0000_0000_0000_0000,
    );
}

/// A document holds what it was made of: the same items and the same entries in the same order.
pub proof fn documents_hold_their_parts(j: Json, i: int)
    ensures
        j is Null <==> j@ is Null,
        j matches Json::Bool(b) ==> j@ == JsonTree::Bool(b),
        j matches Json::Text(s) ==> j@ == JsonTree::Text(s@),
        j matches Json::Number(s) ==> j@ == JsonTree::Number(s@),
        j matches Json::Array(items) ==> j@ is Array && j@->Array_0.len() == items@.len() && (0 <= i
            < items@.len() ==> j@->Array_0[i] == items@[i]@),
        j matches Json::Object(entries) ==> j@ is Object && j@->Object_0.len() == entries@.len() && (
        0 <= i < entries@.len() ==> j@->Object_0[i].0 == entries@[i].0@ && j@->Object_0[i].1
            == entries@[i].1@),
{
}

/// An entry that is put into an object comes last, and so does an item that is put into an array.
pub proof fn new_parts_come_last(
    entries: Seq<(Seq<char>, JsonTree)>,
    items: Seq<JsonTree>,
    key: Seq<char>,
    value: JsonTree,
)
    ensures
        JsonTree::Object(entries).with(key, value) == JsonTree::Object(entries + seq![(key, value)]),
        JsonTree::Array(items).and(value) == JsonTree::Array(items + seq![value]),
        JsonTree::no_fields() == JsonTree::Object(Seq::empty()),
        JsonTree::no_items() == JsonTree::Array(Seq::empty()),
{
    assert(entries.push((key, value)) =~= entries + seq![(key, value)]);
    assert(items.push(value) =~= items + seq![value]);
}

} // verus!
