//! The words in the columns of a memory are read as serde_json reads the variants of an enum.

use std::fmt;

use neuromancer::memory::{MemoryItem, MemoryKind};
use neuromancer::memory_store::MemoryRow;
use serde::de::{self, DeserializeSeed, Deserializer, EnumAccess, VariantAccess, Visitor};

/// One of some words, as the variants of an enum are read.
struct OneOf(&'static [&'static str]);

struct Words(&'static [&'static str]);

impl<'de> Visitor<'de> for Words {
    type Value = usize;

    fn expecting(&self, f: &mut fmt::Formatter<'_>) -> fmt::Result {
        f.write_str("variant identifier")
    }

    fn visit_str<E: de::Error>(self, word: &str) -> Result<usize, E> {
        self.0
            .iter()
            .position(|known| *known == word)
            .ok_or_else(|| de::Error::unknown_variant(word, self.0))
    }
}

impl<'de> DeserializeSeed<'de> for Words {
    type Value = usize;

    fn deserialize<D: Deserializer<'de>>(self, deserializer: D) -> Result<usize, D::Error> {
        deserializer.deserialize_identifier(self)
    }
}

struct Variants(&'static [&'static str]);

impl<'de> Visitor<'de> for Variants {
    type Value = usize;

    fn expecting(&self, f: &mut fmt::Formatter<'_>) -> fmt::Result {
        f.write_str("enum")
    }

    fn visit_enum<A: EnumAccess<'de>>(self, data: A) -> Result<usize, A::Error> {
        let (found, variant) = data.variant_seed(Words(self.0))?;
        variant.unit_variant()?;
        Ok(found)
    }
}

impl<'de> DeserializeSeed<'de> for OneOf {
    type Value = usize;

    fn deserialize<D: Deserializer<'de>>(self, deserializer: D) -> Result<usize, D::Error> {
        deserializer.deserialize_enum("Word", self.0, Variants(self.0))
    }
}

fn read_variant(column: &str, words: &'static [&'static str]) -> Result<usize, String> {
    let text = format!("\"{column}\"");
    let mut deserializer = serde_json::Deserializer::from_str(&text);
    let found = OneOf(words)
        .deserialize(&mut deserializer)
        .map_err(|err| err.to_string())?;
    deserializer.end().map_err(|err| err.to_string())?;
    Ok(found)
}

const KINDS: &[&str] = &["message", "summary", "fact", "artifact", "link", "tool_result"];
const SOURCES: &[&str] = &["discord", "cron", "a2a", "tool", "agent", "system"];
const SENSITIVITIES: &[&str] = &["public", "private", "secret_ref_only"];

const COLUMNS: [&str; 34] = [
    "message",
    "summary",
    "fact",
    "artifact",
    "link",
    "tool_result",
    "discord",
    "cron",
    "a2a",
    "tool",
    "agent",
    "system",
    "public",
    "private",
    "secret_ref_only",
    "",
    " fact",
    "fact ",
    "Fact",
    "fa\\u0063t",
    "\\u0070ublic",
    "cro\\u006e",
    "fact\"",
    "fact\"x",
    "x\"y",
    "\"fact",
    "x\\",
    "x\\q",
    "x\\n",
    "x\ny",
    "x\u{7f}y",
    "grüße",
    "\\ud800",
    "fact\\\"",
];

fn row() -> MemoryRow {
    let item = MemoryItem::new("p".to_string(), MemoryKind::Fact, "c".to_string());
    MemoryRow::from_item(&item)
}

#[test]
fn words_are_read_as_variants_are() {
    for column in COLUMNS {
        let mut kind = row();
        kind.kind = column.to_string();
        let theirs = read_variant(column, KINDS)
            .map(|found| KINDS[found])
            .map_err(|err| format!("invalid kind '{column}': {err}"));
        let ours = kind.to_memory_item().map(|item| item.kind.as_str());
        assert_eq!(ours, theirs);

        let mut source = row();
        source.source = column.to_string();
        let theirs = read_variant(column, SOURCES)
            .map(|found| SOURCES[found])
            .map_err(|err| format!("invalid source '{column}': {err}"));
        let ours = source.to_memory_item().map(|item| item.source.as_str());
        assert_eq!(ours, theirs);

        let mut sensitivity = row();
        sensitivity.sensitivity = column.to_string();
        let theirs = read_variant(column, SENSITIVITIES)
            .map(|found| SENSITIVITIES[found])
            .map_err(|err| format!("invalid sensitivity '{column}': {err}"));
        let ours = sensitivity
            .to_memory_item()
            .map(|item| item.sensitivity.as_str());
        assert_eq!(ours, theirs);
    }
}

#[test]
fn what_is_wrong_with_a_row_is_told_in_order() {
    let mut bad = row();
    bad.id = "x".to_string();
    bad.kind = "x".to_string();
    let told = bad.to_memory_item().map(|_| ()).unwrap_err();
    let theirs = uuid::Uuid::parse_str("x").map(|_| ()).unwrap_err();
    assert_eq!(told, format!("invalid uuid: {theirs}"));

    let mut bad = row();
    bad.tags = "[1]".to_string();
    let told = bad.to_memory_item().map(|_| ()).unwrap_err();
    let theirs = serde_json::from_str::<Vec<String>>("[1]").unwrap_err();
    assert_eq!(told, format!("invalid tags: {theirs}"));

    let mut bad = row();
    bad.created_at = "yesterday".to_string();
    let told = bad.to_memory_item().map(|_| ()).unwrap_err();
    let theirs = chrono::DateTime::parse_from_rfc3339("yesterday").unwrap_err();
    assert_eq!(told, format!("invalid created_at: {theirs}"));

    let mut bad = row();
    bad.expires_at = Some("".to_string());
    let told = bad.to_memory_item().map(|_| ()).unwrap_err();
    let theirs = chrono::DateTime::parse_from_rfc3339("").unwrap_err();
    assert_eq!(told, format!("invalid expires_at: {theirs}"));

    let mut odd = row();
    odd.metadata = "{".to_string();
    let item = odd.to_memory_item().expect("odd metadata is no fault");
    assert_eq!(item.metadata, neuromancer::json::Json::Null);
}
