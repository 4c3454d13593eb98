//! What is taken from the clipboard.

use vstd::prelude::*;
use crate::chat::composer::{normalize_line_endings, normalized};
use crate::text::{blank, chars_of, is_blank, string_of};

verus! {

/// A text without the line breaks at its end.
pub open spec fn without_breaks(s: Seq<char>) -> Seq<char>
    decreases s.len(),
{
    if s.len() > 0 && s.last() == '\n' {
        without_breaks(s.drop_last())
    } else {
        s
    }
}

/// What is pasted, for what a command that shows the clipboard printed. Blank output counts as an
/// empty clipboard.
pub open spec fn pasteable(output: Seq<char>) -> Option<Seq<char>> {
    if blank(output) {
        None
    } else {
        Some(normalized(without_breaks(output)))
    }
}

/// What is pasted, for what a command that shows the clipboard printed.
pub fn clipboard_text(output: &str) -> (r: Option<String>)
    ensures
        crate::text::opt_view(r) == pasteable(output@),
{
    if is_blank(output) {
        return None;
    }
    let chars = chars_of(output);
    let mut to: usize = chars.len();
    assert(chars@.take(to as int) =~= chars@);
    while to > 0 && chars[to - 1] == '\n'
        invariant
            to <= chars@.len(),
            without_breaks(chars@) == without_breaks(chars@.take(to as int)),
        decreases to,
    {
        assert(chars@.take(to as int).drop_last() =~= chars@.take(to - 1));
        to = to - 1;
    }
    assert(chars@.take(to as int) =~= chars@.subrange(0, to as int));
    let kept = string_of(&chars, 0, to);
    Some(normalize_line_endings(kept.as_str()))
}

/// Line feeds at the end are left out when a text is taken from outside; a blank text is nothing.
pub proof fn pasted_texts_end_without_line_feeds(s: Seq<char>)
    ensures
        without_breaks(s.push('\n')) == without_breaks(s),
        s.len() > 0 && s.last() != '\n' ==> without_breaks(s) == s,
        without_breaks(s).is_prefix_of(s),
        crate::text::trimmed(s).len() == 0 ==> pasteable(s) is None,
        crate::text::trimmed(s).len() > 0 ==> pasteable(s) == Some(normalized(without_breaks(s))),
    decreases s.len(),
{
    crate::text::lemma_blank(s);
    assert(s.push('\n').drop_last() =~= s);
    if s.len() > 0 && s.last() == '\n' {
        pasted_texts_end_without_line_feeds(s.drop_last());
        assert(without_breaks(s).is_prefix_of(s)) by {
            assert(without_breaks(s) =~= s.take(without_breaks(s).len() as int));
        }
    }
}

} // verus!
