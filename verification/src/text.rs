//! Text as sequences of characters: searching, splitting, trimming and building strings.

use vstd::prelude::*;
use vstd::utf8::{
    decode_utf8, encode_utf8, encode_utf8_decode_utf8, has_width_1_encoding,
    has_width_2_encoding, has_width_3_encoding,
};

verus! {

/// `String::push` appends one character at the end.
pub assume_specification[ std::string::String::push ](s: &mut std::string::String, c: char)
    ensures
        final(s)@ == old(s)@.push(c),
;

/// The contents of a list of strings.
pub open spec fn views(list: Seq<String>) -> Seq<Seq<char>> {
    Seq::new(list.len(), |i: int| list[i]@)
}

/// The contents of an optional string.
pub open spec fn opt_view(value: Option<String>) -> Option<Seq<char>> {
    match value {
        Some(s) => Some(s@),
        None => None,
    }
}

/// The characters of a string, one by one.
pub fn chars_of(s: &str) -> (r: Vec<char>)
    ensures
        r@ == s@,
{
    let mut r: Vec<char> = Vec::new();
    for c in it: s.chars()
        invariant
            r@ == it.seq().take(it.index() as int),
    {
        r.push(c);
    }
    r
}

/// The string made of the characters `chars[from..to]`.
pub fn string_of(chars: &Vec<char>, from: usize, to: usize) -> (r: String)
    requires
        from <= to <= chars@.len(),
    ensures
        r@ == chars@.subrange(from as int, to as int),
{
    let mut r = String::new();
    let mut i: usize = from;
    while i < to
        invariant
            from <= i <= to <= chars@.len(),
            r@ == chars@.subrange(from as int, i as int),
        decreases to - i,
    {
        r.push(chars[i]);
        i = i + 1;
    }
    r
}

/// Whether two strings have the same characters.
pub fn same(a: &str, b: &str) -> (r: bool)
    ensures
        r == (a@ == b@),
{
    let x = a.as_bytes();
    let y = b.as_bytes();
    if x.len() != y.len() {
        return false;
    }
    let mut i: usize = 0;
    while i < x.len()
        invariant
            i <= x@.len() == y@.len(),
            x@ == encode_utf8(a@),
            y@ == encode_utf8(b@),
            forall|j: int| 0 <= j < i ==> x@[j] == y@[j],
        decreases x@.len() - i,
    {
        if x[i] != y[i] {
            return false;
        }
        i = i + 1;
    }
    proof {
        assert(x@ =~= y@);
        encode_utf8_decode_utf8(a@);
        encode_utf8_decode_utf8(b@);
        assert(a@ == decode_utf8(x@));
    }
    true
}

/// Whether an optional string is present and has the given characters.
pub fn opt_same(a: &Option<String>, b: &str) -> (r: bool)
    ensures
        r == (opt_view(*a) == Some(b@)),
{
    match a {
        Some(s) => same(s.as_str(), b),
        None => false,
    }
}

/// Whether one of the strings in a list has the given characters.
pub fn list_has(list: &Vec<String>, s: &str) -> (r: bool)
    ensures
        r == views(list@).contains(s@),
{
    let mut i: usize = 0;
    while i < list.len()
        invariant
            i <= list@.len(),
            forall|j: int| 0 <= j < i ==> views(list@)[j] != s@,
        decreases list@.len() - i,
    {
        if same(list[i].as_str(), s) {
            assert(views(list@)[i as int] == s@);
            return true;
        }
        i = i + 1;
    }
    assert(!views(list@).contains(s@));
    false
}

/// A copy of a list of strings.
pub fn copy_list(list: &Vec<String>) -> (r: Vec<String>)
    ensures
        r@ == list@,
{
    let mut r: Vec<String> = Vec::new();
    let mut i: usize = 0;
    while i < list.len()
        invariant
            i <= list@.len(),
            r@ == list@.take(i as int),
        decreases list@.len() - i,
    {
        r.push(list[i].clone());
        i = i + 1;
    }
    r
}

/// A copy of an optional string.
pub fn copy_opt(value: &Option<String>) -> (r: Option<String>)
    ensures
        r == *value,
{
    match value {
        Some(s) => Some(s.clone()),
        None => None,
    }
}

// ---- white space -------------------------------------------------------------------------

/// The characters with the Unicode property `White_Space`.
pub open spec fn white(c: char) -> bool {
    let u = c as u32;
    ||| 0x09 <= u <= 0x0d
    ||| u == 0x20
    ||| u == 0x85
    ||| u == 0xa0
    ||| u == 0x1680
    ||| 0x2000 <= u <= 0x200a
    ||| u == 0x2028
    ||| u == 0x2029
    ||| u == 0x202f
    ||| u == 0x205f
    ||| u == 0x3000
}

/// Whether `c` is white space.
pub fn is_white(c: char) -> (r: bool)
    ensures
        r == white(c),
{
    let u: u32 = c as u32;
    (0x09 <= u && u <= 0x0d) || u == 0x20 || u == 0x85 || u == 0xa0 || u == 0x1680 || (0x2000 <= u
        && u <= 0x200a) || u == 0x2028 || u == 0x2029 || u == 0x202f || u == 0x205f || u == 0x3000
}

/// `s` without the white space in front.
pub open spec fn trim_start(s: Seq<char>) -> Seq<char>
    decreases s.len(),
{
    if s.len() > 0 && white(s[0]) {
        trim_start(s.drop_first())
    } else {
        s
    }
}

/// `s` without the white space at the end.
pub open spec fn trim_end(s: Seq<char>) -> Seq<char>
    decreases s.len(),
{
    if s.len() > 0 && white(s.last()) {
        trim_end(s.drop_last())
    } else {
        s
    }
}

/// `s` without the white space at both ends.
pub open spec fn trimmed(s: Seq<char>) -> Seq<char> {
    trim_end(trim_start(s))
}

/// Whether `s` holds nothing but white space.
pub open spec fn blank(s: Seq<char>) -> bool {
    forall|i: int| 0 <= i < s.len() ==> white(#[trigger] s[i])
}

/// Trimming leaves nothing exactly of blank text.
pub proof fn lemma_blank(s: Seq<char>)
    ensures
        blank(s) <==> trimmed(s).len() == 0,
{
    lemma_trim_start_blank(s);
    lemma_trim_end_blank(trim_start(s));
    if !blank(s) {
        lemma_trim_start_head(s);
        assert(!white(trim_start(s)[0]));
    }
}

proof fn lemma_trim_start_blank(s: Seq<char>)
    ensures
        blank(s) <==> trim_start(s).len() == 0,
    decreases s.len(),
{
    if s.len() > 0 && white(s[0]) {
        lemma_trim_start_blank(s.drop_first());
        assert(blank(s) <==> blank(s.drop_first())) by {
            if blank(s.drop_first()) {
                assert forall|i: int| 0 <= i < s.len() implies white(#[trigger] s[i]) by {
                    if i > 0 {
                        assert(s.drop_first()[i - 1] == s[i]);
                    }
                }
            }
        }
    }
}

proof fn lemma_trim_start_head(s: Seq<char>)
    ensures
        trim_start(s).len() > 0 ==> !white(trim_start(s)[0]),
    decreases s.len(),
{
    if s.len() > 0 && white(s[0]) {
        lemma_trim_start_head(s.drop_first());
    }
}

proof fn lemma_trim_end_blank(s: Seq<char>)
    ensures
        blank(s) <==> trim_end(s).len() == 0,
    decreases s.len(),
{
    if s.len() > 0 && white(s.last()) {
        lemma_trim_end_blank(s.drop_last());
        assert(blank(s) <==> blank(s.drop_last())) by {
            if blank(s.drop_last()) {
                assert forall|i: int| 0 <= i < s.len() implies white(#[trigger] s[i]) by {
                    if i < s.len() - 1 {
                        assert(s.drop_last()[i] == s[i]);
                    }
                }
            }
        }
    }
}

/// `s` without the white space at both ends.
pub fn trim(s: &str) -> (r: String)
    ensures
        r@ == trimmed(s@),
{
    let chars = chars_of(s);
    let mut from: usize = 0;
    assert(chars@.skip(0) =~= chars@);
    while from < chars.len() && is_white(chars[from])
        invariant
            from <= chars@.len(),
            trim_start(chars@) == trim_start(chars@.skip(from as int)),
        decreases chars@.len() - from,
    {
        assert(chars@.skip(from as int).drop_first() =~= chars@.skip(from + 1));
        from = from + 1;
    }
    let ghost tail = chars@.skip(from as int);
    assert(trim_start(chars@) == tail);
    let mut to: usize = chars.len();
    assert(tail =~= chars@.subrange(from as int, to as int));
    while to > from && is_white(chars[to - 1])
        invariant
            from <= to <= chars@.len(),
            trim_end(tail) == trim_end(chars@.subrange(from as int, to as int)),
        decreases to,
    {
        assert(chars@.subrange(from as int, to as int).drop_last() =~= chars@.subrange(
            from as int,
            to - 1,
        ));
        to = to - 1;
    }
    string_of(&chars, from, to)
}

/// Whether `s` holds nothing but white space.
pub fn is_blank(s: &str) -> (r: bool)
    ensures
        r == blank(s@),
{
    let chars = chars_of(s);
    let mut i: usize = 0;
    while i < chars.len()
        invariant
            i <= chars@.len(),
            chars@ == s@,
            forall|j: int| 0 <= j < i ==> white(#[trigger] s@[j]),
        decreases chars@.len() - i,
    {
        if !is_white(chars[i]) {
            assert(!white(s@[i as int]));
            return false;
        }
        i = i + 1;
    }
    true
}

// ---- searching ---------------------------------------------------------------------------

/// `pat` stands in `s` from position `i` on.
pub open spec fn occurs_at(s: Seq<char>, pat: Seq<char>, i: int) -> bool {
    0 <= i && i + pat.len() <= s.len() && s.subrange(i, i + pat.len()) == pat
}

/// `pat` stands somewhere in `s`.
pub open spec fn occurs(s: Seq<char>, pat: Seq<char>) -> bool {
    exists|i: int| occurs_at(s, pat, i)
}

/// Position `i` is the first at which `pat` stands in `s`.
pub open spec fn first_at(s: Seq<char>, pat: Seq<char>, i: int) -> bool {
    occurs_at(s, pat, i) && forall|j: int| 0 <= j < i ==> !occurs_at(s, pat, j)
}

/// `s` begins with `pat`.
pub open spec fn has_prefix(s: Seq<char>, pat: Seq<char>) -> bool {
    occurs_at(s, pat, 0)
}

/// Whether `pat` stands in `chars` from position `i` on.
pub fn stands_at(chars: &Vec<char>, pat: &Vec<char>, i: usize) -> (r: bool)
    ensures
        r == occurs_at(chars@, pat@, i as int),
{
    if i > chars.len() || pat.len() > chars.len() - i {
        return false;
    }
    let mut k: usize = 0;
    while k < pat.len()
        invariant
            k <= pat@.len(),
            i + pat.len() <= chars.len(),
            forall|j: int| 0 <= j < k ==> chars@[i + j] == pat@[j],
        decreases pat@.len() - k,
    {
        if chars[i + k] != pat[k] {
            assert(chars@.subrange(i as int, i + pat@.len())[k as int] != pat@[k as int]);
            return false;
        }
        k = k + 1;
    }
    assert(chars@.subrange(i as int, i + pat@.len()) =~= pat@);
    true
}

/// The first position at or after `from` at which `pat` stands in `chars`.
pub fn find_from(chars: &Vec<char>, pat: &Vec<char>, from: usize) -> (r: Option<usize>)
    ensures
        match r {
            Some(i) => from <= i && occurs_at(chars@, pat@, i as int) && forall|j: int|
                from <= j < i ==> !occurs_at(chars@, pat@, j),
            None => forall|j: int| from <= j ==> !occurs_at(chars@, pat@, j),
        },
{
    let mut i: usize = from;
    while i <= chars.len()
        invariant
            from <= i,
            i <= chars@.len() + 1 || i == from,
            forall|j: int| from <= j < i ==> !occurs_at(chars@, pat@, j),
        decreases chars@.len() + 1 - i,
    {
        if stands_at(chars, pat, i) {
            return Some(i);
        }
        if i == chars.len() {
            assert forall|j: int| from <= j implies !occurs_at(chars@, pat@, j) by {}
            return None;
        }
        i = i + 1;
    }
    None
}

/// Whether `pat` stands somewhere in `s`.
pub fn has(s: &str, pat: &str) -> (r: bool)
    ensures
        r == occurs(s@, pat@),
{
    let chars = chars_of(s);
    let p = chars_of(pat);
    find_from(&chars, &p, 0).is_some()
}

/// Whether `s` begins with `pat`.
pub fn begins(s: &str, pat: &str) -> (r: bool)
    ensures
        r == has_prefix(s@, pat@),
{
    let chars = chars_of(s);
    let p = chars_of(pat);
    stands_at(&chars, &p, 0)
}

/// What follows `pat` in a string that begins with it.
pub fn strip_prefix(s: &str, pat: &str) -> (r: Option<String>)
    ensures
        opt_view(r) == (if has_prefix(s@, pat@) {
            Some(s@.skip(pat@.len() as int))
        } else {
            None
        }),
{
    let chars = chars_of(s);
    let p = chars_of(pat);
    if stands_at(&chars, &p, 0) {
        let r = string_of(&chars, p.len(), chars.len());
        assert(r@ =~= s@.skip(pat@.len() as int));
        Some(r)
    } else {
        None
    }
}

/// The position of the first `c` in `s`, or the length of `s`.
pub open spec fn char_index(s: Seq<char>, c: char) -> int
    decreases s.len(),
{
    if s.len() == 0 || s[0] == c {
        0
    } else {
        1 + char_index(s.drop_first(), c)
    }
}

/// What `char_index` finds.
pub proof fn lemma_char_index(s: Seq<char>, c: char)
    ensures
        0 <= char_index(s, c) <= s.len(),
        char_index(s, c) < s.len() ==> s[char_index(s, c)] == c,
        forall|j: int| 0 <= j < char_index(s, c) ==> s[j] != c,
    decreases s.len(),
{
    if s.len() > 0 && s[0] != c {
        lemma_char_index(s.drop_first(), c);
        let k = char_index(s.drop_first(), c);
        assert forall|j: int| 0 <= j < char_index(s, c) implies s[j] != c by {
            if j > 0 {
                assert(s.drop_first()[j - 1] == s[j]);
            }
        }
    }
}

/// The only position that is preceded by no `c` and holds one, or ends the text.
pub proof fn lemma_char_index_is(s: Seq<char>, c: char, k: int)
    requires
        0 <= k <= s.len(),
        k < s.len() ==> s[k] == c,
        forall|j: int| 0 <= j < k ==> s[j] != c,
    ensures
        char_index(s, c) == k,
{
    lemma_char_index(s, c);
}

/// The position of the first `c` in `chars` at or after `from`, or the length of `chars`.
pub fn index_from(chars: &Vec<char>, c: char, from: usize) -> (r: usize)
    requires
        from <= chars@.len(),
    ensures
        from <= r <= chars@.len(),
        r - from == char_index(chars@.skip(from as int), c),
{
    let mut i: usize = from;
    while i < chars.len() && chars[i] != c
        invariant
            from <= i <= chars@.len(),
            forall|j: int| from <= j < i ==> chars@[j] != c,
        decreases chars@.len() - i,
    {
        i = i + 1;
    }
    proof {
        let rest = chars@.skip(from as int);
        assert forall|j: int| 0 <= j < i - from implies rest[j] != c by {}
        lemma_char_index_is(rest, c, i - from);
    }
    i
}

// ---- splitting ---------------------------------------------------------------------------

/// The pieces of `s` between the occurrences of `c`.
pub open spec fn split(s: Seq<char>, c: char) -> Seq<Seq<char>>
    decreases s.len(),
{
    let k = char_index(s, c);
    if k < 0 || k >= s.len() {
        seq![s]
    } else {
        seq![s.take(k)] + split(s.skip(k + 1), c)
    }
}

/// The pieces of `s` between the occurrences of `c`.
pub fn split_on(s: &str, c: char) -> (r: Vec<String>)
    ensures
        views(r@) == split(s@, c),
        r@.len() > 0,
{
    let chars = chars_of(s);
    let mut r: Vec<String> = Vec::new();
    let mut from: usize = 0;
    assert(chars@.skip(0) =~= chars@);
    loop
        invariant
            from <= chars@.len(),
            chars@ == s@,
            views(r@) + split(chars@.skip(from as int), c) == split(s@, c),
        decreases chars@.len() - from,
    {
        let to = index_from(&chars, c, from);
        let piece = string_of(&chars, from, to);
        let ghost rest = chars@.skip(from as int);
        let ghost before = r@;
        r.push(piece);
        proof {
            assert(piece@ =~= rest.take(to - from));
            assert(views(r@) =~= views(before).push(piece@));
        }
        if to == chars.len() {
            proof {
                assert(piece@ =~= rest);
                assert(views(r@) =~= views(before) + seq![rest]);
            }
            return r;
        }
        proof {
            assert(rest.skip(to - from + 1) =~= chars@.skip(to + 1));
            assert(views(r@) + split(chars@.skip(to + 1), c) =~= views(before) + (seq![
                rest.take(to - from),
            ] + split(chars@.skip(to + 1), c)));
        }
        from = to + 1;
    }
}

/// `s` without one carriage return at its end.
pub open spec fn without_cr(s: Seq<char>) -> Seq<char> {
    if s.len() > 0 && s.last() == '\r' {
        s.drop_last()
    } else {
        s
    }
}

/// The lines of a text. A line ends at a line feed, with the carriage return before it if there
/// is one; the last line needs no end.
pub open spec fn lines(s: Seq<char>) -> Seq<Seq<char>>
    decreases s.len(),
{
    let k = char_index(s, '\n');
    if s.len() == 0 {
        seq![]
    } else if k < 0 || k >= s.len() {
        seq![s]
    } else {
        seq![without_cr(s.take(k))] + lines(s.skip(k + 1))
    }
}

/// The lines of a text.
pub fn lines_of(s: &str) -> (r: Vec<String>)
    ensures
        views(r@) == lines(s@),
{
    let chars = chars_of(s);
    let mut r: Vec<String> = Vec::new();
    let mut from: usize = 0;
    assert(chars@.skip(0) =~= chars@);
    while from < chars.len()
        invariant
            from <= chars@.len(),
            chars@ == s@,
            views(r@) + lines(chars@.skip(from as int)) == lines(s@),
        decreases chars@.len() - from,
    {
        let to = index_from(&chars, '\n', from);
        let ghost rest = chars@.skip(from as int);
        let ghost before = r@;
        if to == chars.len() {
            let line = string_of(&chars, from, to);
            r.push(line);
            proof {
                assert(line@ =~= rest);
                assert(views(r@) =~= views(before) + seq![rest]);
                assert(lines(rest) =~= seq![rest]);
            }
            return r;
        }
        let ghost whole = rest.take(to - from);
        let mut end: usize = to;
        if to > from && chars[to - 1] == '\r' {
            assert(whole.last() == '\r');
            end = to - 1;
        } else {
            assert(whole.len() > 0 ==> whole.last() == chars@[to - 1]);
        }
        let line = string_of(&chars, from, end);
        r.push(line);
        proof {
            assert(line@ =~= without_cr(whole));
            assert(views(r@) =~= views(before).push(line@));
            assert(rest.skip(to - from + 1) =~= chars@.skip(to + 1));
            assert(views(r@) + lines(chars@.skip(to + 1)) =~= views(before) + (seq![
                without_cr(whole),
            ] + lines(chars@.skip(to + 1))));
        }
        from = to + 1;
    }
    assert(chars@.skip(from as int).len() == 0);
    assert(views(r@) + lines(chars@.skip(from as int)) =~= views(r@));
    r
}

// ---- building ----------------------------------------------------------------------------

/// `s` with every `from` replaced by `to`, from the front on. Replacing nothing changes nothing.
pub open spec fn replaced(s: Seq<char>, from: Seq<char>, to: Seq<char>) -> Seq<char>
    decreases s.len(),
{
    if s.len() == 0 || from.len() == 0 {
        s
    } else if has_prefix(s, from) {
        to + replaced(s.skip(from.len() as int), from, to)
    } else {
        seq![s[0]] + replaced(s.drop_first(), from, to)
    }
}

/// `s` with every `from` replaced by `to`, from the front on.
pub fn replace(s: &str, from: &str, to: &str) -> (r: String)
    requires
        from@.len() > 0,
    ensures
        r@ == replaced(s@, from@, to@),
{
    let chars = chars_of(s);
    let pat = chars_of(from);
    let mut r = String::new();
    let mut i: usize = 0;
    assert(chars@.skip(0) =~= chars@);
    while i < chars.len()
        invariant
            i <= chars@.len(),
            chars@ == s@,
            pat@ == from@,
            pat@.len() > 0,
            r@ + replaced(chars@.skip(i as int), from@, to@) == replaced(s@, from@, to@),
        decreases chars@.len() - i,
    {
        let ghost rest = chars@.skip(i as int);
        let ghost before = r@;
        if stands_at(&chars, &pat, i) {
            r.append(to);
            proof {
                assert(rest.subrange(0, from@.len() as int) =~= chars@.subrange(
                    i as int,
                    i + from@.len(),
                ));
                assert(has_prefix(rest, from@));
                assert(rest.skip(from@.len() as int) =~= chars@.skip(i + from@.len()));
                assert(r@ + replaced(chars@.skip(i + from@.len()), from@, to@) =~= before + (to@
                    + replaced(chars@.skip(i + from@.len()), from@, to@)));
            }
            i = i + pat.len();
        } else {
            r.push(chars[i]);
            proof {
                if has_prefix(rest, from@) {
                    assert(rest.subrange(0, from@.len() as int) =~= chars@.subrange(
                        i as int,
                        i + from@.len(),
                    ));
                }
                assert(rest.drop_first() =~= chars@.skip(i + 1));
                assert(r@ + replaced(chars@.skip(i + 1), from@, to@) =~= before + (seq![rest[0]]
                    + replaced(chars@.skip(i + 1), from@, to@)));
            }
            i = i + 1;
        }
    }
    assert(chars@.skip(i as int).len() == 0);
    assert(r@ + replaced(chars@.skip(i as int), from@, to@) =~= r@);
    r
}

/// The first `n` characters of `s`, or all of it.
pub open spec fn clipped(s: Seq<char>, n: int) -> Seq<char> {
    if n < s.len() {
        s.take(n)
    } else {
        s
    }
}

/// The first `n` characters of `s`, or all of it.
pub fn clip(s: &str, n: usize) -> (r: String)
    ensures
        r@ == clipped(s@, n as int),
{
    let chars = chars_of(s);
    let to: usize = if n < chars.len() {
        n
    } else {
        chars.len()
    };
    let r = string_of(&chars, 0, to);
    assert(r@ =~= clipped(s@, n as int));
    r
}

/// The number of characters in `s`.
pub fn count(s: &str) -> (r: usize)
    ensures
        r == s@.len(),
{
    chars_of(s).len()
}

/// `a` followed by `b`.
pub fn cat(a: &str, b: &str) -> (r: String)
    ensures
        r@ == a@ + b@,
{
    let mut r = a.to_owned();
    r.append(b);
    r
}

/// `a`, `b` and `c`, one after the other.
pub fn cat3(a: &str, b: &str, c: &str) -> (r: String)
    ensures
        r@ == a@ + b@ + c@,
{
    let mut r = a.to_owned();
    r.append(b);
    r.append(c);
    r
}

/// The pieces of a list, with `sep` between each two.
pub open spec fn joined(list: Seq<Seq<char>>, sep: Seq<char>) -> Seq<char>
    decreases list.len(),
{
    if list.len() == 0 {
        Seq::empty()
    } else if list.len() == 1 {
        list[0]
    } else {
        joined(list.drop_last(), sep) + sep + list.last()
    }
}

/// The pieces of a list, with `sep` between each two.
pub fn join(list: &Vec<String>, sep: &str) -> (r: String)
    ensures
        r@ == joined(views(list@), sep@),
{
    let mut r = String::new();
    let mut i: usize = 0;
    assert(views(list@).take(0) =~= Seq::empty());
    while i < list.len()
        invariant
            i <= list@.len(),
            r@ == joined(views(list@).take(i as int), sep@),
        decreases list@.len() - i,
    {
        let ghost next = views(list@).take(i + 1);
        assert(next.drop_last() =~= views(list@).take(i as int));
        if i > 0 {
            r.append(sep);
        }
        r.append(list[i].as_str());
        assert(r@ =~= joined(next, sep@));
        i = i + 1;
    }
    assert(views(list@).take(i as int) =~= views(list@));
    r
}

/// The digit for a number below ten.
pub open spec fn digit(n: nat) -> char {
    (48 + n) as char
}

/// A number in decimal notation.
pub open spec fn decimal(n: nat) -> Seq<char>
    decreases n,
{
    if n < 10 {
        seq![digit(n)]
    } else {
        decimal(n / 10).push(digit(n % 10))
    }
}

/// A number in decimal notation.
pub fn to_decimal(n: u64) -> (r: String)
    ensures
        r@ == decimal(n as nat),
    decreases n,
{
    let mut r = if n < 10 {
        String::new()
    } else {
        to_decimal(n / 10)
    };
    let d: u8 = 48 + (n % 10) as u8;
    r.push(d as char);
    assert(r@ =~= decimal(n as nat));
    r
}

/// A number as it is written, with a minus sign where it is negative.
pub open spec fn integer_text(n: int) -> Seq<char> {
    if n < 0 {
        "-"@ + decimal((-n) as nat)
    } else {
        decimal(n as nat)
    }
}

/// A number as it is written.
pub fn integer_to_text(n: i64) -> (r: String)
    ensures
        r@ == integer_text(n as int),
{
    if n < 0 {
        let positive: i128 = -(n as i128);
        cat("-", to_decimal(positive as u64).as_str())
    } else {
        to_decimal(n as u64)
    }
}

/// The value of a decimal digit.
pub open spec fn digit_value(c: char) -> Option<nat> {
    if 48 <= c as u32 <= 57 {
        Some((c as u32 - 48) as nat)
    } else {
        None
    }
}

/// The number that a text of decimal digits stands for.
pub open spec fn decimal_value(s: Seq<char>) -> Option<nat>
    decreases s.len(),
{
    if s.len() == 0 {
        Some(0)
    } else {
        match (decimal_value(s.drop_last()), digit_value(s.last())) {
            (Some(high), Some(low)) => Some(high * 10 + low),
            _ => None,
        }
    }
}

/// The unsigned number below `limit` that a text stands for: digits, at least one of them, with
/// or without a plus sign in front.
pub open spec fn unsigned(s: Seq<char>, limit: int) -> Option<nat> {
    let digits = if s.len() > 1 && s[0] == '+' {
        s.drop_first()
    } else {
        s
    };
    if digits.len() == 0 {
        None
    } else {
        match decimal_value(digits) {
            Some(n) if n < limit => Some(n),
            _ => None,
        }
    }
}

/// The number that a text stands for, if it fits in 64 bits.
pub fn parse_u64(s: &str) -> (r: Option<u64>)
    ensures
        match r {
            Some(n) => unsigned(s@, 0x1_0000_0000_0000_0000) == Some(n as nat),
            None => unsigned(s@, 0x1_0000_0000_0000_0000) is None,
        },
{
    let chars = chars_of(s);
    let from: usize = if chars.len() > 1 && chars[0] == '+' {
        1
    } else {
        0
    };
    let ghost digits = chars@.skip(from as int);
    proof {
        assert(digits =~= if s@.len() > 1 && s@[0] == '+' {
            s@.drop_first()
        } else {
            s@
        });
        assert(digits.take(0) =~= Seq::empty());
    }
    if from == chars.len() {
        return None;
    }
    let mut n: u64 = 0;
    let mut i: usize = from;
    while i < chars.len()
        invariant
            from <= i <= chars@.len(),
            digits == chars@.skip(from as int),
            digits.len() > 0,
            digits == (if s@.len() > 1 && s@[0] == '+' {
                s@.drop_first()
            } else {
                s@
            }),
            decimal_value(digits.take(i - from)) == Some(n as nat),
        decreases chars@.len() - i,
    {
        let ghost next = digits.take(i - from + 1);
        proof {
            assert(next.drop_last() =~= digits.take(i - from));
            assert(next.last() == chars@[i as int]);
        }
        let u: u32 = chars[i] as u32;
        if u < 48 || u > 57 {
            proof {
                assert(decimal_value(next) is None);
                lemma_decimal_prefix(digits, i - from + 1);
            }
            return None;
        }
        let d: u64 = (u - 48) as u64;
        if n > 1844674407370955161 || (n == 1844674407370955161 && d > 5) {
            proof {
                lemma_decimal_prefix(digits, i - from + 1);
            }
            return None;
        }
        n = n * 10 + d;
        i = i + 1;
    }
    assert(digits.take(i - from) =~= digits);
    Some(n)
}

proof fn lemma_decimal_prefix(s: Seq<char>, k: int)
    requires
        0 <= k <= s.len(),
    ensures
        decimal_value(s) matches Some(n) ==> decimal_value(s.take(k)) matches Some(m) && m <= n,
    decreases s.len() - k,
{
    if k < s.len() {
        lemma_decimal_prefix(s, k + 1);
        assert(s.take(k + 1).drop_last() =~= s.take(k));
    } else {
        assert(s.take(k) =~= s);
    }
}

/// What `to_decimal` writes, `parse_u64` reads back.
pub proof fn decimal_reads_back(n: nat)
    ensures
        decimal_value(decimal(n)) == Some(n),
    decreases n,
{
    if n < 10 {
        assert(decimal(n).drop_last() =~= Seq::empty());
        assert(decimal_value(Seq::<char>::empty()) == Some(0nat));
        assert(digit_value(digit(n)) == Some(n));
    } else {
        decimal_reads_back(n / 10);
        assert(decimal(n).drop_last() =~= decimal(n / 10));
        assert(digit_value(digit(n % 10)) == Some(n % 10));
    }
}

// ---- ASCII letters -----------------------------------------------------------------------

/// `c`, with an ASCII capital made small.
pub open spec fn lower_char(c: char) -> char {
    if 65 <= c as u32 <= 90 {
        (c as u32 + 32) as char
    } else {
        c
    }
}

/// `c`, with a small ASCII letter made a capital.
pub open spec fn upper_char(c: char) -> char {
    if 97 <= c as u32 <= 122 {
        (c as u32 - 32) as char
    } else {
        c
    }
}

/// `s` with its ASCII capitals made small.
pub open spec fn ascii_lower(s: Seq<char>) -> Seq<char> {
    Seq::new(s.len(), |i: int| lower_char(s[i]))
}

/// `s` with its small ASCII letters made capitals.
pub open spec fn ascii_upper(s: Seq<char>) -> Seq<char> {
    Seq::new(s.len(), |i: int| upper_char(s[i]))
}

/// `c`, with an ASCII capital made small.
pub fn to_lower_char(c: char) -> (r: char)
    ensures
        r == lower_char(c),
{
    let u: u32 = c as u32;
    if 65 <= u && u <= 90 {
        let b: u8 = (u + 32) as u8;
        b as char
    } else {
        c
    }
}

/// `c`, with a small ASCII letter made a capital.
pub fn to_upper_char(c: char) -> (r: char)
    ensures
        r == upper_char(c),
{
    let u: u32 = c as u32;
    if 97 <= u && u <= 122 {
        let b: u8 = (u - 32) as u8;
        b as char
    } else {
        c
    }
}

/// `s` with its ASCII capitals made small.
pub fn to_ascii_lower(s: &str) -> (r: String)
    ensures
        r@ == ascii_lower(s@),
{
    let chars = chars_of(s);
    let mut r = String::new();
    let mut i: usize = 0;
    while i < chars.len()
        invariant
            i <= chars@.len(),
            chars@ == s@,
            r@ == ascii_lower(s@).take(i as int),
        decreases chars@.len() - i,
    {
        r.push(to_lower_char(chars[i]));
        i = i + 1;
    }
    assert(r@ =~= ascii_lower(s@));
    r
}

/// `s` with its small ASCII letters made capitals.
pub fn to_ascii_upper(s: &str) -> (r: String)
    ensures
        r@ == ascii_upper(s@),
{
    let chars = chars_of(s);
    let mut r = String::new();
    let mut i: usize = 0;
    while i < chars.len()
        invariant
            i <= chars@.len(),
            chars@ == s@,
            r@ == ascii_upper(s@).take(i as int),
        decreases chars@.len() - i,
    {
        r.push(to_upper_char(chars[i]));
        i = i + 1;
    }
    assert(r@ =~= ascii_upper(s@));
    r
}

/// `n` spaces.
pub open spec fn blanks(n: nat) -> Seq<char> {
    Seq::new(n, |i: int| ' ')
}

/// `n` spaces.
pub fn spaces(n: usize) -> (r: String)
    ensures
        r@ == blanks(n as nat),
{
    let mut r = String::new();
    let mut i: usize = 0;
    while i < n
        invariant
            i <= n,
            r@ == blanks(i as nat),
        decreases n - i,
    {
        r.push(' ');
        assert(r@ =~= blanks((i + 1) as nat));
        i = i + 1;
    }
    r
}

/// `s`, filled up with spaces to `n` characters.
pub open spec fn padded(s: Seq<char>, n: int) -> Seq<char> {
    if s.len() < n {
        s + blanks((n - s.len()) as nat)
    } else {
        s
    }
}

/// `s`, filled up with spaces to `n` characters.
pub fn pad(s: &str, n: usize) -> (r: String)
    ensures
        r@ == padded(s@, n as int),
{
    let len = count(s);
    if len < n {
        cat(s, spaces(n - len).as_str())
    } else {
        s.to_owned()
    }
}

// ---- order -------------------------------------------------------------------------------

/// `a` comes before `b` in the order of their characters, or is the same.
pub open spec fn text_le(a: Seq<char>, b: Seq<char>) -> bool
    decreases a.len(),
{
    if a.len() == 0 {
        true
    } else if b.len() == 0 {
        false
    } else if a[0] == b[0] {
        text_le(a.drop_first(), b.drop_first())
    } else {
        (a[0] as u32) < (b[0] as u32)
    }
}

/// The order of texts by their characters.
pub open spec fn text_order() -> spec_fn(Seq<char>, Seq<char>) -> bool {
    |a: Seq<char>, b: Seq<char>| text_le(a, b)
}

/// The texts of a list, in order.
pub open spec fn in_order(list: Seq<Seq<char>>) -> Seq<Seq<char>> {
    list.sort_by(text_order())
}

proof fn lemma_text_le_reflexive(a: Seq<char>)
    ensures
        text_le(a, a),
    decreases a.len(),
{
    if a.len() > 0 {
        lemma_text_le_reflexive(a.drop_first());
    }
}

proof fn lemma_text_le_antisymmetric(a: Seq<char>, b: Seq<char>)
    requires
        text_le(a, b),
        text_le(b, a),
    ensures
        a == b,
    decreases a.len(),
{
    if a.len() > 0 && b.len() > 0 {
        lemma_text_le_antisymmetric(a.drop_first(), b.drop_first());
        assert(a =~= seq![a[0]] + a.drop_first());
        assert(b =~= seq![b[0]] + b.drop_first());
    } else {
        assert(a =~= b);
    }
}

proof fn lemma_text_le_transitive(a: Seq<char>, b: Seq<char>, c: Seq<char>)
    requires
        text_le(a, b),
        text_le(b, c),
    ensures
        text_le(a, c),
    decreases a.len(),
{
    if a.len() > 0 && b.len() > 0 && c.len() > 0 {
        if a[0] == b[0] && b[0] == c[0] {
            lemma_text_le_transitive(a.drop_first(), b.drop_first(), c.drop_first());
        }
    }
}

/// Of two texts, one comes before the other.
pub proof fn lemma_text_le_total(a: Seq<char>, b: Seq<char>)
    ensures
        text_le(a, b) || text_le(b, a),
    decreases a.len(),
{
    if a.len() > 0 && b.len() > 0 && a[0] == b[0] {
        lemma_text_le_total(a.drop_first(), b.drop_first());
    } else if a.len() > 0 && b.len() > 0 {
        vstd::utf8::char_u32_cast(a[0], a[0] as u32);
        vstd::utf8::char_u32_cast(b[0], b[0] as u32);
    }
}

/// The order of texts is total.
pub proof fn text_order_is_total()
    ensures
        vstd::relations::total_ordering(text_order()),
{
    let o = text_order();
    assert forall|a: Seq<char>| #[trigger] o(a, a) by {
        lemma_text_le_reflexive(a);
    }
    assert forall|a: Seq<char>, b: Seq<char>| #[trigger] o(a, b) && #[trigger] o(b, a) implies a
        == b by {
        lemma_text_le_antisymmetric(a, b);
    }
    assert forall|a: Seq<char>, b: Seq<char>, c: Seq<char>| #[trigger]
        o(a, b) && #[trigger] o(b, c) implies o(a, c) by {
        lemma_text_le_transitive(a, b, c);
    }
    assert forall|a: Seq<char>, b: Seq<char>| #[trigger] o(a, b) || #[trigger] o(b, a) by {
        lemma_text_le_total(a, b);
    }
}

/// Whether `a` comes before `b` in the order of their characters, or is the same.
pub fn at_most(a: &str, b: &str) -> (r: bool)
    ensures
        r == text_le(a@, b@),
{
    let x = chars_of(a);
    let y = chars_of(b);
    let mut i: usize = 0;
    proof {
        assert(x@.skip(0) =~= a@);
        assert(y@.skip(0) =~= b@);
    }
    while i < x.len() && i < y.len()
        invariant
            i <= x@.len(),
            i <= y@.len(),
            text_le(a@, b@) == text_le(x@.skip(i as int), y@.skip(i as int)),
        decreases x@.len() - i,
    {
        proof {
            assert(x@.skip(i as int).drop_first() =~= x@.skip(i + 1));
            assert(y@.skip(i as int).drop_first() =~= y@.skip(i + 1));
        }
        if x[i] != y[i] {
            return (x[i] as u32) < (y[i] as u32);
        }
        i = i + 1;
    }
    i == x.len()
}

/// The texts of a list, in order.
pub fn sort_texts(list: &Vec<String>) -> (r: Vec<String>)
    ensures
        views(r@) == in_order(views(list@)),
{
    broadcast use vstd::seq_lib::group_to_multiset_ensures;

    let ghost o = text_order();
    let ghost all = views(list@);
    let mut r: Vec<String> = Vec::new();
    let mut i: usize = 0;
    proof {
        text_order_is_total();
        assert(all.take(0) =~= Seq::empty());
        assert(views(r@) =~= Seq::empty());
    }
    while i < list.len()
        invariant
            i <= list@.len(),
            all == views(list@),
            o == text_order(),
            vstd::relations::total_ordering(o),
            vstd::relations::sorted_by(views(r@), o),
            r@.len() == i,
            views(r@).to_multiset() == all.take(i as int).to_multiset(),
        decreases list@.len() - i,
    {
        let s = list[i].clone();
        let mut at: usize = r.len();
        let ghost before = views(r@);
        while at > 0 && !at_most(r[at - 1].as_str(), s.as_str())
            invariant
                at <= r@.len(),
                before == views(r@),
                forall|j: int| at <= j < r@.len() ==> !text_le(#[trigger] before[j], s@),
            decreases at,
        {
            assert(before[at - 1] == r@[at - 1]@);
            at = at - 1;
        }
        assert(at > 0 ==> before[at - 1] == r@[at - 1]@);
        r.insert(at, s);
        proof {
            let after = views(r@);
            assert(after =~= before.insert(at as int, s@));
            assert forall|x: int, y: int| 0 <= x < y < after.len() implies #[trigger] o(
                after[x],
                after[y],
            ) by {
                if x < at && y < at {
                    assert(o(before[x], before[y]));
                } else if x < at && y == at {
                    assert(text_le(before[at - 1], s@));
                    if x < at - 1 {
                        assert(o(before[x], before[at - 1]));
                        lemma_text_le_transitive(before[x], before[at - 1], s@);
                    }
                } else if x < at {
                    assert(o(before[x], before[y - 1]));
                } else if x == at {
                    assert(!text_le(before[y - 1], s@));
                    lemma_text_le_total(before[y - 1], s@);
                } else {
                    assert(o(before[x - 1], before[y - 1]));
                }
            }
            vstd::seq_lib::to_multiset_insert(before, at as int, s@);
            assert(all.take(i + 1) =~= all.take(i as int).push(s@));
            vstd::seq_lib::to_multiset_build(all.take(i as int), s@);
        }
        i = i + 1;
    }
    proof {
        assert(all.take(i as int) =~= all);
        all.lemma_sort_by_ensures(o);
        vstd::seq_lib::lemma_sorted_unique(views(r@), all.sort_by(o), o);
    }
    r
}

// ---- bytes -------------------------------------------------------------------------------

/// The number of bytes that the UTF-8 form of `c` takes.
pub open spec fn width_of(c: char) -> nat {
    if has_width_1_encoding(c as u32) {
        1
    } else if has_width_2_encoding(c as u32) {
        2
    } else if has_width_3_encoding(c as u32) {
        3
    } else {
        4
    }
}

/// The number of bytes that the UTF-8 form of `s` takes.
pub open spec fn byte_len(s: Seq<char>) -> nat {
    encode_utf8(s).len()
}

/// The bytes of a text are those of its characters together.
pub proof fn lemma_byte_len_push(s: Seq<char>, c: char)
    ensures
        byte_len(s.push(c)) == byte_len(s) + width_of(c),
    decreases s.len(),
{
    if s.len() == 0 {
        assert(s.push(c).drop_first() =~= s);
    } else {
        lemma_byte_len_push(s.drop_first(), c);
        assert(s.push(c).drop_first() =~= s.drop_first().push(c));
    }
}

/// The bytes of two texts in a row are those of both together.
pub proof fn lemma_byte_len_add(a: Seq<char>, b: Seq<char>)
    ensures
        byte_len(a + b) == byte_len(a) + byte_len(b),
    decreases b.len(),
{
    if b.len() == 0 {
        assert(a + b =~= a);
    } else {
        lemma_byte_len_add(a, b.drop_last());
        lemma_byte_len_push(a + b.drop_last(), b.last());
        lemma_byte_len_push(b.drop_last(), b.last());
        assert((a + b.drop_last()).push(b.last()) =~= a + b);
        assert(b.drop_last().push(b.last()) =~= b);
    }
}

/// A text takes at least as many bytes as it has characters.
pub proof fn lemma_byte_len_bound(s: Seq<char>)
    ensures
        s.len() <= byte_len(s),
    decreases s.len(),
{
    if s.len() > 0 {
        lemma_byte_len_bound(s.drop_first());
    }
}

/// The bytes of a prefix are fewer, unless it is the whole.
pub proof fn lemma_byte_len_prefix(s: Seq<char>, i: int, j: int)
    requires
        0 <= i <= j <= s.len(),
    ensures
        byte_len(s.take(i)) <= byte_len(s.take(j)) <= byte_len(s),
        i < j ==> byte_len(s.take(i)) < byte_len(s.take(j)),
{
    let mid = s.subrange(i, j);
    assert(s.take(i) + mid =~= s.take(j));
    lemma_byte_len_add(s.take(i), mid);
    lemma_byte_len_bound(mid);
    assert(s.take(j) + s.skip(j) =~= s);
    lemma_byte_len_add(s.take(j), s.skip(j));
}

/// The number of bytes that the UTF-8 form of `c` takes.
pub fn char_width(c: char) -> (r: usize)
    ensures
        r == width_of(c),
        1 <= r <= 4,
{
    let u: u32 = c as u32;
    if u <= 0x7f {
        1
    } else if u <= 0x7ff {
        2
    } else if u <= 0xffff {
        3
    } else {
        4
    }
}

/// The number of bytes in `s`.
pub fn bytes_in(s: &str) -> (r: usize)
    ensures
        r == byte_len(s@),
{
    s.as_bytes().len()
}

// ---- places and ends ---------------------------------------------------------------------

/// The first position at which `pat` stands in `s`, if it does.
pub open spec fn place(s: Seq<char>, pat: Seq<char>) -> Option<int>
    decreases s.len(),
{
    if has_prefix(s, pat) {
        Some(0)
    } else if s.len() == 0 {
        None
    } else {
        match place(s.drop_first(), pat) {
            Some(k) => Some(k + 1),
            None => None,
        }
    }
}

/// The first position is where `place` says it is.
pub proof fn lemma_place_is(s: Seq<char>, pat: Seq<char>, k: int)
    requires
        first_at(s, pat, k),
    ensures
        place(s, pat) == Some(k),
    decreases k,
{
    if k > 0 {
        assert(!occurs_at(s, pat, 0));
        let rest = s.drop_first();
        assert(rest.subrange(k - 1, k - 1 + pat.len()) =~= s.subrange(k, k + pat.len()));
        assert forall|j: int| 0 <= j < k - 1 implies !occurs_at(rest, pat, j) by {
            assert(!occurs_at(s, pat, j + 1));
            if occurs_at(rest, pat, j) {
                assert(rest.subrange(j, j + pat.len()) =~= s.subrange(j + 1, j + 1 + pat.len()));
            }
        }
        lemma_place_is(rest, pat, k - 1);
    }
}

/// There is no position of what does not occur.
pub proof fn lemma_place_none(s: Seq<char>, pat: Seq<char>)
    requires
        forall|j: int| 0 <= j ==> !occurs_at(s, pat, j),
    ensures
        place(s, pat) is None,
    decreases s.len(),
{
    assert(!occurs_at(s, pat, 0));
    if s.len() > 0 {
        let rest = s.drop_first();
        assert forall|j: int| 0 <= j implies !occurs_at(rest, pat, j) by {
            assert(!occurs_at(s, pat, j + 1));
            if occurs_at(rest, pat, j) {
                assert(rest.subrange(j, j + pat.len()) =~= s.subrange(j + 1, j + 1 + pat.len()));
            }
        }
        lemma_place_none(rest, pat);
    }
}

/// What stands at the position that `place` gives.
pub proof fn lemma_place_holds(s: Seq<char>, pat: Seq<char>)
    ensures
        place(s, pat) matches Some(k) ==> occurs_at(s, pat, k),
    decreases s.len(),
{
    if !has_prefix(s, pat) && s.len() > 0 {
        let rest = s.drop_first();
        lemma_place_holds(rest, pat);
        if let Some(k) = place(rest, pat) {
            assert(s.subrange(k + 1, k + 1 + pat.len()) =~= rest.subrange(
                k as int,
                k + pat.len(),
            ));
        }
    }
}

/// The first position at which `pat` stands in `chars` from `from` on, counted from there.
pub fn place_from(chars: &Vec<char>, pat: &Vec<char>, from: usize) -> (r: Option<usize>)
    requires
        from <= chars@.len(),
    ensures
        match r {
            Some(k) => place(chars@.skip(from as int), pat@) == Some(k as int) && from + k
                + pat@.len() <= chars@.len(),
            None => place(chars@.skip(from as int), pat@) is None,
        },
{
    let ghost rest = chars@.skip(from as int);
    assert forall|j: int| 0 <= j implies (occurs_at(rest, pat@, j) <==> #[trigger] occurs_at(
        chars@,
        pat@,
        j + from,
    )) by {
        if j + pat@.len() <= rest.len() {
            assert(rest.subrange(j, j + pat@.len()) =~= chars@.subrange(
                j + from,
                j + from + pat@.len(),
            ));
        }
    }
    match find_from(chars, pat, from) {
        Some(i) => {
            proof {
                let k = i - from;
                assert(occurs_at(chars@, pat@, k + from));
                assert forall|j: int| 0 <= j < k implies !occurs_at(rest, pat@, j) by {
                    assert(!occurs_at(chars@, pat@, j + from));
                }
                lemma_place_is(rest, pat@, k);
            }
            Some(i - from)
        },
        None => {
            proof {
                assert forall|j: int| 0 <= j implies !occurs_at(rest, pat@, j) by {
                    assert(!occurs_at(chars@, pat@, j + from));
                }
                lemma_place_none(rest, pat@);
            }
            None
        },
    }
}

/// `s` ends with `pat`.
pub open spec fn has_suffix(s: Seq<char>, pat: Seq<char>) -> bool {
    occurs_at(s, pat, s.len() - pat.len())
}

/// Whether `s` ends with `pat`.
pub fn ends(s: &str, pat: &str) -> (r: bool)
    ensures
        r == has_suffix(s@, pat@),
{
    let chars = chars_of(s);
    let p = chars_of(pat);
    if p.len() > chars.len() {
        return false;
    }
    stands_at(&chars, &p, chars.len() - p.len())
}

/// `s` with `to` before each of its characters and at its end.
pub open spec fn interleaved(s: Seq<char>, to: Seq<char>) -> Seq<char>
    decreases s.len(),
{
    if s.len() == 0 {
        to
    } else {
        interleaved(s.drop_last(), to).push(s.last()) + to
    }
}

/// `s` with every `from` replaced by `to`. The empty text stands before each character and at the
/// end.
pub open spec fn substituted(s: Seq<char>, from: Seq<char>, to: Seq<char>) -> Seq<char> {
    if from.len() == 0 {
        interleaved(s, to)
    } else {
        replaced(s, from, to)
    }
}

/// `s` with every `from` replaced by `to`.
pub fn substitute(s: &str, from: &str, to: &str) -> (r: String)
    ensures
        r@ == substituted(s@, from@, to@),
{
    let f = chars_of(from);
    if f.len() > 0 {
        return replace(s, from, to);
    }
    let chars = chars_of(s);
    let mut r = to.to_owned();
    let mut i: usize = 0;
    assert(chars@.take(0) =~= Seq::empty());
    while i < chars.len()
        invariant
            i <= chars@.len(),
            r@ == interleaved(chars@.take(i as int), to@),
        decreases chars@.len() - i,
    {
        assert(chars@.take(i + 1).drop_last() =~= chars@.take(i as int));
        assert(chars@.take(i + 1).last() == chars@[i as int]);
        r.push(chars[i]);
        r.append(to);
        i = i + 1;
    }
    assert(chars@.take(i as int) =~= chars@);
    r
}

/// A list without what stands in it right after the same.
pub open spec fn deduped(list: Seq<Seq<char>>) -> Seq<Seq<char>>
    decreases list.len(),
{
    if list.len() == 0 {
        list
    } else {
        let rest = deduped(list.drop_last());
        if rest.len() > 0 && rest.last() == list.last() {
            rest
        } else {
            rest.push(list.last())
        }
    }
}

/// The texts of a list in order, each once.
pub fn sort_and_dedup(list: &Vec<String>) -> (r: Vec<String>)
    ensures
        views(r@) == deduped(in_order(views(list@))),
{
    let sorted = sort_texts(list);
    let ghost all = views(sorted@);
    let mut r: Vec<String> = Vec::new();
    let mut i: usize = 0;
    proof {
        assert(all.take(0) =~= Seq::empty());
        assert(views(r@) =~= Seq::empty());
    }
    while i < sorted.len()
        invariant
            i <= sorted@.len(),
            all == views(sorted@),
            views(r@) == deduped(all.take(i as int)),
        decreases sorted@.len() - i,
    {
        proof {
            assert(all.take(i + 1).drop_last() =~= all.take(i as int));
            assert(all.take(i + 1).last() == sorted@[i as int]@);
        }
        let again = if r.len() > 0 {
            assert(views(r@).last() == r@[r@.len() - 1]@);
            same(r[r.len() - 1].as_str(), sorted[i].as_str())
        } else {
            false
        };
        if !again {
            let ghost before = r@;
            r.push(sorted[i].clone());
            assert(views(r@) =~= views(before).push(sorted@[i as int]@));
        }
        i = i + 1;
    }
    assert(all.take(i as int) =~= all);
    r
}

/// Whether all of `parts` is in `whole`.
pub open spec fn drawn_from(parts: Seq<Seq<char>>, whole: Seq<Seq<char>>) -> bool {
    forall|s: Seq<char>| parts.contains(s) <==> whole.contains(s)
}

proof fn lemma_deduped_same_texts(list: Seq<Seq<char>>)
    ensures
        drawn_from(deduped(list), list),
    decreases list.len(),
{
    if list.len() > 0 {
        let init = list.drop_last();
        let rest = deduped(init);
        lemma_deduped_same_texts(init);
        assert forall|s: Seq<char>| deduped(list).contains(s) <==> list.contains(s) by {
            if list.contains(s) {
                let k = choose|k: int| 0 <= k < list.len() && list[k] == s;
                if k < init.len() {
                    assert(init[k] == s);
                    assert(rest.contains(s));
                    let m = choose|m: int| 0 <= m < rest.len() && rest[m] == s;
                    assert(deduped(list)[m] == s);
                } else {
                    assert(deduped(list)[deduped(list).len() - 1] == s);
                }
            }
            if deduped(list).contains(s) {
                let m = choose|m: int| 0 <= m < deduped(list).len() && deduped(list)[m] == s;
                if m < rest.len() {
                    assert(rest[m] == s);
                    assert(init.contains(s));
                    let k = choose|k: int| 0 <= k < init.len() && init[k] == s;
                    assert(list[k] == s);
                } else {
                    assert(list[list.len() - 1] == s);
                }
            }
        }
    }
}

/// Sorting and dropping repetitions keeps exactly the texts that were there.
pub proof fn sorted_once_keeps_texts(list: Seq<Seq<char>>)
    ensures
        drawn_from(deduped(in_order(list)), list),
{
    broadcast use vstd::seq_lib::group_to_multiset_ensures;

    let sorted = in_order(list);
    text_order_is_total();
    list.lemma_sort_by_ensures(text_order());
    lemma_deduped_same_texts(sorted);
    assert forall|s: Seq<char>| deduped(sorted).contains(s) <==> list.contains(s) by {
        assert(sorted.contains(s) <==> sorted.to_multiset().count(s) > 0);
        assert(list.contains(s) <==> list.to_multiset().count(s) > 0);
    }
}

proof fn lemma_deduped_is_strict(list: Seq<Seq<char>>)
    requires
        forall|i: int, j: int|
            0 <= i < j < list.len() ==> text_le(#[trigger] list[i], #[trigger] list[j]),
    ensures
        forall|i: int, j: int|
            0 <= i < j < deduped(list).len() ==> (#[trigger] deduped(list)[i]) != (
            #[trigger] deduped(list)[j]) && text_le(deduped(list)[i], deduped(list)[j]),
        deduped(list).len() > 0 ==> list.len() > 0 && deduped(list).last() == list.last(),
    decreases list.len(),
{
    if list.len() > 0 {
        let init = list.drop_last();
        let rest = deduped(init);
        let all = deduped(list);
        lemma_deduped_is_strict(init);
        lemma_deduped_same_texts(init);
        assert forall|i: int, j: int| 0 <= i < j < all.len() implies (#[trigger] all[i]) != (
        #[trigger] all[j]) && text_le(all[i], all[j]) by {
            if j < rest.len() {
                assert(rest[i] != rest[j]);
            } else {
                assert(rest.contains(rest[i]));
                assert(init.contains(rest[i]));
                let k = choose|k: int| 0 <= k < init.len() && init[k] == rest[i];
                assert(text_le(list[k], list[list.len() - 1]));
                if rest[i] == list.last() {
                    assert(rest.last() == init.last());
                    assert(text_le(list[k], list[init.len() - 1]));
                    assert(text_le(list[init.len() - 1], list[list.len() - 1]));
                    text_order_is_total();
                    assert(text_order()(init.last(), list.last()) && text_order()(
                        list.last(),
                        init.last(),
                    ));
                    assert(init.last() == list.last());
                }
            }
        }
    }
}

/// After sorting and dropping repetitions each text stands once, and smaller ones stand first.
pub proof fn sorted_once_is_strict(list: Seq<Seq<char>>)
    ensures
        forall|i: int, j: int|
            0 <= i < j < deduped(in_order(list)).len() ==> (#[trigger] deduped(in_order(list))[i])
                != (#[trigger] deduped(in_order(list))[j]) && text_le(
                deduped(in_order(list))[i],
                deduped(in_order(list))[j],
            ),
{
    let sorted = in_order(list);
    text_order_is_total();
    list.lemma_sort_by_ensures(text_order());
    assert forall|i: int, j: int| 0 <= i < j < sorted.len() implies text_le(
        #[trigger] sorted[i],
        #[trigger] sorted[j],
    ) by {
        assert(text_order()(sorted[i], sorted[j]));
    }
    lemma_deduped_is_strict(sorted);
}

/// Text without white space at its ends stays as it is when it is trimmed.
pub proof fn lemma_trimmed_same(s: Seq<char>)
    requires
        s.len() > 0,
        !white(s[0]),
        !white(s.last()),
    ensures
        trimmed(s) == s,
{
}

/// Trimmed text has no white space at its ends.
pub proof fn lemma_trimmed_ends(s: Seq<char>)
    ensures
        trimmed(s).len() > 0 ==> !white(trimmed(s)[0]) && !white(trimmed(s).last()),
{
    lemma_trim_start_head(s);
    lemma_trim_end_last(trim_start(s));
}

proof fn lemma_trim_end_last(s: Seq<char>)
    ensures
        trim_end(s).len() > 0 ==> trim_end(s)[0] == s[0] && !white(trim_end(s).last()),
        trim_end(s).len() <= s.len(),
    decreases s.len(),
{
    if s.len() > 0 && white(s.last()) {
        lemma_trim_end_last(s.drop_last());
    }
}

/// Decimal notation is made of digits, at least one of them.
pub proof fn lemma_decimal_digits(n: nat)
    ensures
        decimal(n).len() > 0,
        forall|i: int| 0 <= i < decimal(n).len() ==> 48 <= (#[trigger] decimal(n)[i]) as u32 <= 57,
    decreases n,
{
    if n >= 10 {
        lemma_decimal_digits(n / 10);
    }
}

/// What does not stand in a text is not replaced there.
pub proof fn replacing_what_is_not_there(s: Seq<char>, from: Seq<char>, to: Seq<char>)
    requires
        from.len() > 0,
        forall|i: int|
            0 <= i && i + from.len() <= s.len() ==> #[trigger] s.subrange(i, i + from.len())
                != from,
    ensures
        substituted(s, from, to) == s,
    decreases s.len(),
{
    if s.len() > 0 {
        let rest = s.drop_first();
        if from.len() <= s.len() {
            let first: int = 0;
            assert(s.subrange(first, first + from.len()) != from);
        }
        assert forall|i: int| 0 <= i && i + from.len() <= rest.len() implies #[trigger] rest.subrange(
            i,
            i + from.len(),
        ) != from by {
            assert(rest.subrange(i, i + from.len()) =~= s.subrange(i + 1, i + 1 + from.len()));
        }
        replacing_what_is_not_there(rest, from, to);
        assert(seq![s[0]] + rest =~= s);
    }
}

/// Where a text is replaced, all before the first place where it stands stays, and replacing goes on
/// behind it.
pub proof fn replacing_begins_at_the_first_place(
    before: Seq<char>,
    from: Seq<char>,
    after: Seq<char>,
    to: Seq<char>,
)
    requires
        from.len() > 0,
        forall|i: int|
            0 <= i < before.len() ==> #[trigger] (before + from + after).subrange(
                i,
                i + from.len(),
            ) != from,
    ensures
        substituted(before + from + after, from, to) == before + to + substituted(after, from, to),
    decreases before.len(),
{
    let s = before + from + after;
    if before.len() == 0 {
        assert(s.subrange(0, from.len() as int) =~= from);
        assert(s.skip(from.len() as int) =~= after);
        assert(before + to + substituted(after, from, to) =~= to + substituted(after, from, to));
    } else {
        let b = before.drop_first();
        let rest = b + from + after;
        let first: int = 0;
        assert((before + from + after).subrange(first, first + from.len()) != from);
        assert(s.drop_first() =~= rest);
        assert forall|i: int| 0 <= i < b.len() implies #[trigger] (b + from + after).subrange(
            i,
            i + from.len(),
        ) != from by {
            assert(rest.subrange(i, i + from.len()) =~= s.subrange(i + 1, i + 1 + from.len()));
        }
        replacing_begins_at_the_first_place(b, from, after, to);
        assert(before + to + substituted(after, from, to) =~= seq![before[0]] + (b + to
            + substituted(after, from, to)));
    }
}

/// The characters that count as white: those that Unicode calls so.
pub proof fn white_characters(c: char)
    ensures
        white(c) <==> (c == ' ' || c == '\t' || c == '\n' || c == '\r' || c as u32 == 0x0b || c as u32
            == 0x0c || c as u32 == 0x85 || c as u32 == 0xa0 || c as u32 == 0x1680 || 0x2000 <= c as u32
            <= 0x200a || c as u32 == 0x2028 || c as u32 == 0x2029 || c as u32 == 0x202f || c as u32
            == 0x205f || c as u32 == 0x3000),
{
}

proof fn lemma_trim_start(s: Seq<char>) -> (i: int)
    ensures
        0 <= i <= s.len(),
        trim_start(s) == s.skip(i),
        forall|k: int| 0 <= k < i ==> white(#[trigger] s[k]),
        i < s.len() ==> !white(s[i]),
    decreases s.len(),
{
    if s.len() > 0 && white(s[0]) {
        let j = lemma_trim_start(s.drop_first());
        assert(s.drop_first().skip(j) =~= s.skip(j + 1));
        assert forall|k: int| 0 <= k < j + 1 implies white(#[trigger] s[k]) by {
            if k > 0 {
                assert(s.drop_first()[k - 1] == s[k]);
            }
        }
        j + 1
    } else {
        assert(s.skip(0) =~= s);
        0
    }
}

proof fn lemma_trim_end(s: Seq<char>) -> (i: int)
    ensures
        0 <= i <= s.len(),
        trim_end(s) == s.take(i),
        forall|k: int| i <= k < s.len() ==> white(#[trigger] s[k]),
        i > 0 ==> !white(s[i - 1]),
    decreases s.len(),
{
    if s.len() > 0 && white(s.last()) {
        let j = lemma_trim_end(s.drop_last());
        assert(s.drop_last().take(j) =~= s.take(j));
        assert forall|k: int| j <= k < s.len() implies white(#[trigger] s[k]) by {
            if k < s.len() - 1 {
                assert(s.drop_last()[k] == s[k]);
            }
        }
        j
    } else {
        assert(s.take(s.len() as int) =~= s);
        s.len() as int
    }
}

/// Trimming takes what is white from both ends of a text and nothing else.
pub proof fn trimming_takes_only_the_ends(s: Seq<char>) -> (ends: (int, int))
    ensures
        0 <= ends.0 <= ends.1 <= s.len(),
        trimmed(s) == s.subrange(ends.0, ends.1),
        forall|k: int| 0 <= k < ends.0 ==> white(#[trigger] s[k]),
        forall|k: int| ends.1 <= k < s.len() ==> white(#[trigger] s[k]),
        ends.0 < ends.1 ==> !white(s[ends.0]) && !white(s[ends.1 - 1]),
{
    let i = lemma_trim_start(s);
    let t = s.skip(i);
    let j = lemma_trim_end(t);
    assert(t.take(j) =~= s.subrange(i, i + j));
    assert forall|k: int| i + j <= k < s.len() implies white(#[trigger] s[k]) by {
        assert(t[k - i] == s[k]);
    }
    if j > 0 {
        assert(t[j - 1] == s[i + j - 1]);
        if white(s[i]) {
            assert(i == s.len());
        }
    }
    (i, i + j)
}

/// A text that was split at a character is its pieces with the character between each two, and no
/// piece has the character in it.
pub proof fn pieces_make_the_text(s: Seq<char>, c: char)
    ensures
        split(s, c).len() > 0,
        joined_from(split(s, c), seq![c]) == s,
        forall|i: int| 0 <= i < split(s, c).len() ==> !(#[trigger] split(s, c)[i]).contains(c),
    decreases s.len(),
{
    lemma_char_index(s, c);
    let k = char_index(s, c);
    if k < s.len() {
        let rest = s.skip(k + 1);
        pieces_make_the_text(rest, c);
        let all = split(s, c);
        assert(all.drop_first() =~= split(rest, c));
        assert(s =~= s.take(k) + seq![c] + rest);
        assert forall|i: int| 0 <= i < all.len() implies !(#[trigger] all[i]).contains(c) by {
            if i > 0 {
                assert(all[i] == split(rest, c)[i - 1]);
            }
        }
    } else {
        assert(split(s, c) =~= seq![s]);
    }
}

/// Pieces with `sep` between each two, told from the first on.
pub open spec fn joined_from(list: Seq<Seq<char>>, sep: Seq<char>) -> Seq<char>
    decreases list.len(),
{
    if list.len() == 0 {
        Seq::empty()
    } else if list.len() == 1 {
        list[0]
    } else {
        list[0] + sep + joined_from(list.drop_first(), sep)
    }
}

/// One more piece is joined to those before it by `sep`; a piece alone is as it is.
pub proof fn pieces_are_joined_in_order(list: Seq<Seq<char>>, piece: Seq<char>, sep: Seq<char>)
    ensures
        joined(Seq::empty(), sep) == Seq::<char>::empty(),
        joined(seq![piece], sep) == piece,
        list.len() > 0 ==> joined(list.push(piece), sep) == joined(list, sep) + sep + piece,
{
    assert(list.push(piece).drop_last() =~= list);
}

/// A line feed ends a line, and a carriage return before it goes with it. What is left at the end is
/// a line if there is anything.
pub proof fn lines_end_at_line_feeds(line: Seq<char>, rest: Seq<char>)
    requires
        !line.contains('\n'),
    ensures
        lines(Seq::empty()) == Seq::<Seq<char>>::empty(),
        line.len() > 0 ==> lines(line) == seq![line],
        lines(line + seq!['\n'] + rest) == seq![
            if line.len() > 0 && line.last() == '\r' {
                line.drop_last()
            } else {
                line
            },
        ] + lines(rest),
{
    let s = line + seq!['\n'] + rest;
    let n = line.len() as int;
    assert forall|j: int| 0 <= j < n implies s[j] != '\n' by {
        assert(line.contains(line[j]));
    }
    lemma_char_index_is(s, '\n', n);
    assert forall|j: int| 0 <= j < n implies line[j] != '\n' by {
        assert(line.contains(line[j]));
    }
    lemma_char_index_is(line, '\n', n);
    assert(s.take(n) =~= line);
    assert(s.skip(n + 1) =~= rest);
}

/// A clipped text is the start of the text, with as many characters as were asked for or all.
pub proof fn clipping_keeps_the_start(s: Seq<char>, n: int)
    requires
        n >= 0,
    ensures
        clipped(s, n).is_prefix_of(s),
        clipped(s, n).len() == (if n < s.len() {
            n
        } else {
            s.len() as int
        }),
{
}

/// A number is written with its last digit last, and no zero before the first.
pub proof fn numbers_are_written_in_digits(n: nat)
    ensures
        n < 10 ==> decimal(n).len() == 1,
        n >= 10 ==> decimal(n).drop_last() == decimal(n / 10),
        decimal(n).last() as u32 == 48 + n % 10,
{
    if n >= 10 {
        assert(decimal(n).drop_last() =~= decimal(n / 10));
    }
}

/// Only digits, with or without a plus sign before them, are read as a number below the limit, and
/// each such number is read from what is written for it.
pub proof fn numbers_are_read_from_digits(s: Seq<char>, n: nat, limit: int)
    ensures
        n < limit ==> unsigned(decimal(n), limit) == Some(n),
        n < limit ==> unsigned(seq!['+'] + decimal(n), limit) == Some(n),
        n >= limit ==> unsigned(decimal(n), limit) is None,
        unsigned(Seq::empty(), limit) is None,
        unsigned(seq!['+'], limit) is None,
        unsigned(s, limit) matches Some(m) ==> m < limit && s.len() > 0 && forall|i: int|
            0 < i < s.len() ==> 48 <= (#[trigger] s[i]) as u32 <= 57,
        unsigned(s, limit) is Some && s[0] != '+' ==> 48 <= s[0] as u32 <= 57,
{
    decimal_reads_back(n);
    lemma_decimal_digits(n);
    assert(decimal(n)[0] as u32 != 43);
    let plus = seq!['+'] + decimal(n);
    assert(plus.drop_first() =~= decimal(n));
    let sign = seq!['+'];
    assert(sign.drop_last() =~= Seq::empty());
    assert(digit_value(sign.last()) is None);
    if unsigned(s, limit) is Some {
        if s.len() > 1 && s[0] == '+' {
            lemma_value_digits(s.drop_first());
            assert forall|i: int| 0 < i < s.len() implies 48 <= (#[trigger] s[i]) as u32 <= 57 by {
                assert(s.drop_first()[i - 1] == s[i]);
            }
        } else {
            lemma_value_digits(s);
        }
    }
}

proof fn lemma_value_digits(s: Seq<char>)
    requires
        decimal_value(s) is Some,
    ensures
        forall|i: int| 0 <= i < s.len() ==> 48 <= (#[trigger] s[i]) as u32 <= 57,
    decreases s.len(),
{
    if s.len() > 0 {
        lemma_value_digits(s.drop_last());
        assert forall|i: int| 0 <= i < s.len() implies 48 <= (#[trigger] s[i]) as u32 <= 57 by {
            if i < s.len() - 1 {
                assert(s.drop_last()[i] == s[i]);
            }
        }
    }
}

/// A negative number has a minus sign before what is written for its absolute value.
pub proof fn negative_numbers_have_a_sign(n: int)
    ensures
        n >= 0 ==> integer_text(n) == decimal(n as nat),
        n < 0 ==> integer_text(n)[0] == '-' && integer_text(n).skip(1) == decimal((-n) as nat),
{
    reveal_strlit("-");
    if n < 0 {
        assert(integer_text(n).skip(1) =~= decimal((-n) as nat));
    }
}

/// Only the letters from A to Z change their case, each to the letter with the same place.
pub proof fn letters_change_their_case(s: Seq<char>, i: int)
    requires
        0 <= i < s.len(),
    ensures
        ascii_lower(s).len() == s.len(),
        ascii_upper(s).len() == s.len(),
        'A' as u32 <= s[i] as u32 <= 'Z' as u32 ==> ascii_lower(s)[i] as u32 == s[i] as u32 + 32
            && ascii_upper(s)[i] == s[i],
        'a' as u32 <= s[i] as u32 <= 'z' as u32 ==> ascii_upper(s)[i] as u32 == s[i] as u32 - 32
            && ascii_lower(s)[i] == s[i],
        !('A' as u32 <= s[i] as u32 <= 'Z' as u32) && !('a' as u32 <= s[i] as u32 <= 'z' as u32)
            ==> ascii_lower(s)[i] == s[i] && ascii_upper(s)[i] == s[i],
{
}

/// A padded text is the text with spaces behind it up to the width; a longer one stays.
pub proof fn padding_fills_with_spaces(s: Seq<char>, n: int)
    ensures
        s.is_prefix_of(padded(s, n)),
        padded(s, n).len() == (if s.len() < n {
            n
        } else {
            s.len() as int
        }),
        forall|i: int| s.len() <= i < padded(s, n).len() ==> (#[trigger] padded(s, n)[i]) == ' ',
{
}

/// Of two texts that begin alike the one with the smaller character behind that comes first, or the
/// one that ends there.
pub proof fn texts_are_ordered_by_their_first_difference(
    start: Seq<char>,
    a: char,
    b: char,
    x: Seq<char>,
    y: Seq<char>,
)
    requires
        (a as u32) < (b as u32),
    ensures
        text_le(start + seq![a] + x, start + seq![b] + y),
        !text_le(start + seq![b] + y, start + seq![a] + x),
        text_le(start, start + x),
        x.len() > 0 ==> !text_le(start + x, start),
    decreases start.len(),
{
    if start.len() > 0 {
        let rest = start.drop_first();
        texts_are_ordered_by_their_first_difference(rest, a, b, x, y);
        assert((start + seq![a] + x).drop_first() =~= rest + seq![a] + x);
        assert((start + seq![b] + y).drop_first() =~= rest + seq![b] + y);
        assert((start + x).drop_first() =~= rest + x);
    } else {
        assert(start + x =~= x);
    }
}

/// A sorted list holds the texts of the list, each as often, and no text stands before a smaller
/// one.
pub proof fn sorting_only_moves_texts(list: Seq<Seq<char>>)
    ensures
        in_order(list).to_multiset() == list.to_multiset(),
        forall|i: int, j: int|
            0 <= i < j < in_order(list).len() ==> text_le(
                #[trigger] in_order(list)[i],
                #[trigger] in_order(list)[j],
            ),
{
    text_order_is_total();
    list.lemma_sort_by_ensures(text_order());
    let o = text_order();
    assert forall|i: int, j: int| 0 <= i < j < in_order(list).len() implies text_le(
        #[trigger] in_order(list)[i],
        #[trigger] in_order(list)[j],
    ) by {
        assert(o(in_order(list)[i], in_order(list)[j]));
    }
}

/// What a text begins or ends with, or has in it, stands there, and what stands there it has.
pub proof fn found_where_it_stands(s: Seq<char>, pat: Seq<char>, before: Seq<char>, after: Seq<char>)
    ensures
        has_prefix(pat + after, pat),
        has_suffix(before + pat, pat),
        occurs(before + pat + after, pat),
        has_prefix(s, pat) ==> s == pat + s.skip(pat.len() as int),
        has_suffix(s, pat) ==> s == s.take(s.len() - pat.len()) + pat,
        occurs(s, pat) ==> exists|i: int|
            0 <= i <= s.len() - pat.len() && s == #[trigger] s.take(i) + pat + s.skip(
                i + pat.len(),
            ),
{
    assert((pat + after).subrange(0, pat.len() as int) =~= pat);
    assert((before + pat).subrange(before.len() as int, (before + pat).len() as int) =~= pat);
    assert((before + pat + after).subrange(before.len() as int, (before.len() + pat.len()) as int)
        =~= pat);
    assert(occurs_at(before + pat + after, pat, before.len() as int));
    if has_prefix(s, pat) {
        assert(s =~= pat + s.skip(pat.len() as int)) by {
            assert(s.subrange(0, pat.len() as int) == pat);
            assert forall|k: int| 0 <= k < pat.len() implies s[k] == pat[k] by {
                assert(s.subrange(0, pat.len() as int)[k] == s[k]);
            }
        }
    }
    if has_suffix(s, pat) {
        let n = s.len() - pat.len();
        assert(s.subrange(n, n + pat.len()) == pat);
        assert forall|k: int| 0 <= k < pat.len() implies s[n + k] == pat[k] by {
            assert(s.subrange(n, n + pat.len())[k] == s[n + k]);
        }
        assert(s =~= s.take(n) + pat) by {
            assert forall|k: int| n <= k < s.len() implies s[k] == pat[k - n] by {
                assert(s[n + (k - n)] == pat[k - n]);
            }
        }
    }
    if occurs(s, pat) {
        let i = choose|i: int| occurs_at(s, pat, i);
        assert forall|k: int| i <= k < i + pat.len() implies s[k] == pat[k - i] by {
            assert(s.subrange(i, i + pat.len())[k - i] == s[k]);
        }
        assert(s =~= s.take(i) + pat + s.skip(i + pat.len()));
    }
}

/// Where nothing is replaced, the new text stands before each character and at the end.
pub proof fn replacing_nothing_puts_it_everywhere(s: Seq<char>, c: char, to: Seq<char>)
    ensures
        substituted(Seq::empty(), Seq::empty(), to) == to,
        substituted(s.push(c), Seq::empty(), to) == substituted(s, Seq::empty(), to) + seq![c] + to,
{
    assert(s.push(c).drop_last() =~= s);
    assert(interleaved(s, to).push(c) + to =~= interleaved(s, to) + seq![c] + to);
}

} // verus!
