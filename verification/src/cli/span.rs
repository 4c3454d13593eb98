//! How long the spans of time in a text such as `2h 30m` are, all together.

use vstd::prelude::*;
use crate::text::{chars_of, digit_value, is_white, same, string_of, white};

verus! {

/// The nanoseconds of the shortest time that is too long for a `std::time::Duration`: as many
/// seconds as 64 bits can tell apart.
pub const TOO_MANY_NANOS: u128 = 18_446_744_073_709_551_616_000_000_000;

/// What comes next in a text.
#[derive(Debug, Clone, Copy, PartialEq, Eq, Structural)]
pub enum Part {
    /// A number, behind a whole span.
    Gap,
    /// The rest of a number, or its unit.
    Number,
    /// The rest of the decimals of a number, or its unit.
    Decimals,
    /// The rest of a unit, or the next span.
    Unit,
}

/// How far a span was read: a whole number, a fraction, and the letters of a unit.
#[verifier::ext_equal]
pub struct Reading {
    pub part: Part,
    pub whole: nat,
    pub above: nat,
    pub below: nat,
    pub unit: Seq<char>,
}

/// A letter of a unit.
pub open spec fn unit_letter(c: char) -> bool {
    let u = c as u32;
    97 <= u <= 122 || 65 <= u <= 90 || u == 0xb5
}

fn is_unit_letter(c: char) -> (r: bool)
    ensures
        r == unit_letter(c),
{
    let u: u32 = c as u32;
    (97 <= u && u <= 122) || (65 <= u && u <= 90) || u == 0xb5
}

/// The nanoseconds of a unit. A month has 30.44 days and a year 365.25.
pub open spec fn unit_nanos(unit: Seq<char>) -> Option<nat> {
    if unit == "nanos"@ || unit == "nsec"@ || unit == "ns"@ {
        Some(1)
    } else if unit == "usec"@ || unit == "us"@ || unit == "µs"@ {
        Some(1_000)
    } else if unit == "millis"@ || unit == "msec"@ || unit == "ms"@ {
        Some(1_000_000)
    } else if unit == "seconds"@ || unit == "second"@ || unit == "secs"@ || unit == "sec"@ || unit
        == "s"@ {
        Some(1_000_000_000)
    } else if unit == "minutes"@ || unit == "minute"@ || unit == "min"@ || unit == "mins"@ || unit
        == "m"@ {
        Some(60_000_000_000)
    } else if unit == "hours"@ || unit == "hour"@ || unit == "hr"@ || unit == "hrs"@ || unit
        == "h"@ {
        Some(3_600_000_000_000)
    } else if unit == "days"@ || unit == "day"@ || unit == "d"@ {
        Some(86_400_000_000_000)
    } else if unit == "weeks"@ || unit == "week"@ || unit == "wk"@ || unit == "wks"@ || unit
        == "w"@ {
        Some(604_800_000_000_000)
    } else if unit == "months"@ || unit == "month"@ || unit == "M"@ {
        Some(2_630_016_000_000_000)
    } else if unit == "years"@ || unit == "year"@ || unit == "yr"@ || unit == "yrs"@ || unit
        == "y"@ {
        Some(31_557_600_000_000_000)
    } else {
        None
    }
}

fn nanos_of_unit(u: &str) -> (r: Option<u64>)
    ensures
        match r {
            Some(n) => unit_nanos(u@) == Some(n as nat) && 0 < n <= 31_557_600_000_000_000,
            None => unit_nanos(u@) is None,
        },
{
    if same(u, "nanos") || same(u, "nsec") || same(u, "ns") {
        Some(1)
    } else if same(u, "usec") || same(u, "us") || same(u, "µs") {
        Some(1_000)
    } else if same(u, "millis") || same(u, "msec") || same(u, "ms") {
        Some(1_000_000)
    } else if same(u, "seconds") || same(u, "second") || same(u, "secs") || same(u, "sec")
        || same(u, "s") {
        Some(1_000_000_000)
    } else if same(u, "minutes") || same(u, "minute") || same(u, "min") || same(u, "mins")
        || same(u, "m") {
        Some(60_000_000_000)
    } else if same(u, "hours") || same(u, "hour") || same(u, "hr") || same(u, "hrs")
        || same(u, "h") {
        Some(3_600_000_000_000)
    } else if same(u, "days") || same(u, "day") || same(u, "d") {
        Some(86_400_000_000_000)
    } else if same(u, "weeks") || same(u, "week") || same(u, "wk") || same(u, "wks")
        || same(u, "w") {
        Some(604_800_000_000_000)
    } else if same(u, "months") || same(u, "month") || same(u, "M") {
        Some(2_630_016_000_000_000)
    } else if same(u, "years") || same(u, "year") || same(u, "yr") || same(u, "yrs")
        || same(u, "y") {
        Some(31_557_600_000_000_000)
    } else {
        None
    }
}

impl Reading {
    /// A text is read from its beginning.
    pub open spec fn nothing() -> Reading {
        Reading { part: Part::Gap, whole: 0, above: 0, below: 1, unit: Seq::empty() }
    }

    /// A number begins with a digit.
    pub open spec fn begun(digit: nat) -> Reading {
        Reading { part: Part::Number, whole: digit, ..Reading::nothing() }
    }

    /// The nanoseconds of the span, if its unit is known.
    pub open spec fn nanos(self) -> Option<nat> {
        match unit_nanos(self.unit) {
            Some(n) => Some(self.whole * n + self.above * n / self.below),
            None => None,
        }
    }

    /// What is read behind one more character, and the nanoseconds of the span that ends there. No
    /// text goes on like this where there is neither.
    pub open spec fn then_read(self, c: char) -> Option<(Reading, nat)> {
        match self.part {
            Part::Gap => match digit_value(c) {
                Some(d) => Some((Reading::begun(d), 0)),
                None => if white(c) {
                    Some((self, 0))
                } else {
                    None
                },
            },
            Part::Number => match digit_value(c) {
                Some(d) => if self.whole * 10 + d <= u64::MAX {
                    Some((Reading { whole: self.whole * 10 + d, ..self }, 0))
                } else {
                    None
                },
                None => if white(c) {
                    Some((self, 0))
                } else if unit_letter(c) {
                    Some((Reading { part: Part::Unit, unit: seq![c], ..self }, 0))
                } else if c == '.' {
                    Some((Reading { part: Part::Decimals, ..self }, 0))
                } else {
                    None
                },
            },
            Part::Decimals => match digit_value(c) {
                Some(d) => if self.below * 10 <= u64::MAX {
                    Some(
                        (
                            Reading {
                                above: self.above * 10 + d,
                                below: self.below * 10,
                                ..self
                            },
                            0,
                        ),
                    )
                } else {
                    None
                },
                None => if white(c) {
                    Some((self, 0))
                } else if unit_letter(c) && self.below > 1 {
                    Some((Reading { part: Part::Unit, unit: seq![c], ..self }, 0))
                } else {
                    None
                },
            },
            Part::Unit => if unit_letter(c) {
                Some((Reading { unit: self.unit.push(c), ..self }, 0))
            } else {
                match (self.nanos(), digit_value(c)) {
                    (Some(n), Some(d)) => Some((Reading::begun(d), n)),
                    (Some(n), None) => if white(c) {
                        Some((Reading::nothing(), n))
                    } else {
                        None
                    },
                    (None, _) => None,
                }
            },
        }
    }
}

/// The nanoseconds of the spans in the text, on top of those in front of it. What cannot be read
/// ends the text.
pub open spec fn nanos_in(s: Seq<char>, at: Reading, sum: nat) -> nat
    decreases s.len(),
{
    if s.len() == 0 {
        match (at.part, at.nanos()) {
            (Part::Unit, Some(n)) => sum + n,
            _ => sum,
        }
    } else {
        match at.then_read(s[0]) {
            Some((next, n)) => nanos_in(s.drop_first(), next, sum + n),
            None => sum,
        }
    }
}

/// The spans in the text take longer than a `std::time::Duration` can hold.
pub open spec fn too_long(s: Seq<char>) -> bool {
    nanos_in(s, Reading::nothing(), 0) >= TOO_MANY_NANOS
}

proof fn lemma_nanos_only_grow(s: Seq<char>, at: Reading, sum: nat)
    ensures
        nanos_in(s, at, sum) >= sum,
    decreases s.len(),
{
    if s.len() > 0 {
        if let Some((next, n)) = at.then_read(s[0]) {
            lemma_nanos_only_grow(s.drop_first(), next, sum + n);
        }
    }
}

/// How far a span was read. Its unit stands in the text from `from` on.
struct Span {
    part: Part,
    whole: u64,
    above: u64,
    below: u64,
    from: usize,
}

impl Span {
    /// This is what is read of the span in front of `i`.
    spec fn stands_for(self, chars: Seq<char>, i: int, at: Reading) -> bool {
        &&& at.part == self.part
        &&& at.whole == self.whole
        &&& at.above == self.above
        &&& at.below == self.below
        &&& self.above < self.below
        &&& self.part is Unit ==> self.from < i && at.unit == chars.subrange(self.from as int, i)
        &&& !(self.part is Unit) ==> at.unit == Seq::<char>::empty()
    }

    fn nothing() -> (r: Span)
        ensures
            r == (Span { part: Part::Gap, whole: 0, above: 0, below: 1, from: 0 }),
    {
        Span { part: Part::Gap, whole: 0, above: 0, below: 1, from: 0 }
    }

    fn begun(digit: u64) -> (r: Span)
        ensures
            r == (Span { part: Part::Number, whole: digit, above: 0, below: 1, from: 0 }),
    {
        Span { part: Part::Number, whole: digit, above: 0, below: 1, from: 0 }
    }

    fn nanos(&self, chars: &Vec<char>, i: usize, Ghost(at): Ghost<Reading>) -> (r: Option<u128>)
        requires
            i <= chars@.len(),
            self.part is Unit,
            self.stands_for(chars@, i as int, at),
        ensures
            match r {
                Some(n) => at.nanos() == Some(n as nat) && n <= u128::MAX / 2,
                None => at.nanos() is None,
            },
    {
        let unit = string_of(chars, self.from, i);
        match nanos_of_unit(unit.as_str()) {
            None => None,
            Some(n) => {
                let u: u128 = n as u128;
                let whole: u128 = self.whole as u128;
                let above: u128 = self.above as u128;
                let below: u128 = self.below as u128;
                assert(whole * u <= 0x4000_0000_0000_0000_0000_0000_0000_0000) by (
                    nonlinear_arith)
                    requires
                        whole <= u64::MAX,
                        u <= 31_557_600_000_000_000,
                ;
                assert(above * u <= 0x4000_0000_0000_0000_0000_0000_0000_0000) by (
                    nonlinear_arith)
                    requires
                        above <= u64::MAX,
                        u <= 31_557_600_000_000_000,
                ;
                assert(0 <= above * u / (below as int) <= above * u) by (nonlinear_arith)
                    requires
                        below > 0,
                        0 <= above * u,
                ;
                Some(whole * u + above * u / below)
            },
        }
    }
}

fn digit_of(c: char) -> (r: Option<u64>)
    ensures
        match r {
            Some(d) => digit_value(c) == Some(d as nat) && d <= 9,
            None => digit_value(c) is None,
        },
{
    let u: u32 = c as u32;
    if 48 <= u && u <= 57 {
        Some((u - 48) as u64)
    } else {
        None
    }
}

/// Whether the spans in a text take longer than a `std::time::Duration` can hold.
pub fn is_too_long(text: &str) -> (r: bool)
    ensures
        r == too_long(text@),
{
    let chars = chars_of(text);
    let mut span = Span::nothing();
    let mut sum: u128 = 0;
    let ghost mut at = Reading::nothing();
    let mut i: usize = 0;
    assert(text@.skip(0) =~= text@);
    while i < chars.len()
        invariant
            chars@ == text@,
            i <= chars@.len(),
            sum < TOO_MANY_NANOS,
            span.stands_for(chars@, i as int, at),
            nanos_in(text@, Reading::nothing(), 0) == nanos_in(
                text@.skip(i as int),
                at,
                sum as nat,
            ),
        decreases chars@.len() - i,
    {
        let c = chars[i];
        let ghost before = at;
        let ghost was = sum;
        proof {
            assert(text@.skip(i as int)[0] == c);
            assert(text@.skip(i as int).drop_first() =~= text@.skip(i + 1));
        }
        match span.part {
            Part::Gap => match digit_of(c) {
                Some(d) => {
                    span = Span::begun(d);
                },
                None => if !is_white(c) {
                    return false;
                },
            },
            Part::Number => match digit_of(c) {
                Some(d) => {
                    if span.whole > 1844674407370955161 || (span.whole == 1844674407370955161 && d
                        > 5) {
                        return false;
                    }
                    span.whole = span.whole * 10 + d;
                },
                None => if is_white(c) {
                } else if is_unit_letter(c) {
                    span.part = Part::Unit;
                    span.from = i;
                } else if c == '.' {
                    span.part = Part::Decimals;
                } else {
                    return false;
                },
            },
            Part::Decimals => match digit_of(c) {
                Some(d) => {
                    if span.below > 1844674407370955161 {
                        return false;
                    }
                    span.above = span.above * 10 + d;
                    span.below = span.below * 10;
                },
                None => if is_white(c) {
                } else if is_unit_letter(c) && span.below > 1 {
                    span.part = Part::Unit;
                    span.from = i;
                } else {
                    return false;
                },
            },
            Part::Unit => if !is_unit_letter(c) {
                match span.nanos(&chars, i, Ghost(at)) {
                    None => {
                        return false;
                    },
                    Some(n) => match digit_of(c) {
                        Some(d) => {
                            sum = sum + n;
                            span = Span::begun(d);
                        },
                        None => if is_white(c) {
                            sum = sum + n;
                            span = Span::nothing();
                        } else {
                            return false;
                        },
                    },
                }
            },
        }
        proof {
            let (next, _) = before.then_read(c).unwrap();
            at = next;
            assert(before.then_read(c) == Some((at, (sum - was) as nat)));
            assert(chars@.subrange(i as int, i + 1) =~= seq![c]);
            if span.part is Unit && before.part is Unit {
                assert(chars@.subrange(span.from as int, i + 1) =~= chars@.subrange(
                    span.from as int,
                    i as int,
                ).push(c));
            }
            lemma_nanos_only_grow(text@.skip(i + 1), at, sum as nat);
        }
        if sum >= TOO_MANY_NANOS {
            return true;
        }
        i = i + 1;
    }
    assert(text@.skip(i as int).len() == 0);
    match span.part {
        Part::Unit => match span.nanos(&chars, i, Ghost(at)) {
            Some(n) => sum + n >= TOO_MANY_NANOS,
            None => false,
        },
        _ => false,
    }
}

proof fn lemma_number_is_read(n: nat, rest: Seq<char>, sum: nat)
    requires
        n <= u64::MAX,
    ensures
        nanos_in(crate::text::decimal(n) + rest, Reading::nothing(), sum) == nanos_in(
            rest,
            Reading { part: Part::Number, whole: n, above: 0, below: 1, unit: Seq::empty() },
            sum,
        ),
    decreases n,
{
    let text = crate::text::decimal(n) + rest;
    let d = crate::text::digit(n % 10);
    assert(digit_value(d) == Some(n % 10));
    if n < 10 {
        assert(text.drop_first() =~= rest);
        assert(text[0] == d);
        assert(Reading::begun(n) == (Reading {
            part: Part::Number,
            whole: n,
            above: 0,
            below: 1,
            unit: Seq::empty(),
        }));
    } else {
        let tail = seq![d] + rest;
        assert(text =~= crate::text::decimal(n / 10) + tail);
        lemma_number_is_read(n / 10, tail, sum);
        assert(tail.drop_first() =~= rest);
        assert(n / 10 * 10 + n % 10 == n);
    }
}

proof fn lemma_unit_is_read(head: Seq<char>, tail: Seq<char>, n: nat, sum: nat)
    requires
        forall|i: int| 0 <= i < tail.len() ==> unit_letter(#[trigger] tail[i]),
    ensures
        nanos_in(
            tail,
            Reading { part: Part::Unit, whole: n, above: 0, below: 1, unit: head },
            sum,
        ) == (match unit_nanos(head + tail) {
            Some(nanos) => sum + n * nanos,
            None => sum,
        }),
    decreases tail.len(),
{
    let at = Reading { part: Part::Unit, whole: n, above: 0, below: 1, unit: head };
    if tail.len() == 0 {
        assert(head + tail =~= head);
        match unit_nanos(head) {
            Some(nanos) => {
                assert(0 * nanos == 0) by (nonlinear_arith);
            },
            None => {},
        }
    } else {
        let rest = tail.drop_first();
        assert(unit_letter(tail[0]));
        assert forall|i: int| 0 <= i < rest.len() implies unit_letter(#[trigger] rest[i]) by {
            assert(rest[i] == tail[i + 1]);
        }
        lemma_unit_is_read(head.push(tail[0]), rest, n, sum);
        assert(head.push(tail[0]) + rest =~= head + tail);
        assert(at.then_read(tail[0]) == Some((Reading { unit: head.push(tail[0]), ..at }, 0nat)));
    }
}

/// A number with a unit is so many of that unit; it is too long from two to the power of 64 seconds
/// on.
pub proof fn spans_are_numbers_of_units(n: nat, unit: Seq<char>)
    requires
        n <= u64::MAX,
        unit.len() > 0,
        forall|i: int| 0 <= i < unit.len() ==> unit_letter(#[trigger] unit[i]),
        unit_nanos(unit) is Some,
    ensures
        nanos_in(crate::text::decimal(n) + unit, Reading::nothing(), 0) == n * unit_nanos(unit)->0,
        too_long(crate::text::decimal(n) + unit) <==> n * unit_nanos(unit)->0
            >= 0x1_0000_0000_0000_0000 * 1_000_000_000,
{
    lemma_number_is_read(n, unit, 0);
    let rest = unit.drop_first();
    assert(unit_letter(unit[0]));
    assert forall|i: int| 0 <= i < rest.len() implies unit_letter(#[trigger] rest[i]) by {
        assert(rest[i] == unit[i + 1]);
    }
    lemma_unit_is_read(seq![unit[0]], rest, n, 0);
    assert(seq![unit[0]] + rest =~= unit);
    assert(digit_value(unit[0]) is None);
    assert(!white(unit[0]));
}

/// How long the units are.
pub proof fn units_have_their_lengths(unit: Seq<char>)
    ensures
        unit == "ns"@ || unit == "nsec"@ || unit == "nanos"@ ==> unit_nanos(unit) == Some(1nat),
        unit_nanos(unit) is Some ==> unit == "nanos"@ || unit == "nsec"@ || unit == "ns"@ || unit
            == "usec"@ || unit == "us"@ || unit == "µs"@ || unit == "millis"@ || unit == "msec"@ || unit
            == "ms"@ || unit == "seconds"@ || unit == "second"@ || unit == "secs"@ || unit == "sec"@
            || unit == "s"@ || unit == "minutes"@ || unit == "minute"@ || unit == "min"@ || unit
            == "mins"@ || unit == "m"@ || unit == "hours"@ || unit == "hour"@ || unit == "hr"@ || unit
            == "hrs"@ || unit == "h"@ || unit == "days"@ || unit == "day"@ || unit == "d"@ || unit
            == "weeks"@ || unit == "week"@ || unit == "wk"@ || unit == "wks"@ || unit == "w"@ || unit
            == "months"@ || unit == "month"@ || unit == "M"@ || unit == "years"@ || unit == "year"@
            || unit == "yr"@ || unit == "yrs"@ || unit == "y"@,
        unit_nanos("s"@) == Some(1_000_000_000nat),
        unit_nanos("ms"@) == Some(1_000_000nat),
        unit_nanos("m"@) == Some((60 * 1_000_000_000) as nat),
        unit_nanos("h"@) == Some((60 * 60 * 1_000_000_000) as nat),
        unit_nanos("d"@) == Some((24 * 60 * 60 * 1_000_000_000) as nat),
        unit_nanos("w"@) == Some((7 * 24 * 60 * 60 * 1_000_000_000) as nat),
{
    reveal_strlit("nanos");
    reveal_strlit("nsec");
    reveal_strlit("ns");
    reveal_strlit("usec");
    reveal_strlit("us");
    reveal_strlit("µs");
    reveal_strlit("millis");
    reveal_strlit("msec");
    reveal_strlit("ms");
    reveal_strlit("seconds");
    reveal_strlit("second");
    reveal_strlit("secs");
    reveal_strlit("sec");
    reveal_strlit("s");
    reveal_strlit("minutes");
    reveal_strlit("minute");
    reveal_strlit("min");
    reveal_strlit("mins");
    reveal_strlit("m");
    reveal_strlit("hours");
    reveal_strlit("hour");
    reveal_strlit("hr");
    reveal_strlit("hrs");
    reveal_strlit("h");
    reveal_strlit("days");
    reveal_strlit("day");
    reveal_strlit("d");
    reveal_strlit("weeks");
    reveal_strlit("week");
    reveal_strlit("wk");
    reveal_strlit("wks");
    reveal_strlit("w");
    assert("s"@.len() == 1 && "s"@[0] == 's');
    assert("m"@.len() == 1 && "m"@[0] == 'm');
    assert("h"@.len() == 1 && "h"@[0] == 'h');
    assert("d"@.len() == 1 && "d"@[0] == 'd');
    assert("w"@.len() == 1 && "w"@[0] == 'w');
    assert("ms"@.len() == 2 && "ms"@[0] == 'm');
    assert("ns"@.len() == 2 && "ns"@[0] == 'n');
    assert("us"@.len() == 2 && "us"@[0] == 'u');
    assert("µs"@.len() == 2 && "µs"@[0] == 'µ');
}

} // verus!
