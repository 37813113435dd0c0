//! Instants and spans of time as plain numbers, and their text form.

use vstd::prelude::*;

verus! {

/// The nanoseconds in a second.
pub const NANOS_PER_SEC: u32 = 1_000_000_000;

/// An instant in UTC: seconds since 1970-01-01T00:00:00Z and the nanoseconds
/// into that second.
#[derive(Clone, Copy, Debug, PartialEq, Eq)]
pub struct Timestamp {
    pub secs: i64,
    pub nanos: u32,
}

impl Timestamp {
    /// The nanoseconds are less than a second.
    pub open spec fn wf(self) -> bool {
        self.nanos < NANOS_PER_SEC
    }

    /// The instant in nanoseconds since the start of 1970.
    pub open spec fn total_nanos(self) -> int {
        self.secs * (NANOS_PER_SEC as int) + self.nanos
    }

    /// The instant `secs` seconds and `nanos` nanoseconds after the start of
    /// 1970; `None` where `nanos` is a second or more.
    pub fn new(secs: i64, nanos: u32) -> (instant: Option<Timestamp>)
        ensures
            match instant {
                Some(t) => nanos < NANOS_PER_SEC && t.secs == secs && t.nanos == nanos && t.wf(),
                None => nanos >= NANOS_PER_SEC,
            },
    {
        if nanos < NANOS_PER_SEC {
            Some(Timestamp { secs, nanos })
        } else {
            None
        }
    }

    /// The instant `secs` seconds and `nanos` nanoseconds before this one.
    /// `None` where `nanos` is a second or more, or the seconds of the result
    /// do not fit 64 bits.
    pub fn minus(&self, secs: u64, nanos: u32) -> (earlier: Option<Timestamp>)
        requires
            self.wf(),
        ensures
            match earlier {
                Some(t) => t.wf() && nanos < NANOS_PER_SEC && t.secs == earlier_secs(
                    *self,
                    secs,
                    nanos,
                ) && t.total_nanos() == self.total_nanos() - (secs * (NANOS_PER_SEC as int)
                    + nanos),
                None => nanos >= NANOS_PER_SEC || earlier_secs(*self, secs, nanos) < i64::MIN,
            },
    {
        if nanos >= NANOS_PER_SEC {
            return None;
        }
        let (borrow, left): (i128, u32) = if self.nanos >= nanos {
            (0, self.nanos - nanos)
        } else {
            (1, self.nanos + NANOS_PER_SEC - nanos)
        };
        let whole: i128 = self.secs as i128 - secs as i128 - borrow;
        if whole < i64::MIN as i128 {
            return None;
        }
        let earlier = Timestamp { secs: whole as i64, nanos: left };
        assert(earlier.total_nanos() == self.total_nanos() - (secs * (NANOS_PER_SEC as int)
            + nanos)) by (nonlinear_arith)
            requires
                earlier.secs == self.secs - secs - borrow,
                earlier.nanos == self.nanos + borrow * NANOS_PER_SEC - nanos,
                earlier.total_nanos() == earlier.secs * (NANOS_PER_SEC as int) + earlier.nanos,
                self.total_nanos() == self.secs * (NANOS_PER_SEC as int) + self.nanos,
        ;
        Some(earlier)
    }
}

/// The seconds of the instant `secs` seconds and `nanos` nanoseconds before
/// `from`.
pub open spec fn earlier_secs(from: Timestamp, secs: u64, nanos: u32) -> int {
    from.secs - secs - (if from.nanos >= nanos {
        0int
    } else {
        1int
    })
}

/// The text of an instant as RFC 3339 writes it, such as
/// `2015-05-15T00:00:00+00:00`; `None` for an instant outside the calendar.
pub uninterp spec fn rfc3339_utc(secs: i64, nanos: u32) -> Option<Seq<char>>;

/// The instant that an RFC 3339 text names; `None` for any other text.
pub uninterp spec fn rfc3339_instant(text: Seq<char>) -> Option<(i64, u32)>;

/// The span of time that a text such as `2 days` or `1 hour and 30 min`
/// names, in whole seconds and nanoseconds; `None` for any other text.
pub uninterp spec fn duration_of(text: Seq<char>) -> Option<(u64, u32)>;

/// `chrono::DateTime::<Utc>::from_timestamp` and `to_rfc3339`: the calendar
/// form of the instant, written with a `T` between date and time and the
/// offset `+00:00`. `None` where chrono has no date for `secs`, or `nanos`
/// is no part of a second.
#[verifier::external_body]
pub(crate) fn utc_text(secs: i64, nanos: u32) -> (text: Option<String>)
    ensures
        match rfc3339_utc(secs, nanos) {
            Some(t) => text matches Some(s) && s@ == t,
            None => text is None,
        },
{
    match chrono::DateTime::from_timestamp(secs, nanos) {
        Some(instant) => Some(instant.to_rfc3339()),
        None => None,
    }
}

/// `chrono::DateTime::parse_from_rfc3339`: the instant that the text names,
/// as seconds since the start of 1970 and nanoseconds.
#[verifier::external_body]
pub(crate) fn utc_instant(text: &str) -> (instant: Option<(i64, u32)>)
    ensures
        instant == rfc3339_instant(text@),
{
    match chrono::DateTime::parse_from_rfc3339(text) {
        Ok(instant) => Some((instant.timestamp(), instant.timestamp_subsec_nanos())),
        Err(_) => None,
    }
}

/// The characters that may stand between a number and its unit: space,
/// tab, carriage return, line feed.
pub open spec fn is_blank(c: char) -> bool {
    c == ' ' || c == '\t' || c == '\r' || c == '\n'
}

/// The first position at or behind `from` that holds no blank.
pub open spec fn after_blanks(text: Seq<char>, from: int) -> int
    decreases text.len() - from,
{
    if 0 <= from < text.len() && is_blank(text[from]) {
        after_blanks(text, from + 1)
    } else {
        from
    }
}

/// The units of time that a span is written in.
#[derive(Clone, Copy, Debug, PartialEq, Eq)]
pub enum Unit {
    Years,
    Months,
    Weeks,
    Days,
    Hours,
    Minutes,
    Seconds,
    Millis,
    Nanos,
}

/// The unit whose name may begin behind the blanks at `from`, told by its
/// first letters: `y`, `mo`, `w`, `d`, `h`, `min`, `s`, `ms` or `mil`, `n`.
pub open spec fn unit_at(text: Seq<char>, from: int) -> Option<Unit> {
    let at = after_blanks(text, from);
    if at < 0 || at >= text.len() {
        None
    } else if text[at] == 'y' {
        Some(Unit::Years)
    } else if text[at] == 'w' {
        Some(Unit::Weeks)
    } else if text[at] == 'd' {
        Some(Unit::Days)
    } else if text[at] == 'h' {
        Some(Unit::Hours)
    } else if text[at] == 's' {
        Some(Unit::Seconds)
    } else if text[at] == 'n' {
        Some(Unit::Nanos)
    } else if text[at] == 'm' && at + 1 < text.len() {
        if text[at + 1] == 'o' {
            Some(Unit::Months)
        } else if text[at + 1] == 's' {
            Some(Unit::Millis)
        } else if text[at + 1] == 'i' && at + 2 < text.len() && text[at + 2] == 'n' {
            Some(Unit::Minutes)
        } else if text[at + 1] == 'i' && at + 2 < text.len() && text[at + 2] == 'l' {
            Some(Unit::Millis)
        } else {
            None
        }
    } else {
        None
    }
}

/// The seconds in one of a unit, where a year has 365 days and a month 30;
/// 0 for the units below a second.
pub open spec fn seconds_in(unit: Unit) -> nat {
    match unit {
        Unit::Years => 31_536_000,
        Unit::Months => 2_592_000,
        Unit::Weeks => 604_800,
        Unit::Days => 86_400,
        Unit::Hours => 3_600,
        Unit::Minutes => 60,
        Unit::Seconds => 1,
        Unit::Millis => 0,
        Unit::Nanos => 0,
    }
}

/// One above the greatest number of 64 bits: sums are counted no further.
pub open spec fn ceiling() -> nat {
    0x1_0000_0000_0000_0000
}

/// `n`, counted no further than [`ceiling`].
pub open spec fn capped(n: nat) -> nat {
    if n > ceiling() {
        ceiling()
    } else {
        n
    }
}

/// What the numbers of a text add up to: seconds from the units of a
/// second and above, milliseconds, nanoseconds.
pub struct Count {
    pub secs: nat,
    pub millis: nat,
    pub nanos: nat,
}

/// The count with `value` of `unit` more; unchanged where no unit follows
/// the number.
pub open spec fn count_more(count: Count, unit: Option<Unit>, value: nat) -> Count {
    match unit {
        None => count,
        Some(Unit::Millis) => Count { millis: capped(count.millis + value), ..count },
        Some(Unit::Nanos) => Count { nanos: capped(count.nanos + value), ..count },
        Some(u) => Count { secs: capped(count.secs + value * seconds_in(u)), ..count },
    }
}

/// The count can be held in the numbers that a span is made of: the
/// seconds in 64 bits, milliseconds as nanoseconds together with the
/// nanoseconds in 32 bits, and in 64 bits again the seconds with the whole
/// seconds among the nanoseconds.
pub open spec fn count_fits(count: Count) -> bool {
    &&& count.secs <= u64::MAX
    &&& count.millis * 1_000_000 + count.nanos <= u32::MAX
    &&& count.secs + (count.millis * 1_000_000 + count.nanos) / 1_000_000_000 <= u64::MAX
}

/// The numbers of `text` from `from` on, each under the unit that follows
/// it, can be counted up together with `count`. `value` is the value of the
/// digits that stand directly before `from`, `in_number` says whether there
/// are any.
pub open spec fn countable_from(
    text: Seq<char>,
    from: int,
    value: nat,
    in_number: bool,
    count: Count,
) -> bool
    decreases text.len() - from,
{
    if from < 0 || from >= text.len() {
        count_fits(count)
    } else if '0' <= text[from] <= '9' {
        countable_from(
            text,
            from + 1,
            capped((value * 10 + (text[from] as u32 - '0' as u32)) as nat),
            true,
            count,
        )
    } else if in_number {
        countable_from(text, from + 1, 0, false, count_more(count, unit_at(text, from), value))
    } else {
        countable_from(text, from + 1, 0, false, count)
    }
}

/// The numbers of `text`, each under the unit that follows it, can be
/// counted up without overflow: the years, months, weeks, days, hours,
/// minutes and seconds as seconds in 64 bits, the milliseconds and
/// nanoseconds as nanoseconds in 32 bits.
pub open spec fn countable(text: Seq<char>) -> bool {
    countable_from(text, 0, 0, false, Count { secs: 0, millis: 0, nanos: 0 })
}

/// `jackdauer::duration`: reads a span of time from text. jackdauer
/// multiplies each number by the seconds of its unit and adds them up in 64
/// bits, and multiplies the milliseconds by a million and adds the
/// nanoseconds in 32 bits, without looking for overflow: the text must be
/// [`countable`].
#[verifier::external_body]
pub(crate) fn parse_duration(text: &str) -> (span: Option<(u64, u32)>)
    requires
        countable(text@),
    ensures
        span == duration_of(text@),
{
    match jackdauer::duration(text) {
        Ok(span) => Some((span.as_secs(), span.subsec_nanos())),
        Err(_) => None,
    }
}

/// The first position at or behind `from` that holds no blank.
fn skip_blanks(v: &Vec<char>, from: usize) -> (at: usize)
    requires
        from <= v.len(),
    ensures
        at == after_blanks(v@, from as int),
        from <= at <= v.len(),
{
    let mut at: usize = from;
    while at < v.len() && (v[at] == ' ' || v[at] == '\t' || v[at] == '\r' || v[at] == '\n')
        invariant
            from <= at <= v.len(),
            after_blanks(v@, from as int) == after_blanks(v@, at as int),
        decreases v.len() - at,
    {
        at += 1;
    }
    at
}

/// The unit whose name may begin behind the blanks at `from`.
fn unit_after(v: &Vec<char>, from: usize) -> (unit: Option<Unit>)
    requires
        from <= v.len(),
    ensures
        unit == unit_at(v@, from as int),
{
    let at = skip_blanks(v, from);
    if at >= v.len() {
        return None;
    }
    let c = v[at];
    if c == 'y' {
        Some(Unit::Years)
    } else if c == 'w' {
        Some(Unit::Weeks)
    } else if c == 'd' {
        Some(Unit::Days)
    } else if c == 'h' {
        Some(Unit::Hours)
    } else if c == 's' {
        Some(Unit::Seconds)
    } else if c == 'n' {
        Some(Unit::Nanos)
    } else if c == 'm' && at + 1 < v.len() {
        let d = v[at + 1];
        if d == 'o' {
            Some(Unit::Months)
        } else if d == 's' {
            Some(Unit::Millis)
        } else if d == 'i' && at + 2 < v.len() && v[at + 2] == 'n' {
            Some(Unit::Minutes)
        } else if d == 'i' && at + 2 < v.len() && v[at + 2] == 'l' {
            Some(Unit::Millis)
        } else {
            None
        }
    } else {
        None
    }
}

/// The seconds in one of a unit.
fn seconds_of(unit: Unit) -> (seconds: u128)
    ensures
        seconds == seconds_in(unit),
{
    match unit {
        Unit::Years => 31_536_000,
        Unit::Months => 2_592_000,
        Unit::Weeks => 604_800,
        Unit::Days => 86_400,
        Unit::Hours => 3_600,
        Unit::Minutes => 60,
        Unit::Seconds => 1,
        Unit::Millis => 0,
        Unit::Nanos => 0,
    }
}

/// `n`, counted no further than the ceiling.
fn cap(n: u128) -> (c: u128)
    ensures
        c == capped(n as nat),
{
    if n > 0x1_0000_0000_0000_0000 {
        0x1_0000_0000_0000_0000
    } else {
        n
    }
}

/// Whether the numbers of `text`, each under the unit that follows it, can
/// be counted up without overflow.
pub fn is_countable(text: &str) -> (fits: bool)
    ensures
        fits == countable(text@),
{
    let v = crate::text::chars_of(text);
    let mut i: usize = 0;
    let mut value: u128 = 0;
    let mut in_number = false;
    let mut secs: u128 = 0;
    let mut millis: u128 = 0;
    let mut nanos: u128 = 0;
    while i < v.len()
        invariant
            i <= v.len(),
            v@ == text@,
            value <= ceiling(),
            secs <= ceiling(),
            millis <= ceiling(),
            nanos <= ceiling(),
            countable(text@) == countable_from(
                text@,
                i as int,
                value as nat,
                in_number,
                Count { secs: secs as nat, millis: millis as nat, nanos: nanos as nat },
            ),
        decreases v.len() - i,
    {
        let c = v[i];
        if '0' <= c && c <= '9' {
            value = cap(value * 10 + (c as u32 - '0' as u32) as u128);
            in_number = true;
        } else {
            if in_number {
                match unit_after(&v, i) {
                    None => {},
                    Some(Unit::Millis) => {
                        millis = cap(millis + value);
                    },
                    Some(Unit::Nanos) => {
                        nanos = cap(nanos + value);
                    },
                    Some(unit) => {
                        let each = seconds_of(unit);
                        assert(value * each <= ceiling() * 31_536_000) by (nonlinear_arith)
                            requires
                                value <= ceiling(),
                                each <= 31_536_000,
                        ;
                        secs = cap(secs + value * each);
                    },
                }
            }
            value = 0;
            in_number = false;
        }
        i += 1;
    }
    assert(millis * 1_000_000 <= ceiling() * 1_000_000) by (nonlinear_arith)
        requires
            millis <= ceiling(),
    ;
    let below: u128 = millis * 1_000_000 + nanos;
    secs <= u64::MAX as u128 && below <= u32::MAX as u128 && secs + below / 1_000_000_000
        <= u64::MAX as u128
}

/// The span of time that `text` names, in seconds and nanoseconds. `None`
/// where `text` names none, or its numbers cannot be counted up without
/// overflow.
pub fn duration(text: &str) -> (span: Option<(u64, u32)>)
    ensures
        span == (if countable(text@) {
            duration_of(text@)
        } else {
            None
        }),
{
    if is_countable(text) {
        parse_duration(text)
    } else {
        None
    }
}

} // verus!
