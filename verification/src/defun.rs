//! The functions that queries may call: `dist`, `match`, `imatch`, `recent`.

use vstd::prelude::*;
use crate::errors::{AppError, AppResult};
use crate::meta::dhash_text;
use crate::text::{digit_char, hex_fixed, lowercase, to_lowercase};
use crate::time::{duration, duration_of, rfc3339_utc, countable, utc_text, Timestamp};

verus! {

/// The value of a hexadecimal digit.
pub open spec fn hex_digit(c: char) -> Option<nat> {
    if '0' <= c <= '9' {
        Some((c as u32 - '0' as u32) as nat)
    } else if 'a' <= c <= 'f' {
        Some((c as u32 - 'a' as u32 + 10) as nat)
    } else if 'A' <= c <= 'F' {
        Some((c as u32 - 'A' as u32 + 10) as nat)
    } else {
        None
    }
}

/// The number that the hexadecimal digits `s` write; `None` where `s` holds
/// anything but digits. No digits write 0.
pub open spec fn hex_digits(s: Seq<char>) -> Option<nat>
    decreases s.len(),
{
    if s.len() == 0 {
        Some(0)
    } else {
        match (hex_digits(s.drop_last()), hex_digit(s.last())) {
            (Some(front), Some(digit)) => Some(front * 16 + digit),
            _ => None,
        }
    }
}

/// The 64-bit number that `s` writes in hexadecimal: an optional `+`, then at
/// least one digit and nothing else. `None` for any other text and for a
/// number that does not fit 64 bits.
pub open spec fn hex_u64(s: Seq<char>) -> Option<u64> {
    let digits = if s.len() > 0 && s[0] == '+' {
        s.skip(1)
    } else {
        s
    };
    if digits.len() == 0 {
        None
    } else {
        match hex_digits(digits) {
            Some(value) => if value <= u64::MAX {
                Some(value as u64)
            } else {
                None
            },
            None => None,
        }
    }
}

/// The number of ones in the binary form of `x`.
pub open spec fn popcount(x: nat) -> nat
    decreases x,
{
    if x == 0 {
        0
    } else {
        x % 2 + popcount(x / 2)
    }
}

/// The distance of two dhash texts: the number of bits in which the numbers
/// they write in hexadecimal differ, where a text that writes none counts as
/// 0. An argument that is no text puts the distance at the greatest value.
pub open spec fn dist_spec(a: Option<Seq<char>>, b: Option<Seq<char>>) -> u32 {
    match (a, b) {
        (Some(x), Some(y)) => popcount((hex_or_zero(x) ^ hex_or_zero(y)) as nat) as u32,
        _ => u32::MAX,
    }
}

/// The number that `s` writes in hexadecimal, 0 where it writes none.
pub open spec fn hex_or_zero(s: Seq<char>) -> u64 {
    match hex_u64(s) {
        Some(value) => value,
        None => 0,
    }
}

/// `pattern` matches the whole of `text`, where `?` in the pattern stands for
/// any one character and `*` for any run of characters, the empty one too.
pub open spec fn wildcard_matches(pattern: Seq<char>, text: Seq<char>) -> bool
    decreases pattern.len(), text.len(),
{
    if pattern.len() == 0 {
        text.len() == 0
    } else if pattern[0] == '*' {
        wildcard_matches(pattern.skip(1), text) || (text.len() > 0 && wildcard_matches(
            pattern,
            text.skip(1),
        ))
    } else if text.len() > 0 && (pattern[0] == '?' || pattern[0] == text[0]) {
        wildcard_matches(pattern.skip(1), text.skip(1))
    } else {
        false
    }
}

/// Whether `pattern` matches `text`; with `ignore_case` both are put in lower
/// case first.
pub open spec fn match_spec(pattern: Seq<char>, text: Seq<char>, ignore_case: bool) -> bool {
    if ignore_case {
        wildcard_matches(lowercase(pattern), lowercase(text))
    } else {
        wildcard_matches(pattern, text)
    }
}

/// What `recent` answers at the instant `now` for the span that `text`
/// names: the text of the instant that lies the span before `now`. `None`
/// where `text` names no span or its numbers cannot be counted up without
/// overflow, and where the earlier instant is outside the calendar.
pub open spec fn recent_spec(now: Timestamp, text: Seq<char>) -> Option<Seq<char>> {
    if !countable(text) {
        None
    } else {
        match duration_of(text) {
            Some((secs, nanos)) => cutoff_text_spec(now, secs, nanos),
            None => None,
        }
    }
}

/// The text of the instant that lies `secs` seconds and `nanos` nanoseconds
/// before `now`.
pub open spec fn cutoff_text_spec(now: Timestamp, secs: u64, nanos: u32) -> Option<Seq<char>> {
    if nanos >= crate::time::NANOS_PER_SEC || crate::time::earlier_secs(now, secs, nanos)
        < i64::MIN {
        None
    } else {
        let whole = crate::time::earlier_secs(now, secs, nanos) as i64;
        let part = if now.nanos >= nanos {
            (now.nanos - nanos) as u32
        } else {
            (now.nanos + crate::time::NANOS_PER_SEC - nanos) as u32
        };
        rfc3339_utc(whole, part)
    }
}

/// `u64::from_str_radix` with radix 16: the number that the text writes in
/// hexadecimal, after an optional `+`; an error for an empty text, a
/// character that is no digit, and a number above 64 bits.
#[verifier::external_body]
fn parse_hex(s: &str) -> (value: Option<u64>)
    ensures
        value == hex_u64(s@),
{
    match u64::from_str_radix(s, 16) {
        Ok(value) => Some(value),
        Err(_) => None,
    }
}

/// `u64::count_ones`: the number of ones in the binary form.
#[verifier::external_body]
fn count_ones(x: u64) -> (ones: u32)
    ensures
        ones == popcount(x as nat),
{
    x.count_ones()
}

/// `wildmatch::WildMatch::new` and `matches`: whether the pattern, with `?`
/// for one character and `*` for any run, matches the whole of the text.
#[verifier::external_body]
fn wild_match(pattern: &str, text: &str) -> (matched: bool)
    ensures
        matched == wildcard_matches(pattern@, text@),
{
    wildmatch::WildMatch::new(pattern).matches(text)
}

/// The number of bits in which `x` and `y` differ.
pub fn hamming_distance(x: u64, y: u64) -> (distance: u32)
    ensures
        distance == popcount((x ^ y) as nat),
{
    count_ones(x ^ y)
}

/// `dist(a, b)`: the distance of two dhash texts. `None` stands for an
/// argument that is no text.
pub fn dist(a: Option<&str>, b: Option<&str>) -> (distance: u32)
    ensures
        distance == dist_spec(
            match a {
                Some(s) => Some(s@),
                None => None,
            },
            match b {
                Some(s) => Some(s@),
                None => None,
            },
        ),
{
    match (a, b) {
        (Some(x), Some(y)) => {
            let x = match parse_hex(x) {
                Some(value) => value,
                None => 0,
            };
            let y = match parse_hex(y) {
                Some(value) => value,
                None => 0,
            };
            let distance = hamming_distance(x, y);
            proof {
                vstd::arithmetic::power2::lemma2_to64();
                lemma_popcount_fits((x ^ y) as nat, 64);
            }
            distance
        },
        _ => u32::MAX,
    }
}

/// A number below `2^bits` has at most `bits` ones.
pub proof fn lemma_popcount_fits(x: nat, bits: nat)
    requires
        x < vstd::arithmetic::power2::pow2(bits),
    ensures
        popcount(x) <= bits,
    decreases bits,
{
    vstd::arithmetic::power2::lemma2_to64();
    if x != 0 {
        if bits == 0 {
            assert(vstd::arithmetic::power2::pow2(0) == 1);
        } else {
            vstd::arithmetic::power2::lemma_pow2_unfold(bits);
            lemma_popcount_fits(x / 2, (bits - 1) as nat);
        }
    }
}

/// 16 to the power of `width`.
pub open spec fn sixteen_to(width: nat) -> nat
    decreases width,
{
    if width == 0 {
        1
    } else {
        16 * sixteen_to((width - 1) as nat)
    }
}

/// The digits written for a number are `width` hexadecimal digits in lower
/// case, and read back they give the number, as far as `width` digits hold
/// it.
pub proof fn lemma_hex_fixed_reads_back(n: nat, width: nat)
    ensures
        hex_fixed(n, width).len() == width,
        forall|i: int|
            0 <= i < width ==> ('0' <= #[trigger] hex_fixed(n, width)[i] <= '9') || ('a'
                <= hex_fixed(n, width)[i] <= 'f'),
        hex_digits(hex_fixed(n, width)) == Some(n % sixteen_to(width)),
        sixteen_to(width) > 0,
    decreases width,
{
    if width > 0 {
        let front = hex_fixed(n / 16, (width - 1) as nat);
        let digits = hex_fixed(n, width);
        lemma_hex_fixed_reads_back(n / 16, (width - 1) as nat);
        assert(digits.drop_last() =~= front);
        assert(hex_digit(digit_char(n % 16)) == Some(n % 16));
        vstd::arithmetic::div_mod::lemma_mod_breakdown(
            n as int,
            16,
            sixteen_to((width - 1) as nat) as int,
        );
        assert forall|i: int| 0 <= i < width implies ('0' <= #[trigger] digits[i] <= '9') || ('a'
            <= digits[i] <= 'f') by {
            if i < width - 1 {
                assert(digits[i] == front[i]);
            }
        }
    }
}

/// The text of a hash has sixteen hexadecimal digits in lower case and
/// writes the hash.
pub proof fn lemma_dhash_text_writes_the_hash(hash: u64)
    ensures
        dhash_text(hash).len() == 16,
        forall|i: int|
            0 <= i < 16 ==> ('0' <= #[trigger] dhash_text(hash)[i] <= '9') || ('a' <= dhash_text(
                hash,
            )[i] <= 'f'),
        hex_u64(dhash_text(hash)) == Some(hash),
{
    lemma_hex_fixed_reads_back(hash as nat, 16);
    assert(sixteen_to(16) == 0x1_0000_0000_0000_0000) by {
        reveal_with_fuel(sixteen_to, 17);
    }
    let text = dhash_text(hash);
    assert(text[0] != '+');
}

/// The distance of the texts of two hashes is the number of bits in which
/// the hashes differ.
pub proof fn lemma_dist_of_hashes(a: u64, b: u64)
    ensures
        dist_spec(Some(dhash_text(a)), Some(dhash_text(b))) == popcount((a ^ b) as nat),
{
    lemma_dhash_text_writes_the_hash(a);
    lemma_dhash_text_writes_the_hash(b);
    vstd::arithmetic::power2::lemma2_to64();
    lemma_popcount_fits((a ^ b) as nat, 64);
}

/// A dhash is at distance 0 from itself.
pub proof fn lemma_dist_to_itself(a: Seq<char>)
    ensures
        dist_spec(Some(a), Some(a)) == 0,
{
    let x = hex_or_zero(a);
    assert(x ^ x == 0) by (bit_vector);
}

/// A wildcard pattern made ready for matching: its text in the case it is
/// matched in, to be kept for the calls that share it.
#[derive(Clone, Debug)]
pub struct Pattern {
    text: String,
    ignore_case: bool,
}

impl Pattern {
    /// The pattern in the case it is matched in.
    pub closed spec fn pattern_text(&self) -> Seq<char> {
        self.text@
    }

    /// Whether case is left aside.
    pub closed spec fn ignores_case(&self) -> bool {
        self.ignore_case
    }

    /// Makes `pattern` ready; with `ignore_case` it is put in lower case.
    pub fn new(pattern: &str, ignore_case: bool) -> (ready: Pattern)
        ensures
            ready.ignores_case() == ignore_case,
            ready.pattern_text() == (if ignore_case {
                lowercase(pattern@)
            } else {
                pattern@
            }),
    {
        if ignore_case {
            Pattern { text: to_lowercase(pattern), ignore_case }
        } else {
            Pattern { text: pattern.to_owned(), ignore_case }
        }
    }

    /// Whether the pattern matches the whole of `text`, which is put in
    /// lower case first where case is left aside.
    pub fn matches(&self, text: &str) -> (matched: bool)
        ensures
            matched == wildcard_matches(
                self.pattern_text(),
                if self.ignores_case() {
                    lowercase(text@)
                } else {
                    text@
                },
            ),
    {
        if self.ignore_case {
            let text = to_lowercase(text);
            wild_match(self.text.as_str(), text.as_str())
        } else {
            wild_match(self.text.as_str(), text)
        }
    }
}

/// `match(pattern, text)` and `imatch(pattern, text)`: whether the wildcard
/// pattern matches the whole text, for `imatch` without regard to case.
pub fn match_text(pattern: &str, text: &str, ignore_case: bool) -> (matched: bool)
    ensures
        matched == match_spec(pattern@, text@, ignore_case),
{
    Pattern::new(pattern, ignore_case).matches(text)
}

/// The text of the instant that lies `secs` seconds and `nanos` nanoseconds
/// before `now`; `None` where there is no such instant in the calendar.
pub fn cutoff_text(now: Timestamp, secs: u64, nanos: u32) -> (text: Option<String>)
    requires
        now.wf(),
    ensures
        match cutoff_text_spec(now, secs, nanos) {
            Some(t) => text matches Some(s) && s@ == t,
            None => text is None,
        },
{
    match now.minus(secs, nanos) {
        Some(earlier) => utc_text(earlier.secs, earlier.nanos),
        None => None,
    }
}

/// `recent(span)` at the instant `now`: the text of the instant that lies
/// the span named by `text` before `now`, to compare stored instants with.
pub fn recent(now: Timestamp, text: &str) -> (result: AppResult<String>)
    requires
        now.wf(),
    ensures
        match recent_spec(now, text@) {
            Some(t) => result matches Ok(s) && s@ == t,
            None => result matches Err(AppError::InvalidNumberFormat(given)) && given@ == text@,
        },
{
    match duration(text) {
        Some((secs, nanos)) => match cutoff_text(now, secs, nanos) {
            Some(cutoff) => Ok(cutoff),
            None => Err(AppError::InvalidNumberFormat(text.to_owned())),
        },
        None => Err(AppError::InvalidNumberFormat(text.to_owned())),
    }
}

} // verus!
