//! Refresh intervals: the supported ones, and how an interval written by the
//! user (`500ms`, `1s`, `2000`) is read and matched against them.

use vstd::prelude::*;
use crate::cli::{ArgError, invalid_arg};
use crate::text::{
    all_white, law_trim_shape, ascii_lower, decimal_spec, is_ascii_digit, is_white_space, lemma_decimal_digits,
    lemma_decimal_parse_roundtrip, lemma_trim_end_at, lemma_trim_start_at, occurs_at, parse_u64, parse_u64_spec, strip_suffix, strip_suffix_spec, to_ascii_lowercase,
    trim, trim_spec,
};

verus! {

/// The refresh intervals the monitor supports, in milliseconds; a
/// configuration names one of them by its position.
pub const REFRESH_INTERVALS_MS: [u64; 5] = [500, 750, 1000, 2000, 5000];

/// Position of the interval used when none, or an unusable one, is
/// configured (750 ms).
pub const DEFAULT_INTERVAL_INDEX: usize = 1;

/// The supported intervals, in milliseconds.
pub open spec fn refresh_intervals() -> Seq<u64> {
    seq![500u64, 750u64, 1000u64, 2000u64, 5000u64]
}

/// The unit that ends an interval text.
#[derive(Debug, Clone, Copy, PartialEq, Eq, Structural)]
pub enum IntervalUnit {
    /// Ends in `ms`.
    Milliseconds,
    /// Ends in `s` (but not `ms`).
    Seconds,
    /// No unit: a count of milliseconds.
    Bare,
}

/// An interval text taken apart: its unit and the number written before it.
pub struct IntervalText {
    pub unit: IntervalUnit,
    pub number: String,
}

/// `value` trimmed and in ASCII lower case.
pub open spec fn normalized_interval(value: Seq<char>) -> Seq<char> {
    trim_spec(value).map_values(|c: char| ascii_lower(c))
}

/// The unit of an interval text and the (trimmed) number before it.
pub open spec fn interval_form(value: Seq<char>) -> (IntervalUnit, Seq<char>) {
    let normalized = normalized_interval(value);
    match strip_suffix_spec(normalized, "ms"@) {
        Some(rest) => (IntervalUnit::Milliseconds, trim_spec(rest)),
        None => match strip_suffix_spec(normalized, "s"@) {
            Some(rest) => (IntervalUnit::Seconds, trim_spec(rest)),
            None => (IntervalUnit::Bare, normalized),
        },
    }
}

/// The milliseconds an interval text stands for. A number of seconds is a
/// decimal fraction, converted by the caller: `seconds_ms` is that
/// conversion of the number of a seconds text (rounded to whole
/// milliseconds), or `None` where it is no number.
pub open spec fn interval_millis(value: Seq<char>, seconds_ms: Option<u64>) -> Option<u64> {
    let (unit, number) = interval_form(value);
    match unit {
        IntervalUnit::Seconds => seconds_ms,
        _ => parse_u64_spec(number),
    }
}

/// The first position of `ms` among the supported intervals at or after `i`.
pub open spec fn interval_position_from(ms: u64, i: int) -> Option<usize>
    decreases 5 - i,
{
    if i < 0 || i >= 5 {
        None
    } else if refresh_intervals()[i] == ms {
        Some(i as usize)
    } else {
        interval_position_from(ms, i + 1)
    }
}

/// The position of `ms` among the supported intervals.
pub open spec fn interval_position(ms: u64) -> Option<usize> {
    interval_position_from(ms, 0)
}

/// The message for an interval text that is no number.
pub open spec fn invalid_interval_message(value: Seq<char>) -> Seq<char> {
    "invalid interval value: "@ + value
}

/// The message for an interval that is not supported.
pub open spec fn unsupported_interval_message(value: Seq<char>) -> Seq<char> {
    "unsupported interval: "@ + value + ". Supported: 500ms, 750ms, 1s, 2s, 5s"@
}

/// What reading the interval text `value` gives: the position of the
/// interval, or the message of the error.
pub open spec fn parse_interval_spec(value: Seq<char>, seconds_ms: Option<u64>) -> Result<
    usize,
    Seq<char>,
> {
    match interval_millis(value, seconds_ms) {
        None => Err(invalid_interval_message(value)),
        Some(ms) => match interval_position(ms) {
            Some(i) => Ok(i),
            None => Err(unsupported_interval_message(value)),
        },
    }
}

/// The position of a supported interval, in milliseconds.
pub fn interval_position_exec(ms: u64) -> (r: Option<usize>)
    ensures
        r == interval_position(ms),
        r matches Some(i) ==> i < 5 && refresh_intervals()[i as int] == ms,
{
    let mut i: usize = 0;
    while i < 5
        invariant
            i <= 5,
            interval_position(ms) == interval_position_from(ms, i as int),
            forall|k: int| 0 <= k < 5 ==> REFRESH_INTERVALS_MS@[k] == refresh_intervals()[k],
        decreases 5 - i,
    {
        if REFRESH_INTERVALS_MS[i] == ms {
            return Some(i);
        }
        i = i + 1;
    }
    None
}

/// Takes an interval text apart: trims it, puts it in ASCII lower case, and
/// splits off a trailing `ms` or `s` (the number is trimmed again).
pub fn interval_text(value: &str) -> (r: IntervalText)
    ensures
        (r.unit, r.number@) == interval_form(value@),
        r.number@.len() > 0 ==> !is_white_space(r.number@[0]) && !is_white_space(
            r.number@.last(),
        ),
{
    proof {
        law_interval_number_trimmed(value@);
    }
    let normalized = to_ascii_lowercase(trim(value));
    let n = normalized.as_str();
    match strip_suffix(n, "ms") {
        Some(rest) => IntervalText {
            unit: IntervalUnit::Milliseconds,
            number: String::from_str(trim(rest)),
        },
        None => match strip_suffix(n, "s") {
            Some(rest) => IntervalText {
                unit: IntervalUnit::Seconds,
                number: String::from_str(trim(rest)),
            },
            None => IntervalText { unit: IntervalUnit::Bare, number: String::from_str(n) },
        },
    }
}

/// The number of seconds that an interval text is written in, where it
/// ends in `s` (but not `ms`); `None` for the other forms.
pub fn interval_seconds_text(value: &str) -> (r: Option<String>)
    ensures
        r matches Some(t) ==> interval_form(value@) == (IntervalUnit::Seconds, t@),
        r is None ==> interval_form(value@).0 != IntervalUnit::Seconds,
{
    let t = interval_text(value);
    match t.unit {
        IntervalUnit::Seconds => Some(t.number),
        _ => None,
    }
}

/// Reads an interval text (`500ms`, `1s`, `750`; case and surrounding space
/// do not matter) and returns the position of that interval among the
/// supported ones. `seconds_ms` is the number of a seconds text converted
/// to whole milliseconds (see `interval_millis`); it is not read for the
/// other forms.
pub fn parse_interval_index(value: &str, seconds_ms: Option<u64>) -> (r: Result<usize, ArgError>)
    ensures
        r matches Ok(i) ==> parse_interval_spec(value@, seconds_ms) == Ok::<usize, Seq<char>>(i),
        r matches Err(e) ==> parse_interval_spec(value@, seconds_ms) == Err::<usize, Seq<char>>(
            e.message@,
        ),
        r matches Ok(i) ==> i < 5,
{
    let t = interval_text(value);
    let millis = match t.unit {
        IntervalUnit::Seconds => seconds_ms,
        _ => parse_u64(t.number.as_str()),
    };
    match millis {
        None => {
            let mut m = String::from_str("invalid interval value: ");
            m.append(value);
            Err(invalid_arg(m))
        },
        Some(ms) => match interval_position_exec(ms) {
            Some(i) => Ok(i),
            None => {
                let mut m = String::from_str("unsupported interval: ");
                m.append(value);
                m.append(". Supported: 500ms, 750ms, 1s, 2s, 5s");
                Err(invalid_arg(m))
            },
        },
    }
}

/// The position of the configured interval: that of `value` where it reads
/// as a supported interval, else the default (750 ms).
pub fn resolve_interval_index(value: Option<&str>, seconds_ms: Option<u64>) -> (r: usize)
    ensures
        r == match value {
            Some(v) => match parse_interval_spec(v@, seconds_ms) {
                Ok(i) => i,
                Err(_) => DEFAULT_INTERVAL_INDEX,
            },
            None => DEFAULT_INTERVAL_INDEX,
        },
        r < 5,
{
    match value {
        Some(v) => match parse_interval_index(v, seconds_ms) {
            Ok(i) => i,
            Err(_) => DEFAULT_INTERVAL_INDEX,
        },
        None => DEFAULT_INTERVAL_INDEX,
    }
}

/// A text with no white space at either end and no upper-case ASCII letter
/// is its own normal form.
proof fn lemma_normal_text(v: Seq<char>)
    requires
        v.len() > 0,
        !is_white_space(v[0]),
        !is_white_space(v.last()),
        forall|k: int| 0 <= k < v.len() ==> !('A' <= #[trigger] v[k] && v[k] <= 'Z'),
    ensures
        trim_spec(v) == v,
        normalized_interval(v) == v,
{
    lemma_trim_start_at(v, 0);
    assert(v.subrange(0, v.len() as int) =~= v);
    lemma_trim_end_at(v, v.len() as int);
    assert(v.map_values(|c: char| ascii_lower(c)) =~= v);
}

/// The position of each supported interval is its own.
proof fn lemma_interval_position(i: int)
    requires
        0 <= i < 5,
    ensures
        interval_position(refresh_intervals()[i]) == Some(i as usize),
{
    reveal_with_fuel(interval_position_from, 6);
}

/// Each supported interval, written as its number of milliseconds with or
/// without the `ms` unit, reads back as its own position.
pub proof fn law_supported_interval_roundtrip(i: int, seconds_ms: Option<u64>)
    requires
        0 <= i < 5,
    ensures
        parse_interval_spec(decimal_spec(refresh_intervals()[i] as nat) + "ms"@, seconds_ms) == Ok::<
            usize,
            Seq<char>,
        >(i as usize),
        parse_interval_spec(decimal_spec(refresh_intervals()[i] as nat), seconds_ms) == Ok::<
            usize,
            Seq<char>,
        >(i as usize),
{
    reveal_strlit("ms");
    reveal_strlit("s");
    let n = refresh_intervals()[i];
    let d = decimal_spec(n as nat);
    lemma_decimal_digits(n as nat);
    lemma_decimal_parse_roundtrip(n);
    lemma_interval_position(i);
    assert(is_ascii_digit(d[0]));
    assert(is_ascii_digit(d[d.len() - 1]));
    // the bare number
    lemma_normal_text(d);
    assert(!occurs_at(d, "ms"@, d.len() - 2)) by {
        if d.len() >= 2 {
            assert(d.subrange(d.len() - 2, d.len() as int)[1] == d[d.len() - 1]);
        }
    }
    assert(!occurs_at(d, "s"@, d.len() - 1)) by {
        assert(d.subrange(d.len() - 1, d.len() as int)[0] == d[d.len() - 1]);
    }
    // the number with its unit
    let v = d + "ms"@;
    assert(v[0] == d[0]);
    assert(v.last() == 's');
    assert forall|k: int| 0 <= k < v.len() implies !('A' <= #[trigger] v[k] && v[k] <= 'Z') by {
        if k < d.len() {
            assert(v[k] == d[k]);
            assert(is_ascii_digit(d[k]));
        }
    }
    lemma_normal_text(v);
    assert(v.subrange(v.len() - 2, v.len() as int) =~= "ms"@);
    assert(v.take(v.len() - 2) =~= d);
}

/// An interval text is read the same whatever its ASCII case and the white
/// space around it: two texts with the same trimmed lower-case form stand
/// for the same milliseconds and, where one reads as a supported interval,
/// both read as the same one.
pub proof fn law_interval_reading_normalized(v: Seq<char>, w: Seq<char>, seconds_ms: Option<u64>)
    requires
        normalized_interval(v) == normalized_interval(w),
    ensures
        interval_millis(v, seconds_ms) == interval_millis(w, seconds_ms),
        parse_interval_spec(v, seconds_ms) is Ok ==> parse_interval_spec(w, seconds_ms)
            == parse_interval_spec(v, seconds_ms),
{
}

/// A text that reads as an interval reads as a supported one: its position
/// is in range and holds the milliseconds the text stands for.
pub proof fn lemma_parse_interval_in_range(value: Seq<char>, seconds_ms: Option<u64>)
    ensures
        parse_interval_spec(value, seconds_ms) matches Ok(i) ==> {
            &&& i < 5
            &&& interval_millis(value, seconds_ms) == Some(refresh_intervals()[i as int])
        },
{
    if let Some(ms) = interval_millis(value, seconds_ms) {
        lemma_interval_position_from(ms, 0);
    }
}

proof fn lemma_interval_position_from(ms: u64, i: int)
    requires
        0 <= i,
    ensures
        interval_position_from(ms, i) matches Some(k) ==> i <= k < 5 && refresh_intervals()[k as int]
            == ms,
    decreases 5 - i,
{
    if i < 5 && refresh_intervals()[i] != ms {
        lemma_interval_position_from(ms, i + 1);
    }
}

/// Lower-casing keeps white space and non-white space apart.
proof fn lemma_lower_keeps_white(c: char)
    ensures
        is_white_space(ascii_lower(c)) == is_white_space(c),
{
    if 'A' <= c && c <= 'Z' {
        assert(('a' as int) <= ascii_lower(c) as int <= ('z' as int));
    }
}

/// `t` stands in `n` before the last `k` characters, with nothing but
/// white space around it.
pub open spec fn framed_by_white(n: Seq<char>, t: Seq<char>, k: int) -> bool {
    exists|a: int|
        #![trigger n.subrange(a, a + t.len())]
        0 <= a && a + t.len() <= n.len() - k && n.subrange(a, a + t.len()) == t && all_white(
            n.take(a),
        ) && all_white(n.subrange(a + t.len(), n.len() - k))
}

proof fn lemma_framed_prefix(n: Seq<char>, k: int)
    requires
        0 <= k <= n.len(),
    ensures
        framed_by_white(n, trim_spec(n.take(n.len() - k)), k),
{
    let rest = n.take(n.len() - k);
    let t = trim_spec(rest);
    law_trim_shape(rest);
    let a = choose|a: int|
        #![trigger rest.subrange(a, a + t.len())]
        0 <= a && a + t.len() <= rest.len() && rest.subrange(a, a + t.len()) == t && all_white(
            rest.take(a),
        ) && all_white(rest.skip(a + t.len()));
    assert(n.subrange(a, a + t.len()) =~= rest.subrange(a, a + t.len()));
    assert(n.take(a) =~= rest.take(a));
    assert(n.subrange(a + t.len(), n.len() - k) =~= rest.skip(a + t.len()));
}

/// The number of an interval text never starts or ends with white space.
/// With a unit, the trimmed lower-case text is the number, then only white
/// space, then the unit (`ms` or `s`), with only white space before the
/// number; without one, the number is the whole trimmed lower-case text.
pub proof fn law_interval_number_trimmed(value: Seq<char>)
    ensures
        interval_form(value).1.len() > 0 ==> !is_white_space(interval_form(value).1[0])
            && !is_white_space(interval_form(value).1.last()),
        interval_form(value).0 == IntervalUnit::Seconds ==> {
            let n = normalized_interval(value);
            &&& n.len() >= 1
            &&& n.last() == 's'
            &&& !(n.len() >= 2 && n[n.len() - 2] == 'm')
            &&& framed_by_white(n, interval_form(value).1, 1)
        },
        interval_form(value).0 == IntervalUnit::Milliseconds ==> {
            let n = normalized_interval(value);
            &&& n.len() >= 2
            &&& n[n.len() - 2] == 'm'
            &&& n.last() == 's'
            &&& framed_by_white(n, interval_form(value).1, 2)
        },
        interval_form(value).0 == IntervalUnit::Bare ==> interval_form(value).1
            == normalized_interval(value),
{
    reveal_strlit("ms");
    reveal_strlit("s");
    let n = normalized_interval(value);
    let (unit, number) = interval_form(value);
    match unit {
        IntervalUnit::Milliseconds => {
            assert(n.subrange(n.len() - 2, n.len() as int) == "ms"@);
            assert(n.subrange(n.len() - 2, n.len() as int)[0] == n[n.len() - 2]);
            assert(n.subrange(n.len() - 2, n.len() as int)[1] == n[n.len() - 1]);
            lemma_framed_prefix(n, 2);
            law_trim_shape(n.take(n.len() - 2));
        },
        IntervalUnit::Seconds => {
            assert(n.subrange(n.len() - 1, n.len() as int) == "s"@);
            assert(n.subrange(n.len() - 1, n.len() as int)[0] == n[n.len() - 1]);
            if n.len() >= 2 && n[n.len() - 2] == 'm' {
                assert(n.subrange(n.len() - 2, n.len() as int) =~= "ms"@);
            }
            lemma_framed_prefix(n, 1);
            law_trim_shape(n.take(n.len() - 1));
        },
        IntervalUnit::Bare => {
            let t = trim_spec(value);
            law_trim_shape(value);
            if n.len() > 0 {
                lemma_lower_keeps_white(t[0]);
                lemma_lower_keeps_white(t.last());
                assert(n[0] == ascii_lower(t[0]));
                assert(n.last() == ascii_lower(t.last()));
            }
        },
    }
}

} // verus!
