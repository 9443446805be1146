//! Trusted boundary to the Go-style time library (timezone loading and
//! layout-driven parsing) and to std's lossy UTF-8 decoding. Everything else
//! about timestamp conversion is verified on top of these contracts.

use vstd::prelude::*;
use crate::value::NANOS_PER_SEC;

verus! {

#[verifier::external_type_specification]
#[verifier::external_body]
pub struct ExLocation(gostd_time::Location);

#[verifier::external_type_specification]
#[verifier::external_body]
pub struct ExTime(gostd_time::Time);

/// What `String::from_utf8_lossy` returns: a function of the bytes alone.
pub uninterp spec fn lossy_utf8(bytes: Seq<u8>) -> Seq<char>;

/// Relies on std's String::from_utf8_lossy: the decoding is a function of the
/// bytes alone (invalid sequences become replacement characters).
#[verifier::external_body]
pub(crate) fn bytes_to_string_lossy(b: &Vec<u8>) -> (r: String)
    ensures
        r@ == lossy_utf8(b@),
{
    String::from_utf8_lossy(b.as_slice()).into_owned()
}

/// Relies on gostd_time::LoadLocation: resolves a timezone name against the
/// IANA database on disk, so success cannot be promised statically; the names
/// "" and "UTC" are documented to yield UTC without a lookup.
#[verifier::external_body]
pub(crate) fn load_location(name: &str) -> (r: Option<gostd_time::Location>)
    ensures
        name@ == "UTC"@ || name@ == ""@ ==> r is Some,
{
    match gostd_time::LoadLocation(name) {
        Ok(loc) => Some(loc),
        Err(_) => None,
    }
}

/// Three consecutive characters somewhere in the sequence.
pub open spec fn has_triple(s: Seq<char>, a: char, b: char, c: char) -> bool {
    exists|i: int| #![trigger s[i]] 0 <= i && i + 3 <= s.len() && s[i] == a && s[i + 1] == b && s[i + 2] == c
}

/// Ten consecutive characters from `j` on, each `'0'` or `'9'`.
pub open spec fn ten_zero_nines_from(s: Seq<char>, j: int) -> bool {
    j + 10 <= s.len() && forall|k: int| #![trigger s[k]] j <= k < j + 10 ==> (s[k] == '0' || s[k] == '9')
}

/// Ten consecutive decimal digits from `j` on.
pub open spec fn ten_digits_from(s: Seq<char>, j: int) -> bool {
    j + 10 <= s.len() && forall|k: int| #![trigger s[k]] j <= k < j + 10 ==> ('0' <= s[k] && s[k] <= '9')
}

/// A layout the vendored parser handles without reading out of bounds: it
/// holds neither of the year-day chunks ("002", "__2"), whose digit scanner
/// reads one byte past a short digit run, nor a fractional-second chunk of
/// ten or more digits ('.' or ',' followed by ten '0'/'9' characters), whose
/// scale count underflows.
pub open spec fn layout_safe(s: Seq<char>) -> bool {
    &&& !has_triple(s, '0', '0', '2')
    &&& !has_triple(s, '_', '_', '2')
    &&& !(exists|i: int|
        #![trigger s[i]]
        0 <= i < s.len() && (s[i] == '.' || s[i] == ',') && ten_zero_nines_from(s, i + 1))
}

/// A value text whose fractional seconds the vendored parser can scale: no
/// '.' or ',' followed by ten or more decimal digits (the scale count
/// underflows there, too).
pub open spec fn value_safe(s: Seq<char>) -> bool {
    !(exists|i: int|
        #![trigger s[i]]
        0 <= i < s.len() && (s[i] == '.' || s[i] == ',') && ten_digits_from(s, i + 1))
}

/// Relies on gostd_time::ParseInLocation: parses `value` against the Go
/// reference layout `layout`, interpreting absent zone information in `loc`.
/// The outcome depends on the location's loaded zone data, so nothing is
/// assumed of it here; callers state what holds of every outcome.
///
/// The parser slices both strings at fixed byte offsets after checking byte
/// lengths only; on a multi-byte character under a numeric field such a slice
/// misses a character boundary and panics, so only ASCII is admitted. Its
/// year-day digit scanner reads one byte past a short digit run, and its
/// fractional-second scaling subtracts the digit count from ten in an
/// unsigned word, which panics or fails to return on a count above nine;
/// `layout_safe` and `value_safe` keep those paths unreachable. The caller
/// screens all of this and counts an excluded pairing as a failed attempt.
#[verifier::external_body]
pub(crate) fn parse_in_location(layout: &str, value: &str, loc: &gostd_time::Location) -> (r:
    Option<gostd_time::Time>)
    requires
        layout.is_ascii(),
        value.is_ascii(),
        layout_safe(layout@),
        value_safe(value@),
{
    match gostd_time::ParseInLocation(layout, value, loc) {
        Ok(t) => Some(t),
        Err(_) => None,
    }
}

/// Relies on gostd_time::Time::Unix: the instant as whole seconds since the
/// Unix epoch.
#[verifier::external_body]
pub(crate) fn time_unix(t: &gostd_time::Time) -> (r: i64) {
    t.Unix()
}

/// Relies on gostd_time::Time::Nanosecond: the nanosecond offset within the
/// second, documented to lie in [0, 999999999].
#[verifier::external_body]
pub(crate) fn time_nanosecond(t: &gostd_time::Time) -> (r: isize)
    ensures
        0 <= r < NANOS_PER_SEC as isize,
{
    t.Nanosecond()
}

} // verus!
