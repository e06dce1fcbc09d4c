//! Calls into outside crates, each behind a trusted item whose contract
//! states what the crate's source shows.

use vstd::prelude::*;
use std::str::FromStr;
use chrono::Datelike;

verus! {

/// The error type of the `semver` crate, carried through unopened.
#[verifier::external_type_specification]
#[verifier::external_body]
pub struct ExSemverError(semver::Error);

/// What `semver::Comparator::from_str` reads from a text, projected to the
/// major, minor and patch numbers; `None` when it refuses the text.
pub uninterp spec fn semver_comparator(text: Seq<char>) -> Option<(u64, Option<u64>, Option<u64>)>;

/// A character allowed in a pre-release identifier: an ASCII letter or
/// digit, or `-`.
pub open spec fn prerelease_char(c: char) -> bool {
    ('A' <= c && c <= 'Z') || ('a' <= c && c <= 'z') || ('0' <= c && c <= '9') || c == '-'
}

/// The number of characters before the first `.` (all of them if none).
pub open spec fn segment_len(t: Seq<char>) -> nat
    decreases t.len(),
{
    if t.len() == 0 || t[0] == '.' { 0 } else { 1 + segment_len(t.drop_first()) }
}

/// A valid dot-separated segment of a pre-release: not empty, of allowed
/// characters only, and, when it is a number of more than one digit,
/// without a leading zero.
pub open spec fn prerelease_segment_ok(seg: Seq<char>) -> bool {
    &&& seg.len() > 0
    &&& forall|i: int| 0 <= i < seg.len() ==> prerelease_char(#[trigger] seg[i])
    &&& !(seg.len() > 1 && seg[0] == '0' && forall|i: int| 0 <= i < seg.len() ==> '0' <= #[trigger] seg[i] && seg[i] <= '9')
}

/// Whether every dot-separated segment of `t` is valid.
pub open spec fn prerelease_segments_ok(t: Seq<char>) -> bool
    decreases t.len(),
{
    let k = segment_len(t);
    prerelease_segment_ok(t.take(k as int))
        && (k >= t.len() || prerelease_segments_ok(t.skip(k as int + 1)))
}

/// What `semver::Prerelease::new` accepts: the empty text, or
/// dot-separated identifiers of ASCII letters, digits and `-`, none empty,
/// and the numeric ones without leading zeroes.
pub open spec fn semver_prerelease_ok(text: Seq<char>) -> bool {
    text.len() == 0 || prerelease_segments_ok(text)
}

/// Calls `semver::Comparator::from_str` and keeps the major, minor and
/// patch numbers of the comparator it reads. Trusted: the result is the
/// named reading of the text (`semver_comparator`); nothing more is stated.
#[verifier::external_body]
pub(crate) fn comparator_numbers(text: &str) -> (r: Result<(u64, Option<u64>, Option<u64>), semver::Error>)
    ensures
        r is Ok <==> semver_comparator(text@) is Some,
        r matches Ok(v) ==> semver_comparator(text@) == Some(v),
{
    match semver::Comparator::from_str(text) {
        Ok(c) => Ok((c.major, c.minor, c.patch)),
        Err(e) => Err(e),
    }
}

/// Calls `semver::Prerelease::new` and returns the identifier's text.
/// Trusted: it succeeds exactly on the texts of [`semver_prerelease_ok`],
/// as the crate's parser reads them, and keeps the whole accepted text as
/// the identifier.
#[verifier::external_body]
pub(crate) fn prerelease_text(text: &str) -> (r: Result<String, semver::Error>)
    ensures
        r is Ok <==> semver_prerelease_ok(text@),
        r matches Ok(p) ==> p@ == text@,
{
    match semver::Prerelease::new(text) {
        Ok(p) => Ok(p.as_str().to_owned()),
        Err(e) => Err(e),
    }
}


/// The day number (January 1 of year 1 being day 1) of the date that
/// `chrono` reads from `text` in the form `fmt`: two chrono calls,
/// `NaiveDate::parse_from_str` and then `Datelike::num_days_from_ce` on the
/// date read; `None` when the reading refuses the text.
pub uninterp spec fn chrono_day_from_text(text: Seq<char>, fmt: Seq<char>) -> Option<i32>;

/// The text that `chrono` writes in the form `fmt` for the date of a day
/// number: two chrono calls, `NaiveDate::from_num_days_from_ce_opt` and
/// then `format(..)` written out with `to_string`; `None` when the first
/// finds the day out of its range.
pub uninterp spec fn chrono_day_text(day: i32, fmt: Seq<char>) -> Option<Seq<char>>;

/// Calls `chrono::NaiveDate::parse_from_str` with the form `fmt` and takes
/// the day number of the date read. Trusted: the result is the named
/// reading (`chrono_day_from_text`); nothing more is stated.
#[verifier::external_body]
pub(crate) fn parse_day(text: &str, fmt: &str) -> (r: Option<i32>)
    ensures
        r == chrono_day_from_text(text@, fmt@),
{
    match chrono::NaiveDate::parse_from_str(text, fmt) {
        Ok(d) => Some(d.num_days_from_ce()),
        Err(_) => None,
    }
}

/// Calls `chrono::NaiveDate::from_num_days_from_ce_opt` and writes the date
/// in the form `fmt`. Writing out panics on a form that chrono cannot
/// write, so the form is the one for manifest dates, which it can.
/// Trusted: the result is the named text (`chrono_day_text`); nothing more
/// is stated.
#[verifier::external_body]
pub(crate) fn day_to_text(day: i32, fmt: &str) -> (r: Option<String>)
    requires
        fmt@ == "%Y-%m-%d"@,
    ensures
        r is Some <==> chrono_day_text(day, fmt@) is Some,
        r matches Some(s) ==> chrono_day_text(day, fmt@) == Some(s@),
{
    match chrono::NaiveDate::from_num_days_from_ce_opt(day) {
        Some(d) => Some(d.format(fmt).to_string()),
        None => None,
    }
}

} // verus!
