//! Validators for user-supplied arguments: numbers, booleans, durations
//! and timestamps, with the parsers behind them.

use vstd::prelude::*;

use crate::strings::{find_long_digit_run, has_long_digit_run, is_u32_literal, str_eq,
    strip_white, without_white, parse_u32_literal};

verus! {

/// What the duration grammar yields for a string: the parsed duration in
/// whole seconds, or nothing. A function of the characters alone.
pub uninterp spec fn duration_secs_of(s: Seq<char>) -> Option<u64>;

/// Bounded duration text: at most a hundred characters, and no number of
/// ten or more digits. The duration grammar reads digits across
/// whitespace as one number, so the digit runs that matter are those of
/// the text with its whitespace removed. Within the bound every number
/// is below one billion, every unit multiplies by less than 2^25, and a
/// fraction contributes less than one unit, so each of the fewer than a
/// hundred terms adds under 2^55 seconds — every sum the parser forms
/// stays below 2^62, far from the end of its 64-bit counter.
pub open spec fn duration_text_bounded(s: Seq<char>) -> bool {
    s.len() <= 100 && !has_long_digit_run(without_white(s))
}

/// Check the bound on duration text.
pub fn duration_text_ok(s: &str) -> (r: bool)
    ensures
        r == duration_text_bounded(s@),
{
    if s.unicode_len() > 100 {
        return false;
    }
    let stripped = strip_white(s);
    !find_long_digit_run(stripped.as_str())
}

/// Relies on humantime::parse_duration: deterministic in its input; the
/// result is converted to whole seconds. The parser faults if its
/// seconds counter lands exactly on its maximum while a nanosecond
/// carry is pending, which needs a sum at the very end of the 64-bit
/// range; the bound on the text keeps every sum far below it.
#[verifier::external_body]
pub(crate) fn parse_duration_secs(s: &str) -> (r: Option<u64>)
    requires
        duration_text_bounded(s@),
    ensures
        r == duration_secs_of(s@),
{
    humantime::parse_duration(s).ok().map(|d| d.as_secs())
}

/// What the RFC 3339 grammar yields for a string: the parsed instant as
/// seconds since the epoch, or nothing. A function of the characters
/// alone.
pub uninterp spec fn rfc3339_epoch_of(s: Seq<char>) -> Option<i64>;

/// Relies on chrono's DateTime::parse_from_rfc3339: deterministic in its
/// input — the offset is part of the text — and the parsed instant is
/// converted to seconds since the epoch.
#[verifier::external_body]
pub(crate) fn parse_rfc3339_epoch(s: &str) -> (r: Option<i64>)
    ensures
        r == rfc3339_epoch_of(s@),
{
    chrono::DateTime::parse_from_rfc3339(s).ok().map(|dt| dt.timestamp())
}

/// Relies on chrono's Utc::now: the present moment, of which nothing can
/// be promised. On a machine whose clock reads before 1970 the
/// underlying call aborts — an environment failure, not an input.
#[verifier::external_body]
pub fn now_epoch_seconds() -> i64 {
    chrono::Utc::now().timestamp()
}

/// Relies on chrono's Local::now and its RFC 3339 rendering: the present
/// local time, which depends on the clock and the machine's time zone,
/// so nothing is promised of it. As with the epoch read, a clock set
/// before 1970 aborts the underlying call.
#[verifier::external_body]
pub fn local_now_rfc3339() -> String {
    chrono::Local::now().to_rfc3339()
}

/// Validate an unsigned 32-bit number.
pub fn valid_u32(s: String) -> (r: Result<(), String>)
    ensures
        r is Ok <==> is_u32_literal(s@),
        r matches Err(m) ==> m@ == "invalid number"@,
{
    match parse_u32_literal(s.as_str()) {
        Some(_) => Ok(()),
        None => Err(String::from_str("invalid number")),
    }
}

/// Validate a duration such as `5s` or `3m5s`. Deliberately narrower
/// than the duration grammar alone: text over a hundred characters, or
/// holding a number of ten or more digits (digits separated only by
/// whitespace count as one number, as the grammar reads them), is
/// rejected outright. Such text names no duration any command could
/// use, and the bound keeps the parser's sums well inside its counters.
pub fn valid_duration(s: String) -> (r: Result<(), String>)
    ensures
        r is Ok <==> (duration_text_bounded(s@) && duration_secs_of(s@) is Some),
        r matches Err(m) ==> m@ == "invalid duration"@,
{
    if !duration_text_ok(s.as_str()) {
        return Err(String::from_str("invalid duration"));
    }
    match parse_duration_secs(s.as_str()) {
        Some(_) => Ok(()),
        None => Err(String::from_str("invalid duration")),
    }
}

/// Validate an RFC 3339 date such as `1996-12-19T16:39:57-08:00`.
pub fn valid_date(s: String) -> (r: Result<(), String>)
    ensures
        r is Ok <==> rfc3339_epoch_of(s@) is Some,
        r matches Err(m) ==> m@ == "invalid date"@,
{
    match parse_rfc3339_epoch(s.as_str()) {
        Some(_) => Ok(()),
        None => Err(String::from_str("invalid date")),
    }
}

/// Validate a boolean: exactly `true` or `false`.
pub fn valid_bool(s: String) -> (r: Result<(), String>)
    ensures
        r is Ok <==> (s@ == "true"@ || s@ == "false"@),
        r matches Err(m) ==> m@ == "invalid boolean"@,
{
    if str_eq(s.as_str(), "true") || str_eq(s.as_str(), "false") {
        Ok(())
    } else {
        Err(String::from_str("invalid boolean"))
    }
}

} // verus!
