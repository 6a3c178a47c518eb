//! The one-line status shown to the caller:
//! `Power <ON|OFF>, last change: <timestamp|(none)>`. The timestamp is the
//! local date and time followed by the zone written as its offset from UTC
//! (`+01:00`): chrono knows no abbreviation for such a zone.

use vstd::prelude::*;
use crate::reply::PowerStatus;
use std::fmt::Write;

verus! {

/// How a time of change is written: date, time of day, then the zone. chrono
/// writes the zone of a fixed offset as that offset, `+HH:MM` (`+HH:MM:SS`
/// where the offset has seconds), having no abbreviation for it.
pub const CLOCK_PATTERN: &'static str = "%Y-%m-%d %H:%M:%S %Z";

/// The first instant chrono has a date for, `-262143-01-01 00:00:00` UTC.
pub const EARLIEST_DATED: i64 = -8_334_601_228_800;

/// The last instant chrono has a date for, `262142-12-31 23:59:59` UTC.
pub const LATEST_DATED: i64 = 8_210_266_876_799;

/// chrono has a date for the Unix time `epoch`.
pub open spec fn has_date(epoch: int) -> bool {
    EARLIEST_DATED <= epoch <= LATEST_DATED
}

/// What chrono writes for Unix time `epoch` seen at `offset` seconds east of
/// UTC, formatted by the strftime-like `pattern`; `None` where chrono has no
/// date for `epoch` or cannot format with `pattern`.
pub uninterp spec fn clock_text(epoch: int, offset: int, pattern: Seq<char>) -> Option<Seq<char>>;

/// Relies on chrono: `DateTime::from_timestamp(epoch, 0)`, which has a date
/// exactly from `DateTime::MIN_UTC` to `DateTime::MAX_UTC`, shown at
/// `FixedOffset::east_opt(offset)` and written by `format(pattern)`, whose
/// `%Z` of a fixed offset is `+HH:MM`, or `+HH:MM:SS` where the offset has
/// seconds; a local time that the offset moves past those bounds is still
/// written. A pattern that chrono cannot format with gives `None`. The text
/// depends on the three arguments alone.
#[verifier::external_body]
fn clock_at(epoch: i64, offset: i32, pattern: &str) -> (r: Option<String>)
    requires
        -86400 < offset < 86400,
    ensures
        match r {
            Some(s) => clock_text(epoch as int, offset as int, pattern@) == Some(s@),
            None => clock_text(epoch as int, offset as int, pattern@) is None,
        },
        !has_date(epoch as int) ==> r is None,
        pattern@ == CLOCK_PATTERN@ && has_date(epoch as int) ==> r is Some,
{
    match (chrono::FixedOffset::east_opt(offset), chrono::DateTime::from_timestamp(epoch, 0)) {
        (Some(zone), Some(utc)) => {
            let mut out = String::new();
            match write!(out, "{}", utc.with_timezone(&zone).format(pattern)) {
                Ok(()) => Some(out),
                Err(_) => None,
            }
        },
        _ => None,
    }
}

/// Relies on chrono's `Local` time zone (`TZ`, else the system's zone data,
/// else UTC where neither can be read): its offset from UTC in seconds at the
/// instant `epoch`, `None` exactly where `DateTime::from_timestamp` has no
/// date for `epoch`. A `FixedOffset` lies strictly within a day.
#[verifier::external_body]
fn local_offset_at(epoch: i64) -> (r: Option<i32>)
    ensures
        match r {
            Some(o) => -86400 < o < 86400,
            None => true,
        },
        r is Some <==> has_date(epoch as int),
{
    chrono::DateTime::from_timestamp(epoch, 0).map(
        |utc| utc.with_timezone(&chrono::Local).offset().local_minus_utc(),
    )
}

/// Marks a status that has no recorded change, or one with no date.
pub const TS_NONE: &'static str = "(none)";

/// When the state last changed, seen at `offset`.
pub open spec fn change_text(last: Option<i64>, offset: int) -> Seq<char> {
    match last {
        None => TS_NONE@,
        Some(t) => match clock_text(t as int, offset, CLOCK_PATTERN@) {
            Some(s) => s,
            None => TS_NONE@,
        },
    }
}

/// The line for a state and the text of its last change.
pub open spec fn line_of(on: bool, change: Seq<char>) -> Seq<char> {
    "Power "@ + (if on {
        "ON"@
    } else {
        "OFF"@
    }) + ", last change: "@ + change
}

/// The line for `st` with times shown at `offset` seconds east of UTC.
pub open spec fn status_line_spec(st: PowerStatus, offset: int) -> Seq<char> {
    line_of(st.on, change_text(st.last_change, offset))
}

fn line_with(on: bool, change: &str) -> (r: String)
    ensures
        r@ == line_of(on, change@),
{
    let mut out = String::from_str("Power ");
    out.append(
        if on {
            "ON"
        } else {
            "OFF"
        },
    );
    out.append(", last change: ");
    out.append(change);
    out
}

/// The status line of `st`, times shown at `offset` seconds east of UTC.
pub fn status_line(st: &PowerStatus, offset: i32) -> (r: String)
    requires
        -86400 < offset < 86400,
    ensures
        r@ == status_line_spec(*st, offset as int),
        st.last_change matches Some(t) ==> (has_date(t as int) <==> clock_text(
            t as int,
            offset as int,
            CLOCK_PATTERN@,
        ) is Some),
{
    match st.last_change {
        None => line_with(st.on, TS_NONE),
        Some(t) => match clock_at(t, offset, CLOCK_PATTERN) {
            Some(s) => line_with(st.on, s.as_str()),
            None => line_with(st.on, TS_NONE),
        },
    }
}

/// The status line of `st`, times shown in the local time zone: the line at
/// the zone's offset at the time of the change where chrono has a date for
/// it, else the line that has no change to show.
pub fn describe(st: &PowerStatus) -> (r: String)
    ensures
        match st.last_change {
            None => r@ == line_of(st.on, TS_NONE@),
            Some(t) => if has_date(t as int) {
                exists|o: int|
                    -86400 < o < 86400 && (#[trigger] clock_text(t as int, o, CLOCK_PATTERN@) matches Some(
                        s,
                    ) && r@ == line_of(st.on, s))
            } else {
                r@ == line_of(st.on, TS_NONE@)
            },
        },
{
    match st.last_change {
        None => status_line(st, 0),
        Some(t) => match local_offset_at(t) {
            Some(o) => {
                let r = status_line(st, o);
                proof {
                    let c = clock_text(t as int, o as int, CLOCK_PATTERN@);
                    assert(c is Some);
                    assert(r@ == line_of(st.on, c->0));
                }
                r
            },
            None => line_with(st.on, TS_NONE),
        },
    }
}

} // verus!
