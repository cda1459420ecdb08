//! Timestamp parsing for the connection times the share table reports.
//! The status tool prints dates in several shapes, so the tokens are
//! joined and each known format is tried in order; the first match wins.

use vstd::prelude::*;
use vstd::string::*;
use crate::text::join_spaces;
use crate::text::join_with_spaces;

verus! {

/// The Unix timestamp that the date-time library reads from `s` under
/// the strftime-style format `fmt`, or nothing when `s` does not match.
/// A fixed function of the two strings alone.
pub uninterp spec fn chrono_unix_of(s: Seq<char>, fmt: Seq<char>) -> Option<i64>;

/// Relies on chrono's `NaiveDateTime::parse_from_str` for the parse, and on
/// `NaiveDateTime::and_utc` with `DateTime::timestamp` to read the parsed
/// value as seconds since the Unix epoch; the outcome depends only on the
/// text and the format.
#[verifier::external_body]
fn chrono_parse_unix(s: &str, fmt: &str) -> (r: Option<i64>)
    ensures
        r == chrono_unix_of(s@, fmt@),
{
    match chrono::NaiveDateTime::parse_from_str(s, fmt) {
        Ok(dt) => Some(dt.and_utc().timestamp()),
        Err(_) => None,
    }
}

/// What the timestamp tokens of one row denote: the tokens joined with
/// single spaces, read under the first matching of the known formats —
/// weekday form with a blank- or zero-padded day, slashed date form,
/// then the weekday form with a trailing timezone name.
pub open spec fn spec_samba_time(parts: Seq<Seq<char>>) -> Option<i64> {
    let s = join_spaces(parts);
    if s.len() == 0 {
        None
    } else if chrono_unix_of(s, "%a %b %e %H:%M:%S %Y"@) is Some {
        chrono_unix_of(s, "%a %b %e %H:%M:%S %Y"@)
    } else if chrono_unix_of(s, "%a %b %d %H:%M:%S %Y"@) is Some {
        chrono_unix_of(s, "%a %b %d %H:%M:%S %Y"@)
    } else if chrono_unix_of(s, "%Y/%m/%d %H:%M:%S"@) is Some {
        chrono_unix_of(s, "%Y/%m/%d %H:%M:%S"@)
    } else {
        chrono_unix_of(s, "%a %b %e %H:%M:%S %Y %Z"@)
    }
}

/// Reads a row's date/time tokens as a Unix timestamp, or nothing when
/// no known format matches or the tokens are empty.
pub fn parse_samba_time(parts: &Vec<String>) -> (r: Option<i64>)
    ensures
        r == spec_samba_time(parts@.map_values(|p: String| p@)),
{
    let joined: String = join_with_spaces(parts);
    if joined.as_str().unicode_len() == 0 {
        return None;
    }
    let r1: Option<i64> = chrono_parse_unix(joined.as_str(), "%a %b %e %H:%M:%S %Y");
    if r1.is_some() {
        return r1;
    }
    let r2: Option<i64> = chrono_parse_unix(joined.as_str(), "%a %b %d %H:%M:%S %Y");
    if r2.is_some() {
        return r2;
    }
    let r3: Option<i64> = chrono_parse_unix(joined.as_str(), "%Y/%m/%d %H:%M:%S");
    if r3.is_some() {
        return r3;
    }
    chrono_parse_unix(joined.as_str(), "%a %b %e %H:%M:%S %Y %Z")
}

} // verus!
