//! Row identifiers and timestamps of the inventory.

use vstd::prelude::*;

verus! {

/// `time::error::Format`, the failure of formatting a date.
#[verifier::external_type_specification]
#[verifier::external_body]
pub struct ExTimeFormatError(time::error::Format);

/// The current time could not be written as an RFC 3339 timestamp.
#[derive(Clone, Copy, Debug, PartialEq, Eq)]
pub struct TimestampError;

/// A lower-case hexadecimal digit.
pub open spec fn is_lower_hex(c: char) -> bool {
    ('0' <= c && c <= '9') || ('a' <= c && c <= 'f')
}

/// The text of a random (version 4) UUID in hyphenated form:
/// `xxxxxxxx-xxxx-4xxx-xxxx-xxxxxxxxxxxx`, lower-case hex digits.
pub open spec fn is_uuid_v4_text(s: Seq<char>) -> bool {
    &&& s.len() == 36
    &&& s[8] == '-' && s[13] == '-' && s[18] == '-' && s[23] == '-'
    &&& s[14] == '4'
    &&& forall|i: int|
        0 <= i < 36 && i != 8 && i != 13 && i != 18 && i != 23 ==> is_lower_hex(#[trigger] s[i])
}

/// An ASCII digit.
pub open spec fn is_digit(c: char) -> bool {
    '0' <= c && c <= '9'
}

/// The shape of an RFC 3339 UTC timestamp: `YYYY-MM-DDTHH:MM:SS`, an optional
/// fraction, then `Z`.
pub open spec fn is_rfc3339_utc(s: Seq<char>) -> bool {
    &&& s.len() >= 20
    &&& is_digit(s[0]) && is_digit(s[1]) && is_digit(s[2]) && is_digit(s[3])
    &&& s[4] == '-' && is_digit(s[5]) && is_digit(s[6])
    &&& s[7] == '-' && is_digit(s[8]) && is_digit(s[9])
    &&& s[10] == 'T' && is_digit(s[11]) && is_digit(s[12])
    &&& s[13] == ':' && is_digit(s[14]) && is_digit(s[15])
    &&& s[16] == ':' && is_digit(s[17]) && is_digit(s[18])
    &&& s[s.len() - 1] == 'Z'
}

/// A fresh random identifier for a new row: `uuid::Uuid::new_v4`, written by
/// its `Display` (hyphenated, lower case). The value is random; only its shape
/// is stated.
#[verifier::external_body]
pub fn new_id() -> (r: String)
    ensures
        is_uuid_v4_text(r@),
{
    uuid::Uuid::new_v4().to_string()
}

/// Calls `time::OffsetDateTime::now_utc().format(&Rfc3339)`: the current UTC
/// time, whose text has the shape [`is_rfc3339_utc`] (a UTC offset is written
/// `Z`). The formatter returns an error for a year outside `0..10000`; a
/// system clock outside the range `OffsetDateTime` can hold makes `now_utc`
/// panic, a fault of the machine rather than of any argument. The value
/// depends on the clock; only its shape is stated.
#[verifier::external_body]
fn format_now_utc() -> (r: Result<String, time::error::Format>)
    ensures
        r matches Ok(s) ==> is_rfc3339_utc(s@),
{
    time::OffsetDateTime::now_utc().format(&time::format_description::well_known::Rfc3339)
}

/// The timestamp a formatting of the current time gives: its text when it
/// succeeded, [`TimestampError`] when it failed.
pub fn timestamp_from(formatted: Result<String, time::error::Format>) -> (r: Result<
    String,
    TimestampError,
>)
    ensures
        match formatted {
            Ok(s) => r == Ok::<String, TimestampError>(s),
            Err(_) => r == Err::<String, TimestampError>(TimestampError),
        },
{
    match formatted {
        Ok(s) => Ok(s),
        Err(_) => Err(TimestampError),
    }
}

/// The current time as an RFC 3339 UTC timestamp, the format of every
/// timestamp column. Whether formatting succeeds depends on the clock (a year
/// outside `0..10000` cannot be written); what comes back is handed to
/// [`timestamp_from`].
pub fn now_rfc3339() -> (r: Result<String, TimestampError>)
    ensures
        r matches Ok(s) ==> is_rfc3339_utc(s@),
{
    timestamp_from(format_now_utc())
}

} // verus!
