//! Calendar dates of Unix timestamps.

use vstd::prelude::*;

verus! {

/// The error of the `time` crate. Nothing of its inside is known here.
#[verifier::external_type_specification]
#[verifier::external_body]
pub struct ExTimeError(time::Error);

/// The text that the `time` crate writes for the moment `timestamp` seconds
/// after the Unix epoch, in UTC, under a format description; `None` where
/// it reports an error.
pub uninterp spec fn formatted_unix_time(timestamp: i64, description: Seq<char>) -> Option<Seq<char>>;

/// Calls `OffsetDateTime::format` on the moment that
/// `OffsetDateTime::from_unix_timestamp` gives for `timestamp`, with the
/// items that `format_description::parse_borrowed::<1>` reads out of
/// `description`. Nothing is claimed of the result but that it is the one
/// [`formatted_unix_time`] names for these arguments.
#[verifier::external_body]
fn format_unix_time(timestamp: i64, description: &str) -> (text: Result<String, time::Error>)
    ensures
        match text {
            Ok(text) => formatted_unix_time(timestamp, description@) == Some(text@),
            Err(_) => formatted_unix_time(timestamp, description@) is None,
        },
{
    let items = time::format_description::parse_borrowed::<1>(description)?;
    let moment = time::OffsetDateTime::from_unix_timestamp(timestamp)?;
    Ok(moment.format(&items)?)
}

/// The format of an issue date: year, month and day, joined by hyphens.
pub open spec fn issue_date_format() -> Seq<char> {
    "[year]-[month]-[day]"@
}

/// The issue date of a record released at `timestamp`, where the calendar
/// reaches that far.
pub open spec fn issue_date_text(timestamp: i64) -> Option<Seq<char>> {
    formatted_unix_time(timestamp, issue_date_format())
}

/// The UTC calendar date of the moment `timestamp` seconds after the Unix
/// epoch, written as year, month and day.
pub fn issue_date(timestamp: i64) -> (date: Option<String>)
    ensures
        match date {
            Some(date) => issue_date_text(timestamp) == Some(date@),
            None => issue_date_text(timestamp) is None,
        },
{
    match format_unix_time(timestamp, "[year]-[month]-[day]") {
        Ok(date) => Some(date),
        Err(_) => None,
    }
}

} // verus!
