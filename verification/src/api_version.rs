//! What this service says of its own version.

use crate::env::EnvironmentValues;
use chrono::Datelike;
use vstd::prelude::*;

verus! {

/// The version that is served.
pub const VERSION: &'static str = "0.1.0";

/// A day of the calendar.
#[derive(Clone, Copy, Debug, PartialEq, Eq, Structural)]
pub struct ApiDate {
    pub year: i32,
    pub month: u32,
    pub day: u32,
}

/// The version, the stage that the process runs in, and the day of the version.
#[derive(Debug)]
pub struct ApiVersion {
    pub version: &'static str,
    pub stage: String,
    pub date: ApiDate,
}

/// The year, the month and the day that a text of the form `2020-03-31` stands for;
/// `None` where the text stands for no day of the calendar.
pub uninterp spec fn date_of_text(text: Seq<char>) -> Option<(i32, u32, u32)>;

/// Reads a day from a text.
///
/// Trusted: `NaiveDate::parse_from_str` of `chrono` with the format `%Y-%m-%d`, a
/// function of the text alone, and `year`, `month` and `day` of what it returns. The
/// result is what `date_of_text` names.
#[verifier::external_body]
fn parse_date(text: &str) -> (r: Option<(i32, u32, u32)>)
    ensures
        r == date_of_text(text@),
{
    match chrono::NaiveDate::parse_from_str(text, "%Y-%m-%d") {
        Ok(date) => Some((date.year(), date.month(), date.day())),
        Err(_) => None,
    }
}

/// The version that the settings describe; nothing where their date is no day of the
/// calendar.
pub fn api_version(env: &EnvironmentValues) -> (r: Option<ApiVersion>)
    ensures
        match date_of_text(env.api_version_date@) {
            Some((year, month, day)) => {
                &&& r matches Some(v)
                &&& v.version@ == VERSION@
                &&& v.stage@ == env.rust_env@
                &&& v.date == (ApiDate { year, month, day })
            },
            None => r is None,
        },
{
    match parse_date(env.api_version_date.as_str()) {
        Some((year, month, day)) => Some(
            ApiVersion { version: VERSION, stage: env.rust_env.clone(), date: ApiDate { year, month, day } },
        ),
        None => None,
    }
}

} // verus!
