//! The date normalizer.
//!
//! A date field in a QIF file has no fixed shape; the caller supplies a
//! strftime-style pattern describing the field order of the source file.
//! chrono reads the text against that pattern; the result is rendered in
//! canonical `YYYY-MM-DD` form.

use crate::errors::QifParsingError;
use vstd::prelude::*;
use vstd::string::StringExecFns;

verus! {

/// What chrono makes of a date text under a format pattern: the parsed day
/// rendered as `%Y-%m-%d` on success, or the parse error's description on
/// failure.
pub uninterp spec fn chrono_norm(date: Seq<char>, fmt: Seq<char>) -> Result<Seq<char>, Seq<char>>;

/// Relies on chrono's `NaiveDate::parse_from_str` to read `date` against the
/// strftime pattern `fmt`, on `NaiveDate::format("%Y-%m-%d")` to render the
/// parsed day, and on `ParseError`'s display text for the failure message;
/// all three depend on the two arguments alone.
#[verifier::external_body]
fn chrono_normalize(date: &str, fmt: &str) -> (r: Result<String, String>)
    ensures
        r is Ok <==> chrono_norm(date@, fmt@) is Ok,
        r matches Ok(d) ==> d@ == chrono_norm(date@, fmt@)->Ok_0,
        r matches Err(e) ==> e@ == chrono_norm(date@, fmt@)->Err_0,
{
    match chrono::NaiveDate::parse_from_str(date, fmt) {
        Ok(d) => Ok(d.format("%Y-%m-%d").to_string()),
        Err(e) => Err(e.to_string()),
    }
}

/// The message carried by the error that `parse_date` returns: the cause
/// reported by chrono followed by the original date text.
pub open spec fn date_err_msg(date: Seq<char>, fmt: Seq<char>) -> Seq<char> {
    "Error when parsing date: "@ + chrono_norm(date, fmt)->Err_0 + " "@ + date
}

/// Reads `date` against the field-order pattern `date_format` and returns
/// the canonical `YYYY-MM-DD` form, or an error naming the cause and the
/// offending text.
pub fn parse_date(date: &str, date_format: &str) -> (r: Result<String, QifParsingError>)
    ensures
        r is Ok <==> chrono_norm(date@, date_format@) is Ok,
        r matches Ok(d) ==> d@ == chrono_norm(date@, date_format@)->Ok_0,
        r matches Err(e) ==> e.details@ == date_err_msg(date@, date_format@),
{
    match chrono_normalize(date, date_format) {
        Ok(d) => Ok(d),
        Err(cause) => {
            let mut m = String::from_str("Error when parsing date: ");
            m.append(cause.as_str());
            m.append(" ");
            m.append(date);
            Err(QifParsingError::new(m.as_str()))
        },
    }
}

} // verus!
