use vstd::prelude::*;

use crate::error::BrokerError;
use crate::text::owned;

verus! {

/// The `YYYY-MM-DDTHH:MM:SSZ` text of the UTC instant `seconds` after the
/// Unix epoch, or `None` where that instant is out of the representable range.
pub uninterp spec fn utc_timestamp_text(seconds: int) -> Option<Seq<char>>;

/// Relies on chrono's `DateTime::from_timestamp` (`None` out of range) and on
/// its `format` with the pattern `%Y-%m-%dT%H:%M:%SZ`; the text depends on the
/// number of seconds alone.
#[verifier::external_body]
fn format_utc(seconds: i64) -> (r: Option<String>)
    ensures
        r matches Some(s) ==> utc_timestamp_text(seconds as int) == Some(s@),
        r is None ==> utc_timestamp_text(seconds as int) is None,
{
    match chrono::DateTime::from_timestamp(seconds, 0) {
        Some(t) => Some(t.format("%Y-%m-%dT%H:%M:%SZ").to_string()),
        None => None,
    }
}

/// The issuance timestamp text of a credential issued `seconds` after the
/// Unix epoch; a backend error where the instant cannot be represented.
pub fn issued_at_text(seconds: i64) -> (r: Result<String, BrokerError>)
    ensures
        r is Ok <==> utc_timestamp_text(seconds as int) is Some,
        r matches Ok(s) ==> utc_timestamp_text(seconds as int) == Some(s@),
        r is Err ==> r->Err_0 is BackendError,
{
    match format_utc(seconds) {
        Some(s) => Ok(s),
        None => Err(BrokerError::BackendError(owned("wall clock time out of range"))),
    }
}

} // verus!
