//! Time, timestamps and fresh identifiers, from `chrono` and `uuid`.
use vstd::prelude::*;

verus! {

/// The milliseconds since the Unix epoch that an RFC 3339 text denotes, or
/// `None` when `chrono` does not accept the text.
pub uninterp spec fn rfc3339_epoch_ms(s: Seq<char>) -> Option<i64>;

/// `chrono::DateTime::parse_from_rfc3339(s)` followed by `timestamp_millis()`.
/// Its contract names the result: it depends on the text alone. Which texts
/// are accepted and what they denote is chrono's and is not written out here.
#[verifier::external_body]
pub(crate) fn rfc3339_to_epoch_ms(s: &str) -> (r: Option<i64>)
    ensures
        r == rfc3339_epoch_ms(s@),
{
    match chrono::DateTime::parse_from_rfc3339(s) {
        Ok(dt) => Some(dt.timestamp_millis()),
        Err(_) => None,
    }
}

/// `chrono::Utc::now().timestamp_millis()`: the current time in milliseconds
/// since the Unix epoch. Nothing is promised of the value: it is the clock's.
#[verifier::external_body]
pub(crate) fn now_epoch_ms() -> (r: i64) {
    chrono::Utc::now().timestamp_millis()
}

/// A lower-case hexadecimal digit.
pub open spec fn is_lower_hex(c: char) -> bool {
    ('0' <= c && c <= '9') || ('a' <= c && c <= 'f')
}

/// The hyphenated lower-case text of a version 4 UUID:
/// `xxxxxxxx-xxxx-4xxx-xxxx-xxxxxxxxxxxx`.
pub open spec fn hyphenated_v4(s: Seq<char>) -> bool {
    &&& s.len() == 36
    &&& forall|i: int|
        0 <= i < 36 ==> if i == 8 || i == 13 || i == 18 || i == 23 {
            #[trigger] s[i] == '-'
        } else {
            is_lower_hex(s[i])
        }
    &&& s[14] == '4'
}

/// `uuid::Uuid::new_v4().to_string()`: a fresh random identifier, shown (by
/// uuid's `Display`, which is its `LowerHex`) in the hyphenated lower-case
/// form, with the version digit 4. Which identifier comes out is chance.
#[verifier::external_body]
pub(crate) fn new_uuid_v4() -> (r: String)
    ensures
        hyphenated_v4(r@),
{
    uuid::Uuid::new_v4().to_string()
}

} // verus!
