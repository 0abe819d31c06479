//! The clock and fresh identifiers. What these give depends on the moment
//! and on chance, so their contracts say only what holds of every result.
use vstd::prelude::*;

verus! {

/// `uuid::Uuid::new_v4()` written with `to_string()`: a random identifier
/// in the hyphenated form `xxxxxxxx-xxxx-xxxx-xxxx-xxxxxxxxxxxx`, 36
/// characters with hyphens at positions 8, 13, 18 and 23. Which identifier
/// comes out is left unsaid: it is random.
#[verifier::external_body]
pub fn new_id() -> (r: String)
    ensures
        r@.len() == 36,
        r@[8] == '-' && r@[13] == '-' && r@[18] == '-' && r@[23] == '-',
{
    uuid::Uuid::new_v4().to_string()
}

/// `chrono::Local::now().timestamp()`: the current time in whole seconds
/// since the Unix epoch. Nothing is said of its value: it is the time.
#[verifier::external_body]
pub fn now_timestamp() -> (r: i64) {
    chrono::Local::now().timestamp()
}

/// `chrono::Local::now().to_rfc3339()`: the current local date and time as
/// RFC 3339 text. Nothing is said of its value: it is the time.
#[verifier::external_body]
pub fn now_rfc3339() -> (r: String) {
    chrono::Local::now().to_rfc3339()
}

/// `chrono::Local::now().format("%Y-%m-%d")` written out: today's local
/// date. Nothing is said of its value: it is the date.
#[verifier::external_body]
pub fn today_stamp() -> (r: String) {
    chrono::Local::now().format("%Y-%m-%d").to_string()
}

} // verus!
