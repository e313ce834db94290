use vstd::prelude::*;

verus! {

/// Relies on uuid's `Uuid::now_v7` and `Uuid::as_u128`: a fresh time-ordered
/// identifier, as an integer. Nothing is promised of its value.
#[verifier::external_body]
pub(crate) fn fresh_id() -> (r: u128) {
    uuid::Uuid::now_v7().as_u128()
}

/// Relies on chrono's `Utc::now` and `DateTime::timestamp_millis`: the current
/// instant in milliseconds since the Unix epoch. Nothing is promised of its value.
#[verifier::external_body]
pub(crate) fn now_millis() -> (r: i64) {
    chrono::Utc::now().timestamp_millis()
}

} // verus!
