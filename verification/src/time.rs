//! The system clock. Timestamps are carried as opaque values: the library
//! stores and hands them back, and never looks inside one.

use vstd::prelude::*;

verus! {

/// `std::time::SystemTime`, declared so that entries and metadata can hold
/// timestamps. Nothing is assumed of its values.
#[verifier::external_type_specification]
#[verifier::external_body]
pub struct ExSystemTime(std::time::SystemTime);

/// Reads the clock through `std::time::SystemTime::now`. Two readings may
/// differ, so nothing is claimed of the value returned.
#[verifier::external_body]
pub(crate) fn now() -> std::time::SystemTime {
    std::time::SystemTime::now()
}

} // verus!
