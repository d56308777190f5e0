//! Types of other crates that the library carries through without reading
//! them.
use vstd::prelude::*;

verus! {

/// Calendar dates.
#[verifier::external_type_specification]
#[verifier::external_body]
pub struct ExNaiveDate(chrono::NaiveDate);

} // verus!
