use vstd::prelude::*;

verus! {

/// serde_json's error type, carried in error variants.
#[verifier::external_type_specification]
#[verifier::external_body]
pub struct ExJsonError(serde_json::Error);

/// std's I/O error type, carried in error variants.
#[verifier::external_type_specification]
#[verifier::external_body]
pub struct ExIoError(std::io::Error);

} // verus!
