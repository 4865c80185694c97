//! Outside types that the library's errors carry through.
use vstd::prelude::*;

verus! {

/// `std::io::Error`, carried by the errors of reading and writing files.
#[verifier::external_type_specification]
#[verifier::external_body]
pub struct ExIoError(std::io::Error);

/// `serde_json::Error`, carried by the errors of JSON decoding and encoding.
#[verifier::external_type_specification]
#[verifier::external_body]
pub struct ExJsonError(serde_json::Error);

/// `serde_json::Value`, the document tree that `serde_json` decodes.
#[verifier::external_type_specification]
#[verifier::external_body]
pub struct ExJsonTree(serde_json::Value);

}
