//! Declarations of the outside types that the library carries through.

use reqwest::multipart::Part as MultipartPart;
use vstd::prelude::*;

verus! {

/// A naive civil datetime, carried opaquely in task payloads.
#[verifier::external_type_specification]
#[verifier::external_body]
pub struct ExCivilDateTime(jiff::civil::DateTime);

/// A timezone-aware instant, carried opaquely in task payloads.
#[verifier::external_type_specification]
#[verifier::external_body]
pub struct ExTimestamp(jiff::Timestamp);

/// A JSON value, carried opaquely as the `detail` of a service error.
#[verifier::external_type_specification]
#[verifier::external_body]
pub struct ExJsonValue(serde_json::Value);

/// A parsed URL, carried inside the library's `ServiceUrl`.
#[verifier::external_type_specification]
#[verifier::external_body]
pub struct ExUrl(url::Url);

/// `Duration` is `Copy`: its clone is the value itself.
pub assume_specification[ <core::time::Duration as Clone>::clone ](d: &core::time::Duration) -> (r: core::time::Duration)
    ensures
        r == *d,
;

/// `url::Url` derives `Clone`: a clone holds the same fields as the value cloned.
pub assume_specification[ <url::Url as Clone>::clone ](u: &url::Url) -> (r: url::Url)
    ensures
        r == *u,
;

/// A `multipart/form-data` body under construction.
#[verifier::external_type_specification]
#[verifier::external_body]
pub struct ExForm(reqwest::multipart::Form);

/// One part of a `multipart/form-data` body.
#[verifier::external_type_specification]
#[verifier::external_body]
pub struct ExPart(MultipartPart);

} // verus!
