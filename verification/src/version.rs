//! The number under which a build runs once it is deployed.
//!
//! The service manifest holds the version of the last deployment, and a
//! deployment raises it by one after the build. A build that names its own
//! version therefore reads the manifest's number and adds one.

use vstd::prelude::*;

use crate::decimal::{parse_i32, parsed_i32};

verus! {

/// The version a build runs as, from the version field of the manifest: one
/// more than the number in the field, where a field that writes no number
/// counts as zero. There is none after the largest number of the type.
pub open spec fn deployed(field: Seq<char>) -> Option<i32> {
    let current = match parsed_i32(field) {
        Some(number) => number,
        None => 0i32,
    };
    if current < i32::MAX {
        Some((current + 1) as i32)
    } else {
        None
    }
}

/// The version a build runs as, from the version field of the manifest.
pub fn deployed_version(field: &str) -> (out: Option<i32>)
    ensures
        out == deployed(field@),
{
    let current = match parse_i32(field) {
        Some(number) => number,
        None => 0,
    };
    if current < i32::MAX {
        Some(current + 1)
    } else {
        None
    }
}

} // verus!
