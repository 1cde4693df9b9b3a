//! Generation of unique record identifiers.

use vstd::prelude::*;

verus! {

/// Relies on `uuid::Uuid::new_v4` and its `Display` rendering: a fresh
/// random version-4 UUID in hyphenated form, which is 36 characters long.
/// Nothing is assumed about which string comes back beyond its length.
/// The generator aborts the process if the operating system's randomness
/// source fails, a condition no input causes.
#[verifier::external_body]
pub(crate) fn new_uuid_string() -> (r: String)
    ensures
        r@.len() == 36,
{
    uuid::Uuid::new_v4().to_string()
}

} // verus!
