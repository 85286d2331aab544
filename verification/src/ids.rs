use vstd::prelude::*;

verus! {

/// Relies on uuid's `Uuid::new_v4` and its `Display` implementation: a fresh
/// random version-4 UUID rendered in the hyphenated form, which is always 36
/// characters long. The value is random, so nothing more is promised of it.
#[verifier::external_body]
pub fn new_uuid_string() -> (r: String)
    ensures
        r@.len() == 36,
{
    uuid::Uuid::new_v4().to_string()
}

} // verus!
