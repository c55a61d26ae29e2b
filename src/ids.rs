//! Random identifiers through the `uuid` crate.

use vstd::prelude::*;

use uuid::Uuid;

verus! {

#[verifier::external_type_specification]
#[verifier::external_body]
pub struct ExUuid(Uuid);

/// Relies on `uuid::Uuid::new_v4`: a random version-4 identifier from the
/// operating system's generator. Nothing is known of its value. It panics
/// where that generator fails, which no argument can rule out.
pub assume_specification[ Uuid::new_v4 ]() -> Uuid;

/// Relies on `Display` for `uuid::Uuid`: the lower-case hyphenated form,
/// 36 characters.
#[verifier::external_body]
fn hyphenated(id: &Uuid) -> (r: String)
    ensures
        r@.len() == 36,
{
    id.to_string()
}

/// A fresh random identifier in its 36-character text form.
pub fn random_id() -> (r: String)
    ensures
        r@.len() == 36,
{
    let id = Uuid::new_v4();
    hyphenated(&id)
}

} // verus!
