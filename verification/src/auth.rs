use vstd::prelude::*;

verus! {

/// Generates a fresh, unpredictable account credential.
///
/// Relies on uuid::Uuid::new_v4 and its hyphenated Display form: a random
/// 128-bit token printed as 36 characters, of which the four hyphens are
/// dropped, leaving 32, behind a three-character prefix. Nothing can be
/// promised about which credential comes back, only its shape.
#[verifier::external_body]
pub fn generate_api_key() -> (key: String)
    ensures
        key@.len() == 35,
        key@.subrange(0, 3) == "qr_"@,
{
    format!("qr_{}", uuid::Uuid::new_v4().to_string().replace('-', ""))
}

/// Generates a fresh, globally unique artifact identifier.
///
/// Relies on uuid::Uuid::new_v4 and its hyphenated Display form: 36
/// characters. Nothing can be promised about which identifier comes back,
/// only its length; uniqueness is enforced by the artifact store, which
/// rejects a duplicate rather than overwrite.
#[verifier::external_body]
pub fn fresh_artifact_id() -> (id: String)
    ensures
        id@.len() == 36,
{
    uuid::Uuid::new_v4().to_string()
}

} // verus!
