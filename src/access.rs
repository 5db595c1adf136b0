//! The access gate: a caller may use an operation when its roles and the
//! roles that the operation asks for share a bit.

use vstd::prelude::*;

verus! {

/// The claims of a token that has already been validated.
pub struct TokenRecord {
    pub subject_id: String,
    /// One bit per role.
    pub role_bitmask: u8,
    /// Milliseconds since the Unix epoch after which the token is no longer valid.
    pub not_after: u128,
}

/// Whether a caller with roles `held` may use an operation that asks for `required`.
pub open spec fn grants(held: u8, required: u8) -> bool {
    required & held != 0
}

/// Whether `token` may use an operation that asks for the roles `required_role`.
/// Expiry is not looked at here: it is part of validating the token.
pub fn authorize(token: &TokenRecord, required_role: u8) -> (r: bool)
    ensures
        r == grants(token.role_bitmask, required_role),
{
    required_role & token.role_bitmask != 0
}

} // verus!
