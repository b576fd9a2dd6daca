//! Login identities. Authentication is a plaintext credential match, kept
//! as the store has it — noted as insecure, deliberately not upgraded.

use vstd::prelude::*;
use crate::errors::LibError;
use crate::text::str_eq;

verus! {

/// A login identity, as the sign-in query returns it. The stored password
/// never leaves the store layer.
pub struct User {
    pub id: i64,
    pub username: String,
    pub name: String,
    pub role: String,
    pub avatar: Option<String>,
}

/// The password-change guard: the supplied old password must match the
/// stored one exactly, or the change is refused.
pub fn password_change_check(stored: &str, supplied_old: &str) -> (r: Result<(), LibError>)
    ensures
        r == if stored@ == supplied_old@ {
            Result::<(), LibError>::Ok(())
        } else {
            Result::<(), LibError>::Err(LibError::WrongPassword)
        },
{
    if str_eq(stored, supplied_old) {
        Result::Ok(())
    } else {
        Result::Err(LibError::WrongPassword)
    }
}

} // verus!
