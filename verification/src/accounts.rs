//! User accounts.

use vstd::prelude::*;

verus! {

/// A user account.
pub struct User {
    pub username: String,
    pub email: String,
    pub sign_in_count: u64,
    pub active: bool,
}

/// A new, active account that has signed in once.
pub fn build_user(username: String, email: String) -> (user: User)
    ensures
        user.username == username,
        user.email == email,
        user.sign_in_count == 1,
        user.active,
{
    User { username, email, sign_in_count: 1, active: true }
}

} // verus!
