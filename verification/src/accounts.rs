//! User accounts.

use vstd::prelude::*;

verus! {

/// An account.
#[derive(Debug, PartialEq, Eq)]
pub struct User {
    pub active: bool,
    pub name: String,
    pub age: u8,
    pub address: String,
    pub email: String,
    pub username: String,
    pub password: String,
    pub sign_in_count: u64,
}

/// A new account: active, and never signed in.
pub fn create_user(
    email: String,
    name: String,
    password: String,
    username: String,
    age: u8,
    address: String,
) -> (user: User)
    ensures
        user.active,
        user.sign_in_count == 0,
        user.name == name,
        user.age == age,
        user.address == address,
        user.email == email,
        user.username == username,
        user.password == password,
{
    User { active: true, name, age, address, email, username, password, sign_in_count: 0 }
}

} // verus!
