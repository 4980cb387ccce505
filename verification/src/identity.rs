//! The identity resolver: a submitted login becomes an actor with a
//! role. There is no credential store; the one privileged username is
//! `"admin"`, matched without regard to ASCII case.

use vstd::prelude::*;

verus! {

#[derive(Clone, Copy, PartialEq, Eq, Structural, Debug)]
pub enum Role {
    Regular,
    Admin,
}

/// The resolved identity every store operation acts as.
#[derive(Debug)]
pub struct Actor {
    pub username: String,
    pub role: Role,
}

impl Clone for Actor {
    fn clone(&self) -> (r: Self)
        ensures
            r == *self,
    {
        Actor { username: self.username.clone(), role: self.role }
    }
}

/// A login with an empty username or password is turned away.
#[derive(Clone, Copy, PartialEq, Eq, Structural, Debug)]
pub struct LoginRejected;

/// The username is `"admin"` up to ASCII case.
pub open spec fn is_admin_name(u: Seq<char>) -> bool {
    &&& u.len() == 5
    &&& (u[0] == 'a' || u[0] == 'A')
    &&& (u[1] == 'd' || u[1] == 'D')
    &&& (u[2] == 'm' || u[2] == 'M')
    &&& (u[3] == 'i' || u[3] == 'I')
    &&& (u[4] == 'n' || u[4] == 'N')
}

/// The role a username resolves to.
pub open spec fn role_of_name(u: Seq<char>) -> Role {
    if is_admin_name(u) {
        Role::Admin
    } else {
        Role::Regular
    }
}

/// Whether a username carries admin privileges.
pub fn is_admin(username: &str) -> (r: bool)
    ensures
        r == is_admin_name(username@),
{
    if username.unicode_len() != 5 {
        return false;
    }
    let c0 = username.get_char(0);
    let c1 = username.get_char(1);
    let c2 = username.get_char(2);
    let c3 = username.get_char(3);
    let c4 = username.get_char(4);
    (c0 == 'a' || c0 == 'A') && (c1 == 'd' || c1 == 'D') && (c2 == 'm' || c2 == 'M') && (c3 == 'i'
        || c3 == 'I') && (c4 == 'n' || c4 == 'N')
}

/// Resolves a submitted login. Both fields must be non-empty; nothing
/// further is checked, and the role comes from the username alone.
pub fn resolve(username: &str, password: &str) -> (r: Result<Actor, LoginRejected>)
    ensures
        r is Ok <==> (username@.len() > 0 && password@.len() > 0),
        match r {
            Ok(a) => a.username@ == username@ && a.role == role_of_name(username@),
            Err(rejected) => rejected == LoginRejected,
        },
{
    if username.is_empty() || password.is_empty() {
        return Err(LoginRejected);
    }
    let role = if is_admin(username) {
        Role::Admin
    } else {
        Role::Regular
    };
    Ok(Actor { username: username.to_owned(), role })
}

} // verus!
