//! Plain records of the wider data model: namespaces, end users, roles and
//! permissions, and the request bodies the external interfaces accept.
//!
//! The core reads almost none of these; they fix the shapes that the store
//! and the wire share with it. A permission's place in the hierarchy is
//! carried as a label path, each ancestor label separated by a dot.

use vstd::prelude::*;

verus! {

/// A namespace owned by an internal user.
#[derive(Clone, Debug)]
pub struct Namespace {
    pub id: i64,
    pub name: String,
    pub iuserid: i64,
}

/// An end user whose permission grants the hub reports on.
#[derive(Clone, Debug)]
pub struct User {
    pub id: i64,
    pub name: String,
}

/// Membership of an end user in a role.
#[derive(Clone, Debug)]
pub struct UserRoles {
    pub id: i64,
    pub user_id: i64,
    pub role_id: Role,
}

/// A named role that permissions attach to.
#[derive(Clone, Debug)]
pub struct Role {
    pub id: i64,
    pub name: String,
}

/// A permission granted to a role.
#[derive(Clone, Debug)]
pub struct RolePermission {
    pub id: i64,
    pub role_id: i64,
    pub permission_id: Role,
}

/// A permission and its place in the hierarchy, as a dotted label path.
#[derive(Clone, Debug)]
pub struct Permission {
    pub id: i64,
    pub name: String,
    pub parent_id: i64,
    pub permission: String,
}

/// A value paired with the identifier it is stored under.
#[derive(Clone, Debug)]
pub struct WithId<T> {
    pub id: i64,
    pub contained: T,
}

/// The body of a registration request.
#[derive(Clone, Debug)]
pub struct UserSubmission {
    pub name: String,
    pub email: String,
    pub password: String,
}

/// The body of a login request.
#[derive(Clone, Debug)]
pub struct LoginSubmission {
    pub email: String,
    pub password: String,
}

/// The body of a permission check: does this user hold this permission?
#[derive(Clone, Copy, Debug, PartialEq, Eq, Structural)]
pub struct CheckRequest {
    pub user_id: i64,
    pub permission_id: i64,
}

} // verus!
