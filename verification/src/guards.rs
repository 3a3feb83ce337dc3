//! The checks that stand before a protected operation.

use crate::authorization::{require_role, INSUFFICIENT_PERMISSION, NOT_AUTHENTICATED};
use crate::context::Context;
use crate::errors::SrvError;
use crate::models::auth::assigned_names;
use crate::authorization::{ADMIN_ITEM_NAME, USER_ITEM_NAME};
use vstd::prelude::*;

verus! {

/// The two roles that an operation can ask for.
#[derive(Clone, Copy, Debug, PartialEq, Eq, Structural)]
pub enum Role {
    Admin,
    User,
}

/// Lets a request pass whose principal is permitted a role.
#[derive(Debug)]
pub struct RoleGuard {
    pub role: Role,
}

/// Lets a request pass that has a principal.
#[derive(Debug)]
pub struct AuthGuard {}

impl Role {
    /// The name of the node that stands for the role.
    pub open spec fn item_name(&self) -> Seq<char> {
        match self {
            Role::Admin => ADMIN_ITEM_NAME@,
            Role::User => USER_ITEM_NAME@,
        }
    }
}

impl Role {
    /// The name of the node that stands for the role.
    pub fn name(&self) -> (r: &'static str)
        ensures
            r@ == self.item_name(),
    {
        match self {
            Role::Admin => ADMIN_ITEM_NAME,
            Role::User => USER_ITEM_NAME,
        }
    }
}

impl RoleGuard {
    /// Passes where the assignments of the request's principal permit the role's node
    /// as an action of the graph: one of the assigned nodes is known and reaches the
    /// role's node by one edge or more, or the role's node is no known node at all.
    ///
    /// To hold the role's node itself is not enough where that node is known: a known
    /// node is permitted to those that reach it.
    pub fn check(&self, context: &Context) -> (r: Result<(), SrvError>)
        ensures
            match context.user_assignments {
                Some(list) if context.auth_service.authorizes(assigned_names(list@), self.role.item_name()) => r
                    is Ok,
                _ => r matches Err(error) && error.is_unauthorized(INSUFFICIENT_PERMISSION@),
            },
    {
        require_role(&context.auth_service, &context.user_assignments, self.role.name())
    }
}

impl AuthGuard {
    /// Passes where the request has a principal.
    pub fn check(&self, context: &Context) -> (r: Result<(), SrvError>)
        ensures
            match context.user {
                Some(_) => r is Ok,
                None => r matches Err(error) && error.is_unauthorized(NOT_AUTHENTICATED@),
            },
    {
        if context.user.is_some() {
            Ok(())
        } else {
            Err(SrvError::unauthorized(NOT_AUTHENTICATED))
        }
    }
}

} // verus!
