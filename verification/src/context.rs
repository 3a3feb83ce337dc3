//! What is known of a request before it is served.

use crate::authorization::AuthorizationService;
use crate::db::{assignments_for, Database};
use crate::models::auth::AuthAssignmentModel;
use crate::models::user::{copy_user, SlimUser, UserModel};
use vstd::prelude::*;

verus! {

/// The principal of a request, its token, its assignments, and the graph to hold
/// them against.
#[derive(Debug)]
pub struct Context {
    pub user: Option<UserModel>,
    pub user_token: Option<String>,
    pub user_assignments: Option<Vec<AuthAssignmentModel>>,
    pub auth_service: AuthorizationService,
}

impl Context {
    /// A request that has a principal has a token.
    pub open spec fn wf(&self) -> bool {
        self.user is Some ==> self.user_token is Some
    }

    /// The context of a request from this sender: the graph is loaded from the store,
    /// the principal is the user that has a session with the sender's token, and the
    /// assignments are the principal's.
    pub fn new(user_info: SlimUser, db: &Database) -> (r: Context)
        ensures
            r.wf(),
            r.auth_service.holds_graph(db@.auth_items, db@.auth_item_children),
            r.user_token == user_info.token,
            match r.user {
                Some(user) => {
                    &&& user_info.id is Some
                    &&& user_info.token is Some
                    &&& user.id@ == user_info.id->0@
                    &&& db@.users.contains(user@)
                    &&& db@.has_session(user.id@, user_info.token->0@)
                    &&& r.user_assignments matches Some(list)
                    &&& list@ == assignments_for(db@.auth_assignments, user.id@)
                },
                None => {
                    &&& r.user_assignments is None
                    &&& user_info.id is None || user_info.token is None || !db@.has_user(user_info.id->0@)
                        || !db@.has_session(user_info.id->0@, user_info.token->0@)
                },
            },
    {
        let mut auth_service = AuthorizationService::new();
        auth_service.init_from(db);
        let user = UserModel::find_user(&user_info, db);
        let user_assignments = match &user {
            Some(found) => match found.auth_assignments(db) {
                Ok(list) => Some(list),
                Err(_) => None,
            },
            None => None,
        };
        Context { user, user_token: user_info.token, user_assignments, auth_service }
    }
}

/// The principal of the request, if it has one.
pub fn me(context: &Context) -> (r: Option<UserModel>)
    ensures
        match context.user {
            Some(user) => r matches Some(same) && same@ == user@,
            None => r is None,
        },
{
    match &context.user {
        Some(user) => Some(copy_user(user)),
        None => None,
    }
}

} // verus!
