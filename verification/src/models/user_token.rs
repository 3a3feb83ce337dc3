//! Sessions: the row that proves one, and the values from which one is made.

use crate::db::{
    is_statement_failure, statement_failed, Database, Tables, DUPLICATE_KEY, DUPLICATE_REFRESH_TOKEN, MISSING_VALUE,
};
use crate::errors::{DBError, DatabaseErrorKind};
use crate::random::new_cuid;
use crate::clock::unix_now;
use vstd::prelude::*;

verus! {

/// The number of minutes for which a refresh token can be used: one year of 365 days.
pub const DURATION_OF_REFRESH_TOKEN_IN_MINUTES: i64 = 525600;

/// A session as the store holds it.
#[derive(Clone, Debug)]
pub struct UserTokenModel {
    pub id: String,
    /// The signed access token.
    pub token: String,
    /// The value that can be exchanged once for a new session.
    pub refresh_token: String,
    pub user_id: String,
    /// The last second at which `refresh_token` is taken.
    pub refresh_expire_at: i64,
    /// Seconds since the epoch.
    pub created_at: i64,
    /// Seconds since the epoch.
    pub updated_at: i64,
}

/// What a session's row holds.
pub struct TokenRow {
    pub id: Seq<char>,
    pub token: Seq<char>,
    pub refresh_token: Seq<char>,
    pub user_id: Seq<char>,
    pub refresh_expire_at: i64,
    pub created_at: i64,
    pub updated_at: i64,
}

impl View for UserTokenModel {
    type V = TokenRow;

    open spec fn view(&self) -> TokenRow {
        TokenRow {
            id: self.id@,
            token: self.token@,
            refresh_token: self.refresh_token@,
            user_id: self.user_id@,
            refresh_expire_at: self.refresh_expire_at,
            created_at: self.created_at,
            updated_at: self.updated_at,
        }
    }
}

/// A copy of a row.
pub fn copy_token(row: &UserTokenModel) -> (r: UserTokenModel)
    ensures
        r@ == row@,
{
    UserTokenModel {
        id: row.id.clone(),
        token: row.token.clone(),
        refresh_token: row.refresh_token.clone(),
        user_id: row.user_id.clone(),
        refresh_expire_at: row.refresh_expire_at,
        created_at: row.created_at,
        updated_at: row.updated_at,
    }
}

/// The second at which a refresh token made at `now` expires, where that second can
/// be held.
pub open spec fn refresh_deadline(now: i64) -> Option<i64> {
    if now + DURATION_OF_REFRESH_TOKEN_IN_MINUTES * 60 <= i64::MAX {
        Some((now + DURATION_OF_REFRESH_TOKEN_IN_MINUTES * 60) as i64)
    } else {
        None
    }
}

/// The values of a session that is yet to be stored. A value that is absent makes the
/// store refuse the row.
pub struct NewUserTokenModel<'a> {
    pub id: Option<String>,
    pub token: Option<&'a String>,
    pub refresh_token: Option<&'a String>,
    pub user_id: Option<&'a String>,
    pub refresh_expire_at: Option<i64>,
}

impl<'a> Default for NewUserTokenModel<'a> {
    /// A session under a key that is drawn anew, as yet without its values.
    fn default() -> (r: Self)
        ensures
            r.token is None,
            r.refresh_token is None,
            r.user_id is None,
            r.refresh_expire_at is None,
    {
        NewUserTokenModel { id: new_cuid(), token: None, refresh_token: None, user_id: None, refresh_expire_at: None }
    }
}

impl<'a> NewUserTokenModel<'a> {
    /// The values of a session made at `now` under the key `id`: its refresh token
    /// expires a year after `now`.
    pub fn new_at(
        id: Option<String>,
        token: Option<&'a String>,
        refresh_token: Option<&'a String>,
        user_id: Option<&'a String>,
        now: i64,
    ) -> (r: Self)
        ensures
            r.id == id,
            r.token == token,
            r.refresh_token == refresh_token,
            r.user_id == user_id,
            r.refresh_expire_at == refresh_deadline(now),
    {
        let refresh_expire_at = now.checked_add(DURATION_OF_REFRESH_TOKEN_IN_MINUTES * 60);
        NewUserTokenModel { id, token, refresh_token, user_id, refresh_expire_at }
    }
}

impl<'a> NewUserTokenModel<'a> {
    /// What the row holds that the store makes of these values at `now`; `None` where
    /// a value is absent.
    pub open spec fn row(&self, now: i64) -> Option<TokenRow> {
        if self.id is Some && self.token is Some && self.refresh_token is Some && self.user_id is Some
            && self.refresh_expire_at is Some {
            Some(
                TokenRow {
                    id: self.id->0@,
                    token: self.token->0@,
                    refresh_token: self.refresh_token->0@,
                    user_id: self.user_id->0@,
                    refresh_expire_at: self.refresh_expire_at->0,
                    created_at: now,
                    updated_at: now,
                },
            )
        } else {
            None
        }
    }

    /// What storing these values at `now` does to the store, and what it returns.
    ///
    /// A value that is absent is refused as a missing value, an id that a session has
    /// as a duplicate key, a refresh token that a session has as a duplicate refresh
    /// token, in this order, and the store stays as it was. Otherwise the row is added
    /// behind the others, and returned.
    pub open spec fn saved(&self, before: Tables, after: Tables, now: i64, r: Result<UserTokenModel, DBError>) -> bool {
        match self.row(now) {
            None => {
                &&& after == before
                &&& r matches Err(error)
                &&& is_statement_failure(error, DatabaseErrorKind::NotNullViolation, MISSING_VALUE@)
            },
            Some(row) => if before.has_token_id(row.id) {
                &&& after == before
                &&& r matches Err(error)
                &&& is_statement_failure(error, DatabaseErrorKind::UniqueViolation, DUPLICATE_KEY@)
            } else if before.has_refresh_token(row.refresh_token) {
                &&& after == before
                &&& r matches Err(error)
                &&& is_statement_failure(error, DatabaseErrorKind::UniqueViolation, DUPLICATE_REFRESH_TOKEN@)
            } else {
                &&& r matches Ok(stored)
                &&& stored@ == row
                &&& after == before.with_tokens(before.user_tokens.push(row))
            },
        }
    }

    /// The values of a session made at the present moment, under a key that is drawn
    /// anew: its refresh token expires a year from now.
    pub fn new(token: Option<&'a String>, refresh_token: Option<&'a String>, user_id: Option<&'a String>) -> (r: Self)
        ensures
            r.token == token,
            r.refresh_token == refresh_token,
            r.user_id == user_id,
            exists|now: i64| r.refresh_expire_at == #[trigger] refresh_deadline(now),
    {
        let now = unix_now();
        let refresh_expire_at = now.checked_add(DURATION_OF_REFRESH_TOKEN_IN_MINUTES * 60);
        let base = Self::default();
        assert(refresh_expire_at == refresh_deadline(now));
        NewUserTokenModel { id: base.id, token, refresh_token, user_id, refresh_expire_at }
    }

    /// Stores the session at `now`.
    pub fn save_at(self, db: &mut Database, now: i64) -> (r: Result<UserTokenModel, DBError>)
        requires
            old(db).wf(),
        ensures
            final(db).wf(),
            self.saved(old(db)@, final(db)@, now, r),
    {
        match (self.id, self.token, self.refresh_token, self.user_id, self.refresh_expire_at) {
            (Some(id), Some(token), Some(refresh_token), Some(user_id), Some(refresh_expire_at)) => {
                let row = UserTokenModel {
                    id,
                    token: token.clone(),
                    refresh_token: refresh_token.clone(),
                    user_id: user_id.clone(),
                    refresh_expire_at,
                    created_at: now,
                    updated_at: now,
                };
                let stored = copy_token(&row);
                match db.insert_token(row) {
                    Ok(_) => Ok(stored),
                    Err(error) => Err(error),
                }
            },
            _ => Err(statement_failed(DatabaseErrorKind::NotNullViolation, MISSING_VALUE)),
        }
    }

    /// Stores the session at the present moment.
    pub fn save(self, db: &mut Database) -> (r: Result<UserTokenModel, DBError>)
        requires
            old(db).wf(),
        ensures
            final(db).wf(),
            exists|now: i64| #[trigger] self.saved(old(db)@, final(db)@, now, r),
    {
        let now = unix_now();
        self.save_at(db, now)
    }
}

} // verus!
