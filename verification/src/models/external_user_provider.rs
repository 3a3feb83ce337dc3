//! Accounts that a user has at other providers.

use crate::clock::unix_now;
use crate::db::{is_statement_failure, statement_failed, Database, Tables, DUPLICATE_KEY, MISSING_VALUE};
use crate::errors::{DBError, DatabaseErrorKind};
use crate::random::new_cuid;
use vstd::prelude::*;

verus! {

/// Where a principal comes from that did not register here.
#[derive(Clone, Copy, Debug, PartialEq, Eq, Structural)]
pub enum UserProvider {
    Facebook,
    Google,
    Apple,
}

/// An account at another provider as the store holds it.
#[derive(Clone, Debug)]
pub struct ExternalUserProviderModel {
    pub id: String,
    pub user_id: String,
    /// The id that the provider has for the account.
    pub external_id: String,
    pub email: Option<String>,
    pub provider: UserProvider,
    /// Seconds since the epoch.
    pub created_at: i64,
    /// Seconds since the epoch.
    pub updated_at: i64,
    pub deleted: bool,
}

/// A copy of a row.
pub fn copy_provider(row: &ExternalUserProviderModel) -> (r: ExternalUserProviderModel)
    ensures
        r == *row,
{
    let email = match &row.email {
        Some(text) => Some(text.clone()),
        None => None,
    };
    ExternalUserProviderModel {
        id: row.id.clone(),
        user_id: row.user_id.clone(),
        external_id: row.external_id.clone(),
        email,
        provider: row.provider,
        created_at: row.created_at,
        updated_at: row.updated_at,
        deleted: row.deleted,
    }
}

/// The values of an account at another provider that is yet to be stored. A value
/// that is absent makes the store refuse the row, but for the e-mail address, which an
/// account need not have.
#[derive(Debug)]
pub struct NewExternalUserProviderModel<'a> {
    pub id: String,
    pub user_id: String,
    pub external_id: String,
    pub provider: UserProvider,
    pub email: Option<&'a String>,
    pub created_at: Option<i64>,
    pub updated_at: Option<i64>,
    pub deleted: Option<bool>,
}

impl<'a> NewExternalUserProviderModel<'a> {
    /// The account of the user at the provider, made at `now` under the key `id`.
    pub fn new_at(
        id: String,
        user_id: String,
        external_id: String,
        provider: UserProvider,
        email: &'a String,
        now: i64,
    ) -> (r: Self)
        ensures
            r.id == id,
            r.user_id == user_id,
            r.external_id == external_id,
            r.provider == provider,
            r.email == Some(email),
            r.created_at == Some(now),
            r.updated_at == Some(now),
            r.deleted == Some(false),
    {
        NewExternalUserProviderModel {
            id,
            user_id,
            external_id,
            provider,
            email: Some(email),
            created_at: Some(now),
            updated_at: Some(now),
            deleted: Some(false),
        }
    }

    /// The account of the user at the provider, made at `now` under the key that was
    /// drawn for it; nothing where none could be drawn.
    pub fn from_key(
        key: Option<String>,
        user_id: String,
        external_id: String,
        provider: UserProvider,
        email: &'a String,
        now: i64,
    ) -> (r: Option<Self>)
        ensures
            match key {
                Some(id) => {
                    &&& r matches Some(account)
                    &&& account.id == id
                    &&& account.user_id == user_id
                    &&& account.external_id == external_id
                    &&& account.provider == provider
                    &&& account.email == Some(email)
                    &&& account.created_at == Some(now)
                    &&& account.updated_at == Some(now)
                    &&& account.deleted == Some(false)
                },
                None => r is None,
            },
    {
        match key {
            Some(id) => Some(Self::new_at(id, user_id, external_id, provider, email, now)),
            None => None,
        }
    }

    /// The account of the user at the provider, made now under a key that is drawn
    /// anew; nothing where no key could be drawn.
    pub fn new(user_id: String, external_id: String, provider: UserProvider, email: &'a String) -> (r: Option<Self>)
        ensures
            match r {
                Some(account) => {
                    &&& account.user_id == user_id
                    &&& account.external_id == external_id
                    &&& account.provider == provider
                    &&& account.email == Some(email)
                    &&& account.created_at is Some
                    &&& account.updated_at == account.created_at
                    &&& account.deleted == Some(false)
                },
                None => true,
            },
    {
        let key = new_cuid();
        let now = unix_now();
        Self::from_key(key, user_id, external_id, provider, email, now)
    }

    /// The row that the store makes of these values holds the values of `stored`.
    pub open spec fn is_row(&self, stored: ExternalUserProviderModel) -> bool {
        &&& stored.id@ == self.id@
        &&& stored.user_id@ == self.user_id@
        &&& stored.external_id@ == self.external_id@
        &&& stored.provider == self.provider
        &&& match self.email {
            Some(text) => stored.email matches Some(same) && same@ == text@,
            None => stored.email is None,
        }
        &&& Some(stored.created_at) == self.created_at
        &&& Some(stored.updated_at) == self.updated_at
        &&& Some(stored.deleted) == self.deleted
    }

    /// What storing these values does to the store, and what it returns.
    ///
    /// A moment or a mark that is absent is refused as a missing value, an id that an
    /// account has as a duplicate key, and the store stays as it was. Otherwise the row
    /// is added behind the others, and returned.
    pub open spec fn saved(&self, before: Tables, after: Tables, r: Result<ExternalUserProviderModel, DBError>) -> bool {
        if self.created_at is None || self.updated_at is None || self.deleted is None {
            &&& after == before
            &&& r matches Err(error)
            &&& is_statement_failure(error, DatabaseErrorKind::NotNullViolation, MISSING_VALUE@)
        } else if before.has_provider_id(self.id@) {
            &&& after == before
            &&& r matches Err(error)
            &&& is_statement_failure(error, DatabaseErrorKind::UniqueViolation, DUPLICATE_KEY@)
        } else {
            &&& r matches Ok(stored)
            &&& self.is_row(stored)
            &&& after == before.with_providers(before.external_user_providers.push(stored))
        }
    }

    /// Stores the account.
    pub fn save(self, db: &mut Database) -> (r: Result<ExternalUserProviderModel, DBError>)
        requires
            old(db).wf(),
        ensures
            final(db).wf(),
            self.saved(old(db)@, final(db)@, r),
    {
        match (self.created_at, self.updated_at, self.deleted) {
            (Some(created_at), Some(updated_at), Some(deleted)) => {
                let email = match self.email {
                    Some(text) => Some(text.clone()),
                    None => None,
                };
                let row = ExternalUserProviderModel {
                    id: self.id,
                    user_id: self.user_id,
                    external_id: self.external_id,
                    email,
                    provider: self.provider,
                    created_at,
                    updated_at,
                    deleted,
                };
                let stored = copy_provider(&row);
                match db.insert_provider(row) {
                    Ok(_) => Ok(stored),
                    Err(error) => Err(error),
                }
            },
            _ => Err(statement_failed(DatabaseErrorKind::NotNullViolation, MISSING_VALUE)),
        }
    }
}

impl ExternalUserProviderModel {
    pub fn id(&self) -> (r: &String)
        ensures
            r == &self.id,
    {
        &self.id
    }

    pub fn email(&self) -> (r: &Option<String>)
        ensures
            r == &self.email,
    {
        &self.email
    }

    pub fn provider(&self) -> (r: UserProvider)
        ensures
            r == self.provider,
    {
        self.provider
    }

    /// When the account was stored, in seconds since the epoch.
    pub fn created_at(&self) -> (r: i64)
        ensures
            r == self.created_at,
    {
        self.created_at
    }

    /// When the account was last changed, in seconds since the epoch.
    pub fn updated_at(&self) -> (r: i64)
        ensures
            r == self.updated_at,
    {
        self.updated_at
    }

    pub fn deleted(&self) -> (r: bool)
        ensures
            r == self.deleted,
    {
        self.deleted
    }
}

} // verus!
