//! Principals: the row of a user, and the values from which one is made or changed.

use crate::argon::{argon2i_digest, hashable, make_hash, make_salt, try_make_hash, CHARSET, PASSWORD_LEN};
use crate::clock::unix_now;
use crate::db::{
    assignments_for, changed_user, is_statement_failure, statement_failed, Database, Tables, DUPLICATE_EMAIL,
    DUPLICATE_KEY, MISSING_VALUE,
};
use crate::errors::{DBError, DatabaseErrorKind};
use crate::jwt::text_of;
use crate::random::new_cuid;
use crate::models::auth::AuthAssignmentModel;
use crate::models::external_user_provider::ExternalUserProviderModel;
use vstd::prelude::*;

verus! {

/// A principal as the store holds it.
#[derive(Clone, Debug)]
pub struct UserModel {
    pub id: String,
    /// The digest of the password and the salt.
    pub hash: Vec<u8>,
    pub salt: String,
    pub email: String,
    /// Seconds since the epoch.
    pub created_at: i64,
    /// Seconds since the epoch.
    pub updated_at: i64,
    pub deleted: bool,
}

/// What a principal's row holds.
pub struct UserRow {
    pub id: Seq<char>,
    pub hash: Seq<u8>,
    pub salt: Seq<char>,
    pub email: Seq<char>,
    pub created_at: i64,
    pub updated_at: i64,
    pub deleted: bool,
}

impl View for UserModel {
    type V = UserRow;

    open spec fn view(&self) -> UserRow {
        UserRow {
            id: self.id@,
            hash: self.hash@,
            salt: self.salt@,
            email: self.email@,
            created_at: self.created_at,
            updated_at: self.updated_at,
            deleted: self.deleted,
        }
    }
}

/// What a request says of its sender: the principal that its access token names, and
/// the token itself. Both are absent where the request bore no token that could be read.
#[derive(Debug)]
pub struct SlimUser {
    pub id: Option<String>,
    pub token: Option<String>,
}

impl Default for SlimUser {
    fn default() -> (r: SlimUser)
        ensures
            r.id is None,
            r.token is None,
    {
        SlimUser { id: None, token: None }
    }
}

impl SlimUser {
    /// The sender that a stored principal stands for, with no token.
    pub fn from_user(user: UserModel) -> (r: SlimUser)
        ensures
            r.id == Some(user.id),
            r.token is None,
    {
        SlimUser { id: Some(user.id), token: None }
    }
}

/// A copy of a row.
pub fn copy_user(user: &UserModel) -> (r: UserModel)
    ensures
        r@ == user@,
{
    UserModel {
        id: user.id.clone(),
        hash: copy_bytes(&user.hash),
        salt: user.salt.clone(),
        email: user.email.clone(),
        created_at: user.created_at,
        updated_at: user.updated_at,
        deleted: user.deleted,
    }
}

/// A copy of a list of bytes.
pub fn copy_bytes(bytes: &Vec<u8>) -> (r: Vec<u8>)
    ensures
        r@ == bytes@,
{
    let mut out: Vec<u8> = Vec::new();
    let mut i: usize = 0;
    while i < bytes.len()
        invariant
            0 <= i <= bytes@.len(),
            out@ == bytes@.take(i as int),
        decreases bytes@.len() - i,
    {
        out.push(bytes[i]);
        proof {
            assert(bytes@.take(i + 1) =~= bytes@.take(i as int).push(bytes@[i as int]));
        }
        i += 1;
    }
    proof {
        assert(bytes@.take(bytes@.len() as int) =~= bytes@);
    }
    out
}

impl UserModel {
    /// The assignments of this user, in the table's order.
    pub fn auth_assignments(&self, db: &Database) -> (r: Result<Vec<AuthAssignmentModel>, DBError>)
        ensures
            r matches Ok(list) && list@ == assignments_for(db@.auth_assignments, self.id@),
    {
        Ok(db.assignments_of(self.id.as_str()))
    }

    /// The principal of a request: the user that the sender's token names, where that
    /// user has a session with that very token. A sender without an id or without a
    /// token has no principal.
    pub fn find_user(user_info: &SlimUser, db: &Database) -> (r: Option<UserModel>)
        ensures
            match r {
                Some(user) => {
                    &&& user_info.id is Some
                    &&& user_info.token is Some
                    &&& user.id@ == user_info.id->0@
                    &&& db@.users.contains(user@)
                    &&& db@.has_session(user.id@, user_info.token->0@)
                },
                None => user_info.id is None || user_info.token is None || !db@.has_user(user_info.id->0@)
                    || !db@.has_session(user_info.id->0@, user_info.token->0@),
            },
    {
        match (&user_info.id, &user_info.token) {
            (Some(id), Some(token)) => {
                match db.user_index_by_id(id.as_str()) {
                    Some(i) => {
                        if db.session_exists(id.as_str(), token.as_str()) {
                            let user = copy_user(&db.users[i]);
                            assert(db@.users[i as int] == user@);
                            Some(user)
                        } else {
                            None
                        }
                    },
                    None => None,
                }
            },
            _ => None,
        }
    }
}

/// What a list of bytes that may be absent holds.
pub open spec fn bytes_of(bytes: Option<Vec<u8>>) -> Option<Seq<u8>> {
    match bytes {
        Some(b) => Some(b@),
        None => None,
    }
}

/// What a new user is made of besides what it hands in: the moment, and the two values
/// that are drawn anew for it.
#[derive(Debug)]
pub struct UserSeed {
    /// The moment of registration, in seconds since the epoch.
    pub now: i64,
    /// The key of the user's row; absent where none could be drawn.
    pub id: Option<String>,
    /// The salt of the user's password.
    pub salt: String,
}

impl UserSeed {
    /// A seed for a user that registers now: the present moment, a key and a salt,
    /// both drawn anew.
    pub fn draw() -> (r: UserSeed)
        ensures
            r.salt@.len() == PASSWORD_LEN,
    {
        UserSeed { now: unix_now(), id: new_cuid(), salt: make_salt() }
    }
}

/// The values of a user that is yet to be stored. A value that is absent makes the
/// store refuse the row.
#[derive(Debug)]
pub struct NewUser<'a> {
    pub id: Option<String>,
    pub hash: Option<Vec<u8>>,
    pub salt: Option<String>,
    pub email: Option<&'a String>,
    pub created_at: Option<i64>,
    pub updated_at: Option<i64>,
    pub deleted: Option<bool>,
}

impl<'a> Default for NewUser<'a> {
    /// A user made now under a key that is drawn anew, not deleted, and as yet
    /// without an e-mail address and a password.
    fn default() -> (r: Self)
        ensures
            r.hash is None,
            r.salt is None,
            r.email is None,
            r.created_at is Some,
            r.updated_at == r.created_at,
            r.deleted == Some(false),
    {
        let now = unix_now();
        NewUser {
            id: new_cuid(),
            hash: None,
            salt: None,
            email: None,
            created_at: Some(now),
            updated_at: Some(now),
            deleted: Some(false),
        }
    }
}

impl<'a> NewUser<'a> {
    /// What the row holds that the store makes of these values; `None` where a value
    /// is absent.
    pub open spec fn row(&self) -> Option<UserRow> {
        if self.id is Some && self.hash is Some && self.salt is Some && self.email is Some && self.created_at is Some
            && self.updated_at is Some && self.deleted is Some {
            Some(
                UserRow {
                    id: self.id->0@,
                    hash: self.hash->0@,
                    salt: self.salt->0@,
                    email: self.email->0@,
                    created_at: self.created_at->0,
                    updated_at: self.updated_at->0,
                    deleted: self.deleted->0,
                },
            )
        } else {
            None
        }
    }

    /// What storing these values does to the store, and what it returns.
    ///
    /// A value that is absent is refused as a missing value, an id that a user has as a
    /// duplicate key, an e-mail address that a user has as a duplicate e-mail address,
    /// in this order, and the store stays as it was. Otherwise the row is added behind
    /// the others, and returned.
    pub open spec fn saved(&self, before: Tables, after: Tables, r: Result<UserModel, DBError>) -> bool {
        match self.row() {
            None => {
                &&& after == before
                &&& r matches Err(error)
                &&& is_statement_failure(error, DatabaseErrorKind::NotNullViolation, MISSING_VALUE@)
            },
            Some(row) => if before.has_user(row.id) {
                &&& after == before
                &&& r matches Err(error)
                &&& is_statement_failure(error, DatabaseErrorKind::UniqueViolation, DUPLICATE_KEY@)
            } else if before.has_email(row.email) {
                &&& after == before
                &&& r matches Err(error)
                &&& is_statement_failure(error, DatabaseErrorKind::UniqueViolation, DUPLICATE_EMAIL@)
            } else {
                &&& r matches Ok(stored)
                &&& stored@ == row
                &&& after == before.with_users(before.users.push(row))
            },
        }
    }

    /// A user with this e-mail address and without a password, made at `now` under
    /// the key `id`.
    pub fn new_without_pw_at(email: &'a String, id: Option<String>, now: i64) -> (r: NewUser<'a>)
        ensures
            r.id == id,
            r.hash is None,
            r.salt is None,
            r.email == Some(email),
            r.created_at == Some(now),
            r.updated_at == Some(now),
            r.deleted == Some(false),
    {
        NewUser {
            id,
            hash: None,
            salt: None,
            email: Some(email),
            created_at: Some(now),
            updated_at: Some(now),
            deleted: Some(false),
        }
    }

    /// A user with this e-mail address and without a password, made now under a key
    /// that is drawn anew.
    pub fn new_without_pw(email: &'a String) -> (r: NewUser<'a>)
        ensures
            r.hash is None,
            r.salt is None,
            r.email == Some(email),
            r.created_at is Some,
            r.updated_at == r.created_at,
            r.deleted == Some(false),
    {
        NewUser { email: Some(email), ..Self::default() }
    }

    /// A user with this e-mail address and this password, made from `seed`: the
    /// password is kept as its digest with the seed's salt. Where no digest can be made
    /// of them, the user has none.
    pub fn new_at(email: &'a String, password: &String, seed: UserSeed) -> (r: NewUser<'a>)
        ensures
            r.id == seed.id,
            bytes_of(r.hash) == crate::argon::digest_of(password@, seed.salt@),
            r.salt == Some(seed.salt),
            r.email == Some(email),
            r.created_at == Some(seed.now),
            r.updated_at == Some(seed.now),
            r.deleted == Some(false),
    {
        let hash = try_make_hash(password.as_str(), seed.salt.as_str());
        NewUser {
            id: seed.id,
            hash,
            salt: Some(seed.salt),
            email: Some(email),
            created_at: Some(seed.now),
            updated_at: Some(seed.now),
            deleted: Some(false),
        }
    }

    /// A user with this e-mail address and this password, made now under a key and
    /// with a salt that are drawn anew.
    pub fn new(email: &'a String, password: &String) -> (r: NewUser<'a>)
        ensures
            r.salt is Some,
            r.salt->0@.len() == PASSWORD_LEN,
            bytes_of(r.hash) == crate::argon::digest_of(password@, r.salt->0@),
            r.email == Some(email),
            r.created_at is Some,
            r.updated_at == r.created_at,
            r.deleted == Some(false),
    {
        Self::new_at(email, password, UserSeed::draw())
    }

    /// Stores the user.
    pub fn save(self, db: &mut Database) -> (r: Result<UserModel, DBError>)
        requires
            old(db).wf(),
        ensures
            final(db).wf(),
            self.saved(old(db)@, final(db)@, r),
    {
        match (self.id, self.hash, self.salt, self.email, self.created_at, self.updated_at, self.deleted) {
            (Some(id), Some(hash), Some(salt), Some(email), Some(created_at), Some(updated_at), Some(deleted)) => {
                let row = UserModel { id, hash, salt, email: email.clone(), created_at, updated_at, deleted };
                let stored = copy_user(&row);
                match db.insert_user(row) {
                    Ok(_) => Ok(stored),
                    Err(error) => Err(error),
                }
            },
            _ => Err(statement_failed(DatabaseErrorKind::NotNullViolation, MISSING_VALUE)),
        }
    }
}

/// The values of a user that are to be changed. A value that is absent stays as it is.
#[derive(Debug)]
pub struct UpdatedUserModel {
    pub email: Option<String>,
    pub hash: Option<Vec<u8>>,
    pub salt: Option<String>,
}

impl UpdatedUserModel {
    /// What changing a user by these values does to the store, and what it returns.
    ///
    /// A change without a value cannot be built. A user that the store does not hold is
    /// not found. An e-mail address that another user has is a duplicate. In these
    /// cases the store stays as it was. Otherwise the user's row holds the new values,
    /// and is returned.
    pub open spec fn updated(&self, before: Tables, after: Tables, user_id: Seq<char>, r: Result<UserModel, DBError>) -> bool {
        if self.email is None && self.hash is None && self.salt is None {
            &&& after == before
            &&& r matches Err(error)
            &&& error is QueryBuilderError
        } else if !before.has_user(user_id) {
            &&& after == before
            &&& r matches Err(error)
            &&& error is NotFound
        } else {
            let i = before.index_of_user(user_id);
            if self.email is Some && before.email_of_another(self.email->0@, i) {
                &&& after == before
                &&& r matches Err(error)
                &&& is_statement_failure(error, DatabaseErrorKind::UniqueViolation, DUPLICATE_EMAIL@)
            } else {
                let row = changed_user(before.users[i], text_of(self.email), bytes_of(self.hash), text_of(self.salt));
                &&& r matches Ok(stored)
                &&& stored@ == row
                &&& after == before.with_users(before.users.update(i, row))
            }
        }
    }

    /// The change to this e-mail address and this password, where they are given: the
    /// password is kept as its digest with `salt`.
    pub fn new_with(email: Option<String>, password: Option<String>, salt: String) -> (r: UpdatedUserModel)
        requires
            password is Some ==> hashable(password->0@, salt@),
        ensures
            r.email == email,
            match password {
                Some(text) => r.salt == Some(salt) && bytes_of(r.hash) == Some(argon2i_digest(text@, salt@)),
                None => r.salt is None && r.hash is None,
            },
    {
        match password {
            Some(text) => {
                let hash = make_hash(text.as_str(), salt.as_str());
                UpdatedUserModel { email, hash: Some(hash), salt: Some(salt) }
            },
            None => UpdatedUserModel { email, hash: None, salt: None },
        }
    }

    /// The change to this e-mail address and this password, where they are given, with
    /// a salt that is drawn anew. A password that is too long to be hashed is left out
    /// of the change.
    pub fn new(email: Option<String>, password: Option<String>) -> (r: UpdatedUserModel)
        ensures
            r.email == email,
            password is None ==> r.salt is None && r.hash is None,
            r.hash is Some ==> password is Some && r.salt is Some && bytes_of(r.hash) == Some(
                argon2i_digest(password->0@, r.salt->0@),
            ),
    {
        match password {
            Some(text) => {
                let salt = make_salt();
                match try_make_hash(text.as_str(), salt.as_str()) {
                    Some(hash) => UpdatedUserModel { email, hash: Some(hash), salt: Some(salt) },
                    None => UpdatedUserModel { email, hash: None, salt: None },
                }
            },
            None => UpdatedUserModel { email, hash: None, salt: None },
        }
    }

    /// Changes the user.
    pub fn update(&self, user: &UserModel, db: &mut Database) -> (r: Result<UserModel, DBError>)
        requires
            old(db).wf(),
        ensures
            final(db).wf(),
            self.updated(old(db)@, final(db)@, user.id@, r),
    {
        if self.email.is_none() && self.hash.is_none() && self.salt.is_none() {
            return Err(DBError::QueryBuilderError);
        }
        let i = match db.user_index_by_id(user.id.as_str()) {
            Some(i) => i,
            None => {
                return Err(DBError::NotFound);
            },
        };
        proof {
            db@.lemma_unique_rows();
            assert(db@.index_of_user(db@.users[i as int].id) == i);
        }
        let email = match &self.email {
            Some(text) => Some(text.clone()),
            None => None,
        };
        let hash = match &self.hash {
            Some(bytes) => Some(copy_bytes(bytes)),
            None => None,
        };
        let salt = match &self.salt {
            Some(text) => Some(text.clone()),
            None => None,
        };
        let ghost before = db@;
        match db.update_user_at(i, email, hash, salt) {
            Ok(_) => {
                assert(db@.users.len() == before.users.len());
                assert(db.users@.len() == db@.users.len());
                let stored = copy_user(&db.users[i]);
                assert(stored@ == db@.users[i as int]);
                Ok(stored)
            },
            Err(error) => Err(error),
        }
    }
}

impl UserModel {
    pub fn id(&self) -> (r: &String)
        ensures
            r == &self.id,
    {
        &self.id
    }

    pub fn email(&self) -> (r: &String)
        ensures
            r == &self.email,
    {
        &self.email
    }

    /// When the user was made, in seconds since the epoch.
    pub fn created_at(&self) -> (r: i64)
        ensures
            r == self.created_at,
    {
        self.created_at
    }

    /// When the user was last changed, in seconds since the epoch.
    pub fn updated_at(&self) -> (r: i64)
        ensures
            r == self.updated_at,
    {
        self.updated_at
    }

    /// The accounts of the user at other providers that are shown with the user: none.
    pub fn providers(&self) -> (r: Vec<ExternalUserProviderModel>)
        ensures
            r@.len() == 0,
    {
        Vec::new()
    }
}

} // verus!
