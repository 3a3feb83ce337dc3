//! The session that a principal is handed: an access token, a refresh token, and the
//! principal they belong to.

use crate::clock::unix_now;
use crate::db::{Database, Tables, DUPLICATE_KEY, DUPLICATE_REFRESH_TOKEN};
use crate::env::EnvironmentValues;
use crate::errors::{SrvError, NO_INFO};
use crate::jwt::{create_token_at, issued_token, text_of, TOKEN_LIFETIME_SECONDS};
use crate::models::user::{UserModel, UserRow};
use crate::models::user_token::{refresh_deadline, NewUserTokenModel, TokenRow};
use crate::random::{is_uuid_text, new_cuid, random_uuid};
use vstd::prelude::*;

verus! {

/// A session as it is handed to the principal.
#[derive(Debug)]
pub struct Token {
    /// The signed access token.
    pub value: String,
    /// The value that can be exchanged once for a new session.
    pub refresh_token: String,
    pub user: UserModel,
}

/// What a new session is made of besides the principal: the moment, and the two
/// values that are drawn anew for it.
#[derive(Debug)]
pub struct SessionSeed {
    /// The moment of issue, in seconds since the epoch.
    pub now: i64,
    /// The refresh token of the session.
    pub refresh_token: String,
    /// The key of the session's row; absent where none could be drawn.
    pub token_id: Option<String>,
}

/// What the row of a session holds that is stored at `now` under `key`; `None` where
/// it has no key, or where the second at which its refresh token expires cannot be held.
pub open spec fn token_row(
    user_id: Seq<char>,
    access: Seq<char>,
    refresh: Seq<char>,
    now: i64,
    key: Option<Seq<char>>,
) -> Option<TokenRow> {
    if key is Some && refresh_deadline(now) is Some {
        Some(
            TokenRow {
                id: key->0,
                token: access,
                refresh_token: refresh,
                user_id,
                refresh_expire_at: refresh_deadline(now)->0,
                created_at: now,
                updated_at: now,
            },
        )
    } else {
        None
    }
}

/// What the row of a new session holds that is made from `seed`.
pub open spec fn session_row(user_id: Seq<char>, access: Seq<char>, seed: &SessionSeed) -> Option<TokenRow> {
    token_row(user_id, access, seed.refresh_token@, seed.now, text_of(seed.token_id))
}

/// `r` is the failure that a caller sees where a session's key, or else its refresh
/// token, is taken.
pub open spec fn is_duplicate(r: Result<Token, SrvError>, key_taken: bool) -> bool {
    &&& r matches Err(SrvError::Duplicate(d))
    &&& d.info@ == NO_INFO@
    &&& d.origin@ == if key_taken {
        DUPLICATE_KEY@
    } else {
        DUPLICATE_REFRESH_TOKEN@
    }
}

/// What storing the session `token` at `now` under `key` does to the store, and what
/// it returns.
///
/// A session without a key, or whose refresh token's last second cannot be held, is an
/// internal failure. A key or a refresh token that a session has is a duplicate, which
/// carries the store's message. In both cases the store stays as it was. Otherwise the
/// row is added behind the others and the session is handed back.
pub open spec fn stored(
    before: Tables,
    after: Tables,
    token: &Token,
    now: i64,
    key: Option<Seq<char>>,
    r: Result<Token, SrvError>,
) -> bool {
    match token_row(token.user.id@, token.value@, token.refresh_token@, now, key) {
        None => after == before && r matches Err(SrvError::InternalServerError),
        Some(row) => if before.has_token_id(row.id) || before.has_refresh_token(row.refresh_token) {
            after == before && is_duplicate(r, before.has_token_id(row.id))
        } else {
            &&& r matches Ok(same)
            &&& same.value@ == token.value@
            &&& same.refresh_token@ == token.refresh_token@
            &&& same.user@ == token.user@
            &&& after == before.with_tokens(before.user_tokens.push(row))
        },
    }
}

/// Whether a session for the user of this id can be issued from `seed` on these
/// tables: an access token can be made, the seed has a key, the second at which the
/// refresh token expires can be held, and no session has the key or the refresh token.
pub open spec fn can_issue(before: Tables, user_id: Seq<char>, env: &EnvironmentValues, seed: &SessionSeed) -> bool {
    match issued_token(user_id, env.domain@, env.jwt_private_key@, seed.now, TOKEN_LIFETIME_SECONDS) {
        None => false,
        Some(access) => match session_row(user_id, access, seed) {
            None => false,
            Some(row) => !before.has_token_id(row.id) && !before.has_refresh_token(row.refresh_token),
        },
    }
}

/// `r` is the failure with which issuing a session ends where `can_issue` does not
/// hold: a duplicate where all else is well and a session has the key or the refresh
/// token, an internal failure else.
pub open spec fn issue_failure(
    before: Tables,
    user_id: Seq<char>,
    env: &EnvironmentValues,
    seed: &SessionSeed,
    r: Result<Token, SrvError>,
) -> bool {
    match issued_token(user_id, env.domain@, env.jwt_private_key@, seed.now, TOKEN_LIFETIME_SECONDS) {
        None => r matches Err(SrvError::InternalServerError),
        Some(access) => match session_row(user_id, access, seed) {
            None => r matches Err(SrvError::InternalServerError),
            Some(row) => is_duplicate(r, before.has_token_id(row.id)),
        },
    }
}

/// What issuing a session for `user` from `seed` does to the store, and what it
/// returns.
///
/// Where it can be issued, the session holds the access token for the user, issued by
/// the settings' domain at the seed's moment for a day and signed with the settings'
/// secret, and the seed's refresh token, and its row is added behind the others under
/// the seed's key. Where it cannot, the store stays as it was.
pub open spec fn issued(
    before: Tables,
    after: Tables,
    user: UserRow,
    env: &EnvironmentValues,
    seed: &SessionSeed,
    r: Result<Token, SrvError>,
) -> bool {
    if can_issue(before, user.id, env, seed) {
        let access = issued_token(user.id, env.domain@, env.jwt_private_key@, seed.now, TOKEN_LIFETIME_SECONDS)->0;
        &&& r matches Ok(token)
        &&& token.value@ == access
        &&& token.refresh_token@ == seed.refresh_token@
        &&& token.user@ == user
        &&& after == before.with_tokens(before.user_tokens.push(session_row(user.id, access, seed)->0))
    } else {
        after == before && issue_failure(before, user.id, env, seed, r)
    }
}

impl SessionSeed {
    /// A seed for a session that is issued now: the present moment, a refresh token
    /// and a key, both drawn anew. The refresh token is a random identifier of 122
    /// random bits in its hyphenated form.
    pub fn draw() -> (r: SessionSeed)
        ensures
            is_uuid_text(r.refresh_token@),
    {
        SessionSeed { now: unix_now(), refresh_token: random_uuid(), token_id: new_cuid() }
    }
}

impl Token {
    /// The session for `user` with the access token issued at `now` and the given
    /// refresh token. Nothing is stored.
    pub fn from_user_at(user: UserModel, env: &EnvironmentValues, now: i64, refresh_token: String) -> (r: Result<
        Token,
        SrvError,
    >)
        ensures
            match issued_token(user.id@, env.domain@, env.jwt_private_key@, now, TOKEN_LIFETIME_SECONDS) {
                Some(access) => r matches Ok(token) && token.value@ == access && token.refresh_token@
                    == refresh_token@ && token.user@ == user@,
                None => r matches Err(SrvError::InternalServerError),
            },
    {
        match create_token_at(
            user.id.as_str(),
            env.domain.as_str(),
            env.jwt_private_key.as_str(),
            now,
            TOKEN_LIFETIME_SECONDS,
        ) {
            Some(value) => Ok(Token { value, refresh_token, user }),
            None => Err(SrvError::InternalServerError),
        }
    }

    /// The session for `user` with an access token issued now and a refresh token
    /// drawn anew: a random identifier of 122 random bits in its hyphenated form.
    /// Nothing is stored.
    pub fn from_user(user: UserModel, env: &EnvironmentValues) -> (r: Result<Token, SrvError>)
        ensures
            exists|now: i64|
                match #[trigger] issued_token(
                    user.id@,
                    env.domain@,
                    env.jwt_private_key@,
                    now,
                    TOKEN_LIFETIME_SECONDS,
                ) {
                    Some(access) => r matches Ok(token) && token.value@ == access && token.user@ == user@
                        && is_uuid_text(token.refresh_token@),
                    None => r matches Err(SrvError::InternalServerError),
                },
    {
        let now = unix_now();
        Token::from_user_at(user, env, now, random_uuid())
    }

    /// Stores the session at `now` under `key`.
    pub fn save_at(self, db: &mut Database, now: i64, key: Option<String>) -> (r: Result<Token, SrvError>)
        requires
            old(db).wf(),
        ensures
            final(db).wf(),
            stored(old(db)@, final(db)@, &self, now, text_of(key), r),
    {
        let values = NewUserTokenModel::new_at(
            key,
            Some(&self.value),
            Some(&self.refresh_token),
            Some(&self.user.id),
            now,
        );
        match values.save_at(db, now) {
            Ok(_) => Ok(self),
            Err(error) => Err(SrvError::from_db(error)),
        }
    }

    /// Stores the session now, under a key that is drawn anew.
    pub fn save(self, db: &mut Database) -> (r: Result<Token, SrvError>)
        requires
            old(db).wf(),
        ensures
            final(db).wf(),
            exists|now: i64, key: Option<Seq<char>>| #[trigger] stored(old(db)@, final(db)@, &self, now, key, r),
    {
        let now = unix_now();
        let key = new_cuid();
        let r = self.save_at(db, now, key);
        proof {
            assert(stored(old(db)@, db@, &self, now, text_of(key), r));
        }
        r
    }
}

/// Issues a session for `user` from `seed` and stores it.
pub fn issue_for(db: &mut Database, user: UserModel, env: &EnvironmentValues, seed: SessionSeed) -> (r: Result<
    Token,
    SrvError,
>)
    requires
        old(db).wf(),
    ensures
        final(db).wf(),
        issued(old(db)@, final(db)@, user@, env, &seed, r),
{
    let refresh_token = seed.refresh_token.clone();
    match Token::from_user_at(user, env, seed.now, refresh_token) {
        Ok(token) => token.save_at(db, seed.now, seed.token_id),
        Err(error) => Err(error),
    }
}

impl Token {
    /// The signed access token.
    pub fn value(&self) -> (r: &String)
        ensures
            r == &self.value,
    {
        &self.value
    }

    /// The value that can be exchanged once for a new session.
    pub fn refresh_token(&self) -> (r: &String)
        ensures
            r == &self.refresh_token,
    {
        &self.refresh_token
    }

    /// The user that the session belongs to.
    pub fn user(&self) -> (r: &UserModel)
        ensures
            r == &self.user,
    {
        &self.user
    }
}

} // verus!
