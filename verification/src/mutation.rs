//! The operations that make, renew and end sessions.

use crate::argon::{argon2i_digest, digest_of, hashable, make_salt, same_bytes, try_make_hash, MAX_INPUT_BYTES, MIN_SALT_BYTES};
use crate::authorization::USER_ITEM_NAME;
use crate::authorization::NOT_AUTHENTICATED;
use crate::context::Context;
use crate::db::{
    changed_user, DUPLICATE_EMAIL, column_of, lemma_rows_without, lemma_rows_without_len, rows_without, Database, Tables, TokenColumn, DUPLICATE_KEY,
    DUPLICATE_REFRESH_TOKEN,
};
use crate::env::EnvironmentValues;
use crate::errors::{violation_views, DuplicateErrorInfo, SrvError, NO_INFO};
use crate::input::{UserExternalDataInput, UserLoginInput, UserRegisterInput, UserUpdateInput};
use crate::models::external_user_provider::UserProvider;
use crate::jwt::text_of;
use crate::models::auth::NewAuthAssignmentModel;
use crate::jwt::{create_token_at, TOKEN_LIFETIME_SECONDS};
use crate::models::user::{copy_user, NewUser, UpdatedUserModel, UserRow, UserSeed};
use crate::models::user_token::{TokenRow, DURATION_OF_REFRESH_TOKEN_IN_MINUTES};
use crate::text::same_text;
use crate::token::{can_issue, issue_failure, issue_for, issued, SessionSeed, Token};
use vstd::prelude::*;

verus! {

/// The words with which a login is turned away that names no user.
pub const WRONG_IDENTIFIER: &'static str = "wrong identifier";

/// The words with which a login is turned away whose password is not the user's.
pub const WRONG_CREDENTIAL: &'static str = "wrong credential";

/// The words with which a refresh token is turned away that no session has, or whose
/// last second has passed.
pub const INVALID_REFRESH_TOKEN: &'static str = "invalid refresh token";

/// Among the first `upto` rows, one that does not hold `value` in `column` has this id.
pub open spec fn staying_row_has_id(
    rows: Seq<TokenRow>,
    upto: int,
    column: TokenColumn,
    value: Seq<char>,
    id: Seq<char>,
) -> bool {
    exists|k: int| 0 <= k < upto && column_of(#[trigger] rows[k], column) != value && rows[k].id == id
}

/// Among the first `upto` rows, one that does not hold `value` in `column` has this
/// refresh token.
pub open spec fn staying_row_has_refresh(
    rows: Seq<TokenRow>,
    upto: int,
    column: TokenColumn,
    value: Seq<char>,
    refresh: Seq<char>,
) -> bool {
    exists|k: int| 0 <= k < upto && column_of(#[trigger] rows[k], column) != value && rows[k].refresh_token == refresh
}

/// What the rows that stay hold is what the rows without the deleted ones hold.
pub proof fn lemma_staying_rows(tables: Tables, column: TokenColumn, value: Seq<char>, text: Seq<char>)
    ensures
        staying_row_has_id(tables.user_tokens, tables.user_tokens.len() as int, column, value, text)
            <==> tables.with_tokens(rows_without(tables.user_tokens, column, value)).has_token_id(text),
        staying_row_has_refresh(tables.user_tokens, tables.user_tokens.len() as int, column, value, text)
            <==> tables.with_tokens(rows_without(tables.user_tokens, column, value)).has_refresh_token(text),
{
    let rows = tables.user_tokens;
    let kept = rows_without(rows, column, value);
    let mid = tables.with_tokens(kept);
    lemma_rows_without(rows, column, value);
    if staying_row_has_id(rows, rows.len() as int, column, value, text) {
        let k = choose|k: int| 0 <= k < rows.len() && column_of(#[trigger] rows[k], column) != value && rows[k].id == text;
        assert(kept.contains(rows[k]));
        let j = choose|j: int| 0 <= j < kept.len() && kept[j] == rows[k];
        assert(mid.user_tokens[j].id == text);
    }
    if mid.has_token_id(text) {
        let j = choose|j: int| 0 <= j < kept.len() && (#[trigger] mid.user_tokens[j]).id == text;
        assert(column_of(kept[j], column) != value && rows.contains(kept[j]));
        let k = choose|k: int| 0 <= k < rows.len() && rows[k] == kept[j];
        assert(column_of(rows[k], column) != value && rows[k].id == text);
    }
    if staying_row_has_refresh(rows, rows.len() as int, column, value, text) {
        let k = choose|k: int|
            0 <= k < rows.len() && column_of(#[trigger] rows[k], column) != value && rows[k].refresh_token == text;
        assert(kept.contains(rows[k]));
        let j = choose|j: int| 0 <= j < kept.len() && kept[j] == rows[k];
        assert(mid.user_tokens[j].refresh_token == text);
    }
    if mid.has_refresh_token(text) {
        let j = choose|j: int| 0 <= j < kept.len() && (#[trigger] mid.user_tokens[j]).refresh_token == text;
        assert(column_of(kept[j], column) != value && rows.contains(kept[j]));
        let k = choose|k: int| 0 <= k < rows.len() && rows[k] == kept[j];
        assert(column_of(rows[k], column) != value && rows[k].refresh_token == text);
    }
}

/// What stands against issuing a session for the user once the sessions that hold
/// `value` in `column` are deleted, if anything does. The store is not changed.
pub fn issue_obstacle(
    db: &Database,
    column: TokenColumn,
    value: &str,
    user_id: &str,
    env: &EnvironmentValues,
    seed: &SessionSeed,
) -> (r: Option<SrvError>)
    ensures
        ({
            let mid = db@.with_tokens(rows_without(db@.user_tokens, column, value@));
            match r {
                None => can_issue(mid, user_id@, env, seed),
                Some(error) => !can_issue(mid, user_id@, env, seed) && issue_failure(
                    mid,
                    user_id@,
                    env,
                    seed,
                    Err::<Token, SrvError>(error),
                ),
            }
        }),
{
    let access = create_token_at(
        user_id,
        env.domain.as_str(),
        env.jwt_private_key.as_str(),
        seed.now,
        TOKEN_LIFETIME_SECONDS,
    );
    if access.is_none() {
        return Some(SrvError::InternalServerError);
    }
    let id = match &seed.token_id {
        Some(id) => id,
        None => {
            return Some(SrvError::InternalServerError);
        },
    };
    if seed.now.checked_add(DURATION_OF_REFRESH_TOKEN_IN_MINUTES * 60).is_none() {
        return Some(SrvError::InternalServerError);
    }
    let ghost rows = db@.user_tokens;
    let mut key_taken = false;
    let mut refresh_taken = false;
    let mut i: usize = 0;
    while i < db.user_tokens.len()
        invariant
            0 <= i <= db.user_tokens@.len(),
            rows == db@.user_tokens,
            key_taken == staying_row_has_id(rows, i as int, column, value@, id@),
            refresh_taken == staying_row_has_refresh(rows, i as int, column, value@, seed.refresh_token@),
        decreases db.user_tokens@.len() - i,
    {
        let row = &db.user_tokens[i];
        let held = match column {
            TokenColumn::Id => &row.id,
            TokenColumn::Token => &row.token,
            TokenColumn::RefreshToken => &row.refresh_token,
            TokenColumn::UserId => &row.user_id,
        };
        assert(held@ == column_of(rows[i as int], column));
        let stays = !same_text(held.as_str(), value);
        let ghost key_before = key_taken;
        let ghost refresh_before = refresh_taken;
        if stays && same_text(row.id.as_str(), id.as_str()) {
            key_taken = true;
        }
        if stays && same_text(row.refresh_token.as_str(), seed.refresh_token.as_str()) {
            refresh_taken = true;
        }
        proof {
            if staying_row_has_id(rows, i + 1, column, value@, id@) {
                let k = choose|k: int|
                    0 <= k < i + 1 && column_of(#[trigger] rows[k], column) != value@ && rows[k].id == id@;
                if k < i {
                    assert(staying_row_has_id(rows, i as int, column, value@, id@));
                }
            }
            if key_before {
                let k = choose|k: int|
                    0 <= k < i && column_of(#[trigger] rows[k], column) != value@ && rows[k].id == id@;
                assert(column_of(rows[k], column) != value@);
            }
            if staying_row_has_refresh(rows, i + 1, column, value@, seed.refresh_token@) {
                let k = choose|k: int|
                    0 <= k < i + 1 && column_of(#[trigger] rows[k], column) != value@ && rows[k].refresh_token
                        == seed.refresh_token@;
                if k < i {
                    assert(staying_row_has_refresh(rows, i as int, column, value@, seed.refresh_token@));
                }
            }
            if refresh_before {
                let k = choose|k: int|
                    0 <= k < i && column_of(#[trigger] rows[k], column) != value@ && rows[k].refresh_token
                        == seed.refresh_token@;
                assert(column_of(rows[k], column) != value@);
            }
        }
        i += 1;
    }
    proof {
        lemma_staying_rows(db@, column, value@, id@);
        lemma_staying_rows(db@, column, value@, seed.refresh_token@);
    }
    if key_taken {
        Some(SrvError::Duplicate(DuplicateErrorInfo { origin: DUPLICATE_KEY.to_owned(), info: NO_INFO.to_owned() }))
    } else if refresh_taken {
        Some(
            SrvError::Duplicate(
                DuplicateErrorInfo { origin: DUPLICATE_REFRESH_TOKEN.to_owned(), info: NO_INFO.to_owned() },
            ),
        )
    } else {
        None
    }
}

/// What a session is, or why there is none.
pub type AuthResult = Result<Token, SrvError>;

/// What a login does to the store, and what it returns.
///
/// An input that breaks its rules fails with the rules it breaks. An e-mail address
/// that no user has is turned away as a wrong identifier, a password whose digest with
/// the user's salt is not the user's as a wrong credential; the store stays as it was.
/// Otherwise a session is issued for the user.
pub open spec fn logged_in(
    before: Tables,
    after: Tables,
    env: &EnvironmentValues,
    input: &UserLoginInput,
    seed: &SessionSeed,
    r: AuthResult,
) -> bool {
    if input.violations().len() > 0 {
        &&& after == before
        &&& r matches Err(SrvError::ValidationError(list))
        &&& violation_views(list@) == input.violations()
    } else if !before.has_email(input.email@) {
        &&& after == before
        &&& r matches Err(error)
        &&& error.is_unauthorized(WRONG_IDENTIFIER@)
    } else {
        let user = before.user_with_email(input.email@);
        if digest_of(input.password@, user.salt) != Some(user.hash) {
            &&& after == before
        &&& r matches Err(error)
        &&& error.is_unauthorized(WRONG_CREDENTIAL@)
        } else {
            issued(before, after, user, env, seed, r)
        }
    }
}

/// What exchanging a refresh token does to the store, and what it returns.
///
/// A value that no session has, or whose last second lies before the seed's moment, is
/// turned away as an invalid refresh token. A session whose user is gone fails as not
/// found. Otherwise the session is deleted and a new one is issued for its user; where
/// that cannot be issued, the failure is the one of issuing, and the old session stays.
/// Whenever the exchange fails, the store stays as it was.
pub open spec fn refreshed(
    before: Tables,
    after: Tables,
    env: &EnvironmentValues,
    value: Seq<char>,
    seed: &SessionSeed,
    r: AuthResult,
) -> bool {
    if !before.has_live_refresh_token(value, seed.now) {
        &&& after == before
        &&& r matches Err(error)
        &&& error.is_unauthorized(INVALID_REFRESH_TOKEN@)
    } else {
        let row = before.live_refresh_row(value, seed.now);
        if !before.has_user(row.user_id) {
            after == before && r matches Err(SrvError::NotFound)
        } else {
            let user = before.user_with_id(row.user_id);
            let mid = before.with_tokens(rows_without(before.user_tokens, TokenColumn::Id, row.id));
            if can_issue(mid, user.id, env, seed) {
                issued(mid, after, user, env, seed, r)
            } else {
                after == before && issue_failure(mid, user.id, env, seed, r)
            }
        }
    }
}

/// Logs a user in at the seed's moment.
pub fn login_at(db: &mut Database, env: &EnvironmentValues, input: UserLoginInput, seed: SessionSeed) -> (r: AuthResult)
    requires
        old(db).wf(),
    ensures
        final(db).wf(),
        logged_in(old(db)@, final(db)@, env, &input, &seed, r),
{
    match input.validate() {
        Err(error) => {
            return Err(error);
        },
        Ok(_) => {},
    }
    let i = match db.user_index_by_email(input.email.as_str()) {
        Some(i) => i,
        None => {
            return Err(SrvError::unauthorized(WRONG_IDENTIFIER));
        },
    };
    proof {
        db@.lemma_unique_rows();
        assert(db@.user_with_email(db@.users[i as int].email) == db@.users[i as int]);
    }
    let matches = match try_make_hash(input.password.as_str(), db.users[i].salt.as_str()) {
        Some(hash) => same_bytes(&hash, &db.users[i].hash),
        None => false,
    };
    if !matches {
        return Err(SrvError::unauthorized(WRONG_CREDENTIAL));
    }
    let user = copy_user(&db.users[i]);
    issue_for(db, user, env, seed)
}

/// Logs a user in now.
pub fn login(db: &mut Database, env: &EnvironmentValues, input: UserLoginInput) -> (r: AuthResult)
    requires
        old(db).wf(),
    ensures
        final(db).wf(),
        exists|seed: SessionSeed| #[trigger] logged_in(old(db)@, final(db)@, env, &input, &seed, r),
{
    let seed = SessionSeed::draw();
    let r = login_at(db, env, input, seed);
    proof {
        assert(logged_in(old(db)@, db@, env, &input, &seed, r));
    }
    r
}

/// Exchanges a refresh token for a new session at the seed's moment.
pub fn refresh_token_at(db: &mut Database, env: &EnvironmentValues, refresh_token: &str, seed: SessionSeed) -> (r:
    AuthResult)
    requires
        old(db).wf(),
    ensures
        final(db).wf(),
        refreshed(old(db)@, final(db)@, env, refresh_token@, &seed, r),
{
    let i = match db.live_refresh_index(refresh_token, seed.now) {
        Some(i) => i,
        None => {
            return Err(SrvError::unauthorized(INVALID_REFRESH_TOKEN));
        },
    };
    proof {
        db@.lemma_unique_rows();
        assert(db@.has_live_refresh_token(refresh_token@, seed.now));
        assert(db@.live_refresh_row(refresh_token@, seed.now) == db@.user_tokens[i as int]);
    }
    let u = match db.user_index_by_id(db.user_tokens[i].user_id.as_str()) {
        Some(u) => u,
        None => {
            return Err(SrvError::NotFound);
        },
    };
    proof {
        assert(db@.user_with_id(db@.users[u as int].id) == db@.users[u as int]);
    }
    let user = copy_user(&db.users[u]);
    let row_id = db.user_tokens[i].id.clone();
    match issue_obstacle(db, TokenColumn::Id, row_id.as_str(), user.id.as_str(), env, &seed) {
        Some(error) => Err(error),
        None => {
            db.delete_tokens(TokenColumn::Id, row_id.as_str());
            issue_for(db, user, env, seed)
        },
    }
}

/// Exchanges a refresh token for a new session now.
pub fn refresh_token(db: &mut Database, env: &EnvironmentValues, value: String) -> (r: AuthResult)
    requires
        old(db).wf(),
    ensures
        final(db).wf(),
        exists|seed: SessionSeed| #[trigger] refreshed(old(db)@, final(db)@, env, value@, &seed, r),
{
    let seed = SessionSeed::draw();
    let r = refresh_token_at(db, env, value.as_str(), seed);
    proof {
        assert(refreshed(old(db)@, db@, env, value@, &seed, r));
    }
    r
}

/// Ends the session of the request: deletes the sessions that have the request's
/// access token, and says whether there was one. A request without a principal is
/// turned away.
pub fn logout(context: &Context, db: &mut Database) -> (r: Result<bool, SrvError>)
    requires
        old(db).wf(),
        context.wf(),
    ensures
        final(db).wf(),
        match context.user {
            None => {
                &&& final(db)@ == old(db)@
                &&& r matches Err(error)
                &&& error.is_unauthorized(NOT_AUTHENTICATED@)
            },
            Some(_) => {
                &&& r matches Ok(deleted)
                &&& deleted == old(db)@.has_access_token(context.user_token->0@)
                &&& final(db)@ == old(db)@.with_tokens(
                    rows_without(old(db)@.user_tokens, TokenColumn::Token, context.user_token->0@),
                )
            },
        },
{
    if context.user.is_none() {
        return Err(SrvError::unauthorized(NOT_AUTHENTICATED));
    }
    let token = match &context.user_token {
        Some(token) => token,
        None => {
            return Ok(false);
        },
    };
    let count = db.delete_tokens(TokenColumn::Token, token.as_str());
    proof {
        let rows = old(db)@.user_tokens;
        lemma_rows_without_len(rows, TokenColumn::Token, token@);
        lemma_rows_without(rows, TokenColumn::Token, token@);
        if old(db)@.has_access_token(token@) {
            let k = choose|k: int| 0 <= k < rows.len() && (#[trigger] rows[k]).token == token@;
            assert(column_of(rows[k], TokenColumn::Token) == token@);
        }
    }
    Ok(count > 0)
}

/// Ends every session of a user.
pub fn invalidate_all(db: &mut Database, user_id: &str)
    requires
        old(db).wf(),
    ensures
        final(db).wf(),
        final(db)@ == old(db)@.with_tokens(rows_without(old(db)@.user_tokens, TokenColumn::UserId, user_id@)),
        !final(db)@.has_session_of(user_id@),
{
    db.delete_tokens(TokenColumn::UserId, user_id);
    proof {
        lemma_rows_without(old(db)@.user_tokens, TokenColumn::UserId, user_id@);
        if db@.has_session_of(user_id@) {
            let k = choose|k: int| 0 <= k < db@.user_tokens.len() && (#[trigger] db@.user_tokens[k]).user_id == user_id@;
            assert(column_of(db@.user_tokens[k], TokenColumn::UserId) != user_id@);
        }
    }
}

/// Logs in a principal of another provider. No provider is served.
pub fn login_with_external_user(input: UserExternalDataInput) -> (r: AuthResult)
    ensures
        r matches Err(SrvError::Unavailable),
{
    let UserExternalDataInput { token, provider } = input;
    match provider {
        UserProvider::Facebook => login_with_facebook(token),
        UserProvider::Google => login_with_google(token),
        UserProvider::Apple => login_with_apple(token),
    }
}

/// Logs in a principal of Facebook, which is not served.
pub fn login_with_facebook(token: String) -> (r: AuthResult)
    ensures
        r matches Err(SrvError::Unavailable),
{
    Err(SrvError::Unavailable)
}

/// Logs in a principal of Google, which is not served.
pub fn login_with_google(token: String) -> (r: AuthResult)
    ensures
        r matches Err(SrvError::Unavailable),
{
    Err(SrvError::Unavailable)
}

/// Logs in a principal of Apple, which is not served.
pub fn login_with_apple(token: String) -> (r: AuthResult)
    ensures
        r matches Err(SrvError::Unavailable),
{
    Err(SrvError::Unavailable)
}

/// A refresh token can be exchanged once. After an exchange that succeeded, the value
/// that was handed in is turned away as an invalid refresh token, at whatever moment it
/// comes again, and the store stays as the first exchange left it.
///
/// The new session's refresh token must differ from the one handed in: were the two the
/// same value, that value would be the new session's.
pub proof fn law_refresh_token_is_spent(
    before: Tables,
    after: Tables,
    env: &EnvironmentValues,
    value: Seq<char>,
    seed: &SessionSeed,
    r: AuthResult,
    later: Tables,
    again: &SessionSeed,
    second: AuthResult,
)
    requires
        before.wf(),
        refreshed(before, after, env, value, seed, r),
        r is Ok,
        seed.refresh_token@ != value,
        refreshed(after, later, env, value, again, second),
    ensures
        later == after,
        second matches Err(error) && error.is_unauthorized(INVALID_REFRESH_TOKEN@),
{
    let row = before.live_refresh_row(value, seed.now);
    let at = choose|i: int| #[trigger] before.live_refresh_at(i, value, seed.now);
    assert(before.user_tokens[at] == row);
    let kept = rows_without(before.user_tokens, TokenColumn::Id, row.id);
    let mid = before.with_tokens(kept);
    lemma_rows_without(before.user_tokens, TokenColumn::Id, row.id);
    if after.has_live_refresh_token(value, again.now) {
        let j = choose|j: int| #[trigger] after.live_refresh_at(j, value, again.now);
        if j < kept.len() {
            assert(after.user_tokens[j] == kept[j]);
            assert(column_of(kept[j], TokenColumn::Id) != row.id && before.user_tokens.contains(kept[j]));
            let k = choose|k: int| 0 <= k < before.user_tokens.len() && before.user_tokens[k] == kept[j];
            if k < at {
                assert(before.user_tokens[k].refresh_token != before.user_tokens[at].refresh_token);
            } else if at < k {
                assert(before.user_tokens[at].refresh_token != before.user_tokens[k].refresh_token);
            }
        }
    }
}

/// When all sessions of a user are ended, none of them is of use any more: none of
/// their refresh tokens is one that a session has, so each is turned away when it is
/// handed in, and with none of their access tokens is the user the principal of a
/// request, so each such request is turned away as not authenticated.
pub proof fn law_ended_sessions_are_gone(before: Tables, user_id: Seq<char>, i: int, now: i64)
    requires
        before.wf(),
        0 <= i < before.user_tokens.len(),
        before.user_tokens[i].user_id == user_id,
    ensures
        ({
            let after = before.with_tokens(rows_without(before.user_tokens, TokenColumn::UserId, user_id));
            &&& !after.has_live_refresh_token(before.user_tokens[i].refresh_token, now)
            &&& !after.has_session(user_id, before.user_tokens[i].token)
            &&& !after.has_session_of(user_id)
        }),
{
    let rows = before.user_tokens;
    let kept = rows_without(rows, TokenColumn::UserId, user_id);
    let after = before.with_tokens(kept);
    lemma_rows_without(rows, TokenColumn::UserId, user_id);
    if after.has_live_refresh_token(rows[i].refresh_token, now) {
        let j = choose|j: int| #[trigger] after.live_refresh_at(j, rows[i].refresh_token, now);
        assert(column_of(kept[j], TokenColumn::UserId) != user_id && rows.contains(kept[j]));
        let k = choose|k: int| 0 <= k < rows.len() && rows[k] == kept[j];
        if k < i {
            assert(rows[k].refresh_token != rows[i].refresh_token);
        } else if i < k {
            assert(rows[i].refresh_token != rows[k].refresh_token);
        }
    }
    if after.has_session(user_id, rows[i].token) {
        let j = choose|j: int|
            0 <= j < kept.len() && (#[trigger] after.user_tokens[j]).user_id == user_id && after.user_tokens[j].token
                == rows[i].token;
        assert(column_of(kept[j], TokenColumn::UserId) != user_id);
    }
    if after.has_session_of(user_id) {
        let j = choose|j: int| 0 <= j < kept.len() && (#[trigger] after.user_tokens[j]).user_id == user_id;
        assert(column_of(kept[j], TokenColumn::UserId) != user_id);
    }
}

/// The refresh token of a session that cannot use it any more is turned away, and the
/// store stays as it was.
pub proof fn law_expired_refresh_token_is_turned_away(
    before: Tables,
    after: Tables,
    env: &EnvironmentValues,
    value: Seq<char>,
    seed: &SessionSeed,
    r: AuthResult,
)
    requires
        forall|i: int|
            0 <= i < before.user_tokens.len() && (#[trigger] before.user_tokens[i]).refresh_token == value
                ==> before.user_tokens[i].refresh_expire_at < seed.now,
        refreshed(before, after, env, value, seed, r),
    ensures
        after == before,
        r matches Err(error) && error.is_unauthorized(INVALID_REFRESH_TOKEN@),
{
    if before.has_live_refresh_token(value, seed.now) {
        let i = choose|i: int| #[trigger] before.live_refresh_at(i, value, seed.now);
        assert(before.user_tokens[i].refresh_token == value);
    }
}

/// `r` is the duplicate that a caller sees for a value that the store has already.
pub open spec fn is_duplicate_of(r: AuthResult, origin: Seq<char>) -> bool {
    r matches Err(SrvError::Duplicate(d)) && d.origin@ == origin && d.info@ == NO_INFO@
}

/// What a change of e-mail address or password does to the store, and what it
/// returns.
///
/// A request without a principal is turned away. An input that breaks its rules fails
/// with the rules it breaks. A password of which no digest can be made with the salt,
/// and an input that changes nothing, are internal failures. A principal that the store
/// does not hold is not found. An e-mail address that another user has is a duplicate.
/// Otherwise the user's row takes the new values, all sessions of the user are ended,
/// and a new one is issued; where that cannot be issued, the failure is the one of
/// issuing. Whenever the change fails, the store stays as it was.
pub open spec fn user_updated(
    before: Tables,
    after: Tables,
    context: &Context,
    env: &EnvironmentValues,
    input: &UserUpdateInput,
    salt: Seq<char>,
    seed: &SessionSeed,
    r: AuthResult,
) -> bool {
    if context.user is None {
        &&& after == before
        &&& r matches Err(error)
        &&& error.is_unauthorized(NOT_AUTHENTICATED@)
    } else if input.violations().len() > 0 {
        &&& after == before
        &&& r matches Err(SrvError::ValidationError(list))
        &&& violation_views(list@) == input.violations()
    } else if input.password is Some && !hashable(input.password->0@, salt) {
        after == before && r matches Err(SrvError::InternalServerError)
    } else if input.email is None && input.password is None {
        after == before && r matches Err(SrvError::InternalServerError)
    } else if !before.has_user(context.user->0.id@) {
        after == before && r matches Err(SrvError::NotFound)
    } else {
        let i = before.index_of_user(context.user->0.id@);
        if input.email is Some && before.email_of_another(input.email->0@, i) {
            after == before && is_duplicate_of(r, DUPLICATE_EMAIL@)
        } else {
            let row = changed_user(
                before.users[i],
                text_of(input.email),
                match input.password {
                    Some(password) => Some(argon2i_digest(password@, salt)),
                    None => None,
                },
                match input.password {
                    Some(_) => Some(salt),
                    None => None,
                },
            );
            let mid = before.with_users(before.users.update(i, row)).with_tokens(
                rows_without(before.user_tokens, TokenColumn::UserId, row.id),
            );
            if can_issue(mid, row.id, env, seed) {
                issued(mid, after, row, env, seed, r)
            } else {
                after == before && issue_failure(mid, row.id, env, seed, r)
            }
        }
    }
}

/// Changes the e-mail address, the password, or both, of the request's principal at
/// the seed's moment. A new password is kept as its digest with `salt`.
pub fn update_user_at(
    context: &Context,
    db: &mut Database,
    env: &EnvironmentValues,
    input: UserUpdateInput,
    salt: String,
    seed: SessionSeed,
) -> (r: AuthResult)
    requires
        old(db).wf(),
    ensures
        final(db).wf(),
        user_updated(old(db)@, final(db)@, context, env, &input, salt@, &seed, r),
{
    let user = match &context.user {
        Some(user) => user,
        None => {
            return Err(SrvError::unauthorized(NOT_AUTHENTICATED));
        },
    };
    match input.validate() {
        Err(error) => {
            return Err(error);
        },
        Ok(_) => {},
    }
    if let Some(password) = &input.password {
        let password_bytes = password.as_str().as_bytes().len();
        let salt_bytes = salt.as_str().as_bytes().len();
        if !(password_bytes <= MAX_INPUT_BYTES && MIN_SALT_BYTES <= salt_bytes && salt_bytes <= MAX_INPUT_BYTES) {
            return Err(SrvError::InternalServerError);
        }
    }
    if input.email.is_none() && input.password.is_none() {
        return Err(SrvError::InternalServerError);
    }
    let i = match db.user_index_by_id(user.id.as_str()) {
        Some(i) => i,
        None => {
            return Err(SrvError::NotFound);
        },
    };
    proof {
        db@.lemma_unique_rows();
        assert(db@.index_of_user(db@.users[i as int].id) == i);
    }
    if let Some(address) = &input.email {
        if db.email_taken_by_another(address.as_str(), i) {
            return Err(
                SrvError::Duplicate(DuplicateErrorInfo { origin: DUPLICATE_EMAIL.to_owned(), info: NO_INFO.to_owned() }),
            );
        }
    }
    let ghost before = db@;
    let ghost password_text = text_of(input.password);
    let ghost row = changed_user(
        before.users[i as int],
        text_of(input.email),
        match password_text {
            Some(password) => Some(argon2i_digest(password, salt@)),
            None => None,
        },
        match password_text {
            Some(_) => Some(salt@),
            None => None,
        },
    );
    let ghost kept = rows_without(before.user_tokens, TokenColumn::UserId, user.id@);
    let ghost mid = before.with_users(before.users.update(i as int, row)).with_tokens(kept);
    let ghost checked = before.with_tokens(kept);
    proof {
        assert(row.id == user.id@);
        assert(mid.user_tokens == checked.user_tokens);
        assert(mid.has_token_id(seed.token_id->0@) == checked.has_token_id(seed.token_id->0@));
        assert(mid.has_refresh_token(seed.refresh_token@) == checked.has_refresh_token(seed.refresh_token@));
        assert(can_issue(mid, row.id, env, &seed) == can_issue(checked, user.id@, env, &seed));
    }
    match issue_obstacle(db, TokenColumn::UserId, user.id.as_str(), user.id.as_str(), env, &seed) {
        Some(error) => {
            proof {
                let failure = Err::<Token, SrvError>(error);
                assert(issue_failure(checked, user.id@, env, &seed, failure));
                assert(issue_failure(mid, row.id, env, &seed, failure));
            }
            return Err(error);
        },
        None => {},
    }
    let change = UpdatedUserModel::new_with(input.email, input.password, salt);
    match change.update(user, db) {
        Ok(updated) => {
            assert(updated@ == row);
            invalidate_all(db, user.id.as_str());
            assert(db@ == mid);
            issue_for(db, updated, env, seed)
        },
        Err(_) => Err(SrvError::InternalServerError),
    }
}

/// Changes the e-mail address, the password, or both, of the request's principal now,
/// with a salt that is drawn anew.
pub fn update_user(context: &Context, db: &mut Database, env: &EnvironmentValues, input: UserUpdateInput) -> (r:
    AuthResult)
    requires
        old(db).wf(),
    ensures
        final(db).wf(),
        exists|salt: Seq<char>, seed: SessionSeed| #[trigger]
            user_updated(old(db)@, final(db)@, context, env, &input, salt, &seed, r),
{
    let salt = make_salt();
    let seed = SessionSeed::draw();
    let ghost salt_text = salt@;
    let r = update_user_at(context, db, env, input, salt, seed);
    proof {
        assert(user_updated(old(db)@, db@, context, env, &input, salt_text, &seed, r));
    }
    r
}

/// What the row of a new user holds; `None` where it has no key, or where no digest
/// can be made of the password with the seed's salt.
pub open spec fn new_user_row(email: Seq<char>, password: Seq<char>, seed: &UserSeed) -> Option<UserRow> {
    if seed.id is Some && hashable(password, seed.salt@) {
        Some(
            UserRow {
                id: seed.id->0@,
                hash: argon2i_digest(password, seed.salt@),
                salt: seed.salt@,
                email,
                created_at: seed.now,
                updated_at: seed.now,
                deleted: false,
            },
        )
    } else {
        None
    }
}

/// What a registration does to the store, and what it returns.
///
/// An input that breaks its rules fails with the rules it breaks. A user without a
/// key or without a digest is an internal failure; an id or an e-mail address that a
/// user has is a duplicate. Up to here the store stays as it was. Then the user is
/// stored, and stays stored whatever follows: it is assigned the role of a user, which
/// fails as a duplicate where it has that role already, and a session is issued for
/// it.
pub open spec fn registered(
    before: Tables,
    after: Tables,
    env: &EnvironmentValues,
    input: &UserRegisterInput,
    user_seed: &UserSeed,
    seed: &SessionSeed,
    r: AuthResult,
) -> bool {
    if input.violations().len() > 0 {
        &&& after == before
        &&& r matches Err(SrvError::ValidationError(list))
        &&& violation_views(list@) == input.violations()
    } else {
        match new_user_row(input.email@, input.password@, user_seed) {
            None => after == before && r matches Err(SrvError::InternalServerError),
            Some(row) => if before.has_user(row.id) {
                after == before && is_duplicate_of(r, DUPLICATE_KEY@)
            } else if before.has_email(row.email) {
                after == before && is_duplicate_of(r, DUPLICATE_EMAIL@)
            } else {
                let with_user = before.with_users(before.users.push(row));
                if with_user.has_assignment(USER_ITEM_NAME@, row.id) {
                    after == with_user && is_duplicate_of(r, DUPLICATE_KEY@)
                } else {
                    &&& after.auth_assignments.len() == before.auth_assignments.len() + 1
                    &&& after.auth_assignments.last().item_name@ == USER_ITEM_NAME@
                    &&& after.auth_assignments.last().user_id@ == row.id
                    &&& after.auth_assignments.last().created_at == user_seed.now
                    &&& issued(
                        with_user.with_assignments(before.auth_assignments.push(after.auth_assignments.last())),
                        after,
                        row,
                        env,
                        seed,
                        r,
                    )
                }
            },
        }
    }
}

/// Registers a user from the two seeds: stores the user, assigns it the role of a
/// user, and issues its first session.
pub fn register_at(
    db: &mut Database,
    env: &EnvironmentValues,
    input: UserRegisterInput,
    user_seed: UserSeed,
    seed: SessionSeed,
) -> (r: AuthResult)
    requires
        old(db).wf(),
    ensures
        final(db).wf(),
        registered(old(db)@, final(db)@, env, &input, &user_seed, &seed, r),
{
    match input.validate() {
        Err(error) => {
            return Err(error);
        },
        Ok(_) => {},
    }
    let now = user_seed.now;
    let ghost seed_view = user_seed;
    let new_user = NewUser::new_at(&input.email, &input.password, user_seed);
    proof {
        assert(new_user.row() == new_user_row(input.email@, input.password@, &seed_view));
    }
    let user = match new_user.save(db) {
        Ok(user) => user,
        Err(error) => {
            return Err(SrvError::from_db(error));
        },
    };
    match NewAuthAssignmentModel::new(USER_ITEM_NAME, user.id.as_str()).save_at(db, now) {
        Ok(_) => {},
        Err(error) => {
            return Err(SrvError::from_db(error));
        },
    }
    proof {
        let stored = db@.auth_assignments.last();
        assert(db@.auth_assignments =~= old(db)@.auth_assignments.push(stored));
    }
    issue_for(db, user, env, seed)
}

/// Registers a user now, with a key and a salt that are drawn anew.
pub fn register(db: &mut Database, env: &EnvironmentValues, input: UserRegisterInput) -> (r: AuthResult)
    requires
        old(db).wf(),
    ensures
        final(db).wf(),
        exists|user_seed: UserSeed, seed: SessionSeed| #[trigger]
            registered(old(db)@, final(db)@, env, &input, &user_seed, &seed, r),
{
    let user_seed = UserSeed::draw();
    let seed = SessionSeed::draw();
    let ghost user_seed_view = user_seed;
    let r = register_at(db, env, input, user_seed, seed);
    proof {
        assert(registered(old(db)@, db@, env, &input, &user_seed_view, &seed, r));
    }
    r
}

/// After a change of e-mail address or password that succeeded, the user has one
/// session, the new one, which stands last; the sessions of other users are as they
/// were.
pub proof fn law_update_leaves_one_session(
    before: Tables,
    after: Tables,
    context: &Context,
    env: &EnvironmentValues,
    input: &UserUpdateInput,
    salt: Seq<char>,
    seed: &SessionSeed,
    r: AuthResult,
)
    requires
        before.wf(),
        user_updated(before, after, context, env, input, salt, seed, r),
        r is Ok,
    ensures
        context.user is Some,
        after.user_tokens.len() > 0,
        after.user_tokens.last().user_id == context.user->0.id@,
        after.user_tokens.last().refresh_token == seed.refresh_token@,
        forall|j: int|
            0 <= j < after.user_tokens.len() - 1 ==> (#[trigger] after.user_tokens[j]).user_id
                != context.user->0.id@ && before.user_tokens.contains(after.user_tokens[j]),
        forall|k: int|
            0 <= k < before.user_tokens.len() && (#[trigger] before.user_tokens[k]).user_id != context.user->0.id@
                ==> after.user_tokens.contains(before.user_tokens[k]),
{
    let id = context.user->0.id@;
    let i = before.index_of_user(id);
    assert(before.users[i].id == id);
    let kept = rows_without(before.user_tokens, TokenColumn::UserId, id);
    lemma_rows_without(before.user_tokens, TokenColumn::UserId, id);
    assert forall|j: int| 0 <= j < after.user_tokens.len() - 1 implies (#[trigger] after.user_tokens[j]).user_id != id
        && before.user_tokens.contains(after.user_tokens[j]) by {
        assert(after.user_tokens[j] == kept[j]);
        assert(column_of(kept[j], TokenColumn::UserId) != id);
    }
    assert forall|k: int|
        0 <= k < before.user_tokens.len() && (#[trigger] before.user_tokens[k]).user_id != id implies after.user_tokens.contains(
        before.user_tokens[k],
    ) by {
        assert(column_of(before.user_tokens[k], TokenColumn::UserId) != id);
        assert(kept.contains(before.user_tokens[k]));
        let j = choose|j: int| 0 <= j < kept.len() && kept[j] == before.user_tokens[k];
        assert(after.user_tokens[j] == before.user_tokens[k]);
    }
}

} // verus!
