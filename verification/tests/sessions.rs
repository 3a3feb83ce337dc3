use auth_core::argon::make_hash;
use auth_core::context::Context;
use auth_core::db::Database;
use auth_core::env::EnvironmentValues;
use auth_core::errors::SrvError;
use auth_core::input::{UserExternalDataInput, UserLoginInput, UserRegisterInput, UserUpdateInput};
use auth_core::models::external_user_provider::UserProvider;
use auth_core::jwt::{create_token_at, decode_token_at};
use auth_core::models::user::{SlimUser, UserModel, UserSeed};
use auth_core::models::user_token::UserTokenModel;
use auth_core::mutation::{
    invalidate_all, login, login_at, login_with_external_user, logout, refresh_token, refresh_token_at,
    register, register_at, update_user, update_user_at,
};
use auth_core::token::{issue_for, SessionSeed, Token};

const YEAR: i64 = 31_536_000;
const SALT: &str = "0123456789abcdef";

fn env() -> EnvironmentValues {
    EnvironmentValues {
        domain: "localhost".to_string(),
        redis_url: "redis://127.0.0.1/".to_string(),
        database_url: "mysql://localhost/app".to_string(),
        jwt_private_key: "my secret".to_string(),
        server_port: 80,
        rust_env: "dev".to_string(),
        api_version_date: "2020-03-31".to_string(),
    }
}

fn user(id: &str, email: &str, password: &str) -> UserModel {
    UserModel {
        id: id.to_string(),
        hash: make_hash(password, SALT),
        salt: SALT.to_string(),
        email: email.to_string(),
        created_at: 0,
        updated_at: 0,
        deleted: false,
    }
}

fn plain_user(id: &str, email: &str) -> UserModel {
    UserModel {
        id: id.to_string(),
        hash: vec![0; 32],
        salt: SALT.to_string(),
        email: email.to_string(),
        created_at: 0,
        updated_at: 0,
        deleted: false,
    }
}

fn seed(now: i64, refresh: &str, id: &str) -> SessionSeed {
    SessionSeed { now, refresh_token: refresh.to_string(), token_id: Some(id.to_string()) }
}

fn unauthorized(r: Result<Token, SrvError>) -> String {
    match r {
        Err(SrvError::Unauthorized(info)) => info.data,
        other => panic!("not turned away: {:?}", other.map(|t| t.value)),
    }
}

fn session_row(id: &str, token: &str, refresh: &str, user_id: &str, expires: i64) -> UserTokenModel {
    UserTokenModel {
        id: id.to_string(),
        token: token.to_string(),
        refresh_token: refresh.to_string(),
        user_id: user_id.to_string(),
        refresh_expire_at: expires,
        created_at: 0,
        updated_at: 0,
    }
}

#[test]
fn issue_stores_one_row_that_expires_in_a_year() {
    let mut db = Database::new();
    db.users.push(plain_user("u1", "a@example.org"));
    let token = issue_for(&mut db, plain_user("u1", "a@example.org"), &env(), seed(1_000, "r1", "t1")).unwrap();
    assert_eq!(token.refresh_token, "r1");
    assert_eq!(token.user.id, "u1");
    assert_eq!(token.value, create_token_at("u1", "localhost", "my secret", 1_000, 86_400).unwrap());
    assert_eq!(db.user_tokens.len(), 1);
    let row = &db.user_tokens[0];
    assert_eq!(row.id, "t1");
    assert_eq!(row.token, token.value);
    assert_eq!(row.refresh_token, "r1");
    assert_eq!(row.user_id, "u1");
    assert_eq!(row.refresh_expire_at, 1_000 + YEAR);
    assert_eq!(row.created_at, 1_000);
    assert_eq!(row.updated_at, 1_000);
    assert_eq!(decode_token_at(&token.value, "my secret", 1_000 + 86_400).unwrap().id.as_deref(), Some("u1"));
}

#[test]
fn issue_refuses_a_taken_key_and_a_taken_refresh_token() {
    let mut db = Database::new();
    issue_for(&mut db, plain_user("u1", "a@example.org"), &env(), seed(1_000, "r1", "t1")).unwrap();
    match issue_for(&mut db, plain_user("u1", "a@example.org"), &env(), seed(1_000, "r2", "t1")) {
        Err(SrvError::Duplicate(d)) => {
            assert_eq!(d.origin, "Duplicate entry for the primary key");
            assert_eq!(d.info, "No Info");
        }
        _ => panic!("a taken key was stored"),
    }
    match issue_for(&mut db, plain_user("u1", "a@example.org"), &env(), seed(1_000, "r1", "t2")) {
        Err(SrvError::Duplicate(d)) => assert_eq!(d.origin, "Duplicate entry for the refresh token"),
        _ => panic!("a taken refresh token was stored"),
    }
    assert_eq!(db.user_tokens.len(), 1);
}

#[test]
fn issue_fails_without_a_key_and_past_the_end_of_time() {
    let mut db = Database::new();
    let no_key = SessionSeed { now: 1_000, refresh_token: "r1".to_string(), token_id: None };
    assert!(matches!(
        issue_for(&mut db, plain_user("u1", "a@example.org"), &env(), no_key),
        Err(SrvError::InternalServerError)
    ));
    assert!(matches!(
        issue_for(&mut db, plain_user("u1", "a@example.org"), &env(), seed(i64::MAX - 10, "r1", "t1")),
        Err(SrvError::InternalServerError)
    ));
    assert!(matches!(
        issue_for(&mut db, plain_user("u1", "a@example.org"), &env(), seed(i64::MAX - YEAR + 1, "r1", "t1")),
        Err(SrvError::InternalServerError)
    ));
    assert_eq!(db.user_tokens.len(), 0);
}

#[test]
fn login_then_refresh_then_the_old_refresh_token_fails() {
    let mut db = Database::new();
    db.users.push(user("u1", "a@example.org", "secret1"));
    let input = UserLoginInput { email: "a@example.org".to_string(), password: "secret1".to_string() };
    let first = login_at(&mut db, &env(), input, seed(1_000, "r1", "t1")).unwrap();
    assert_eq!(first.refresh_token, "r1");
    assert_eq!(db.user_tokens[0].refresh_expire_at, 1_000 + YEAR);

    let second = refresh_token_at(&mut db, &env(), "r1", seed(1_000, "r2", "t2")).unwrap();
    assert_eq!(second.refresh_token, "r2");
    assert_eq!(second.user.id, "u1");
    assert_eq!(db.user_tokens.len(), 1);
    assert_eq!(db.user_tokens[0].id, "t2");
    assert_eq!(db.user_tokens[0].refresh_token, "r2");

    let again = refresh_token_at(&mut db, &env(), "r1", seed(1_001, "r3", "t3"));
    assert_eq!(unauthorized(again), "invalid refresh token");
    assert_eq!(db.user_tokens.len(), 1);
    assert_eq!(db.user_tokens[0].id, "t2");
}

#[test]
fn refresh_with_an_expired_token_is_turned_away() {
    let mut db = Database::new();
    db.users.push(plain_user("u1", "a@example.org"));
    db.user_tokens.push(session_row("t1", "access", "r1", "u1", 999));
    let r = refresh_token_at(&mut db, &env(), "r1", seed(1_000, "r2", "t2"));
    assert_eq!(unauthorized(r), "invalid refresh token");
    assert_eq!(db.user_tokens.len(), 1);
    assert_eq!(db.user_tokens[0].id, "t1");
}

#[test]
fn refresh_at_the_last_second_is_taken() {
    let mut db = Database::new();
    db.users.push(plain_user("u1", "a@example.org"));
    db.user_tokens.push(session_row("t1", "access", "r1", "u1", 1_000));
    let r = refresh_token_at(&mut db, &env(), "r1", seed(1_000, "r2", "t2")).unwrap();
    assert_eq!(r.refresh_token, "r2");
}

#[test]
fn refresh_with_an_unknown_token_is_turned_away() {
    let mut db = Database::new();
    db.users.push(plain_user("u1", "a@example.org"));
    db.user_tokens.push(session_row("t1", "access", "r1", "u1", 5_000));
    let r = refresh_token_at(&mut db, &env(), "nope", seed(1_000, "r2", "t2"));
    assert_eq!(unauthorized(r), "invalid refresh token");
    assert_eq!(db.user_tokens.len(), 1);
}

#[test]
fn refresh_for_a_user_that_is_gone_is_not_found() {
    let mut db = Database::new();
    db.user_tokens.push(session_row("t1", "access", "r1", "ghost", 5_000));
    let r = refresh_token_at(&mut db, &env(), "r1", seed(1_000, "r2", "t2"));
    assert!(matches!(r, Err(SrvError::NotFound)));
    assert_eq!(db.user_tokens.len(), 1);
}

#[test]
fn refresh_that_cannot_issue_keeps_the_old_session() {
    let mut db = Database::new();
    db.users.push(plain_user("u1", "a@example.org"));
    db.users.push(plain_user("u2", "b@example.org"));
    db.user_tokens.push(session_row("t1", "access1", "r1", "u1", 5_000));
    db.user_tokens.push(session_row("t2", "access2", "r2", "u2", 5_000));
    let r = refresh_token_at(&mut db, &env(), "r1", seed(1_000, "r2", "t3"));
    assert!(matches!(r, Err(SrvError::Duplicate(_))));
    assert_eq!(db.user_tokens.len(), 2);
    assert_eq!(db.user_tokens[0].id, "t1");
    let r = refresh_token_at(&mut db, &env(), "r1", seed(1_000, "r3", "t2"));
    assert!(matches!(r, Err(SrvError::Duplicate(_))));
    assert_eq!(db.user_tokens.len(), 2);
}

#[test]
fn refresh_may_take_the_key_of_the_session_it_replaces() {
    let mut db = Database::new();
    db.users.push(plain_user("u1", "a@example.org"));
    db.user_tokens.push(session_row("t1", "access1", "r1", "u1", 5_000));
    let r = refresh_token_at(&mut db, &env(), "r1", seed(1_000, "r2", "t1")).unwrap();
    assert_eq!(r.refresh_token, "r2");
    assert_eq!(db.user_tokens.len(), 1);
    assert_eq!(db.user_tokens[0].refresh_token, "r2");
}

#[test]
fn login_with_an_unknown_address_is_a_wrong_identifier() {
    let mut db = Database::new();
    db.users.push(plain_user("u1", "a@example.org"));
    let input = UserLoginInput { email: "b@example.org".to_string(), password: "secret1".to_string() };
    assert_eq!(unauthorized(login_at(&mut db, &env(), input, seed(1_000, "r1", "t1"))), "wrong identifier");
    assert_eq!(db.user_tokens.len(), 0);
}

#[test]
fn login_with_another_password_is_a_wrong_credential() {
    let mut db = Database::new();
    db.users.push(user("u1", "a@example.org", "secret1"));
    let input = UserLoginInput { email: "a@example.org".to_string(), password: "secret2".to_string() };
    assert_eq!(unauthorized(login_at(&mut db, &env(), input, seed(1_000, "r1", "t1"))), "wrong credential");
    assert_eq!(db.user_tokens.len(), 0);
}

#[test]
fn login_with_a_salt_too_short_to_hash_is_a_wrong_credential() {
    let mut db = Database::new();
    let mut u = plain_user("u1", "a@example.org");
    u.salt = "short".to_string();
    db.users.push(u);
    let input = UserLoginInput { email: "a@example.org".to_string(), password: "secret1".to_string() };
    assert_eq!(unauthorized(login_at(&mut db, &env(), input, seed(1_000, "r1", "t1"))), "wrong credential");
}

#[test]
fn login_holds_the_input_to_its_rules_first() {
    let mut db = Database::new();
    let input = UserLoginInput { email: "no address".to_string(), password: "short".to_string() };
    match login_at(&mut db, &env(), input, seed(1_000, "r1", "t1")) {
        Err(SrvError::ValidationError(list)) => {
            assert_eq!(list.len(), 2);
            assert_eq!(list[0].field, "email");
            assert_eq!(list[0].code, "email");
            assert_eq!(list[0].message.as_deref(), Some("This value should be a E-Mail"));
            assert_eq!(list[1].field, "password");
            assert_eq!(list[1].code, "length");
            assert_eq!(list[1].message, None);
        }
        _ => panic!("a broken input passed"),
    }
}

#[test]
fn two_sessions_of_one_user_live_side_by_side() {
    let mut db = Database::new();
    db.users.push(user("u1", "a@example.org", "secret1"));
    let input = || UserLoginInput { email: "a@example.org".to_string(), password: "secret1".to_string() };
    login_at(&mut db, &env(), input(), seed(1_000, "r1", "t1")).unwrap();
    login_at(&mut db, &env(), input(), seed(1_001, "r2", "t2")).unwrap();
    assert_eq!(db.user_tokens.len(), 2);
    refresh_token_at(&mut db, &env(), "r1", seed(1_002, "r3", "t3")).unwrap();
    assert_eq!(db.user_tokens.len(), 2);
    assert!(db.user_tokens.iter().any(|t| t.refresh_token == "r2"));
    assert!(db.user_tokens.iter().any(|t| t.refresh_token == "r3"));
}

#[test]
fn logout_deletes_the_session_of_the_request() {
    let mut db = Database::new();
    db.users.push(plain_user("u1", "a@example.org"));
    db.user_tokens.push(session_row("t1", "access1", "r1", "u1", 5_000));
    db.user_tokens.push(session_row("t2", "access2", "r2", "u1", 5_000));
    let sender = SlimUser { id: Some("u1".to_string()), token: Some("access1".to_string()) };
    let context = Context::new(sender, &db);
    assert!(context.user.is_some());
    assert_eq!(logout(&context, &mut db).unwrap(), true);
    assert_eq!(db.user_tokens.len(), 1);
    assert_eq!(db.user_tokens[0].id, "t2");
    assert_eq!(logout(&context, &mut db).unwrap(), false);
    assert_eq!(db.user_tokens.len(), 1);
}

#[test]
fn logout_without_a_principal_is_turned_away() {
    let mut db = Database::new();
    db.users.push(plain_user("u1", "a@example.org"));
    db.user_tokens.push(session_row("t1", "access1", "r1", "u1", 5_000));
    let sender = SlimUser { id: Some("u1".to_string()), token: Some("other".to_string()) };
    let context = Context::new(sender, &db);
    assert!(context.user.is_none());
    match logout(&context, &mut db) {
        Err(SrvError::Unauthorized(info)) => assert_eq!(info.data, "not authenticated"),
        _ => panic!("a request without principal logged out"),
    }
    assert_eq!(db.user_tokens.len(), 1);
}

#[test]
fn invalidate_all_ends_every_session_of_the_user_and_no_other() {
    let mut db = Database::new();
    db.users.push(plain_user("u1", "a@example.org"));
    db.users.push(plain_user("u2", "b@example.org"));
    db.user_tokens.push(session_row("t1", "access1", "r1", "u1", 5_000));
    db.user_tokens.push(session_row("t2", "access2", "r2", "u2", 5_000));
    db.user_tokens.push(session_row("t3", "access3", "r3", "u1", 5_000));
    invalidate_all(&mut db, "u1");
    assert_eq!(db.user_tokens.len(), 1);
    assert_eq!(db.user_tokens[0].id, "t2");
    assert_eq!(unauthorized(refresh_token_at(&mut db, &env(), "r1", seed(1_000, "r9", "t9"))), "invalid refresh token");
    assert_eq!(unauthorized(refresh_token_at(&mut db, &env(), "r3", seed(1_000, "r9", "t9"))), "invalid refresh token");
    let sender = SlimUser { id: Some("u1".to_string()), token: Some("access1".to_string()) };
    let context = Context::new(sender, &db);
    assert!(context.user.is_none());
    assert!(logout(&context, &mut db).is_err());
    assert!(refresh_token_at(&mut db, &env(), "r2", seed(1_000, "r9", "t9")).is_ok());
}

#[test]
fn password_change_ends_old_sessions_and_leaves_one_new() {
    let mut db = Database::new();
    db.users.push(user("u1", "a@example.org", "secret1"));
    db.users.push(plain_user("u2", "b@example.org"));
    db.user_tokens.push(session_row("t1", "access1", "r1", "u1", 5_000));
    db.user_tokens.push(session_row("t2", "access2", "r2", "u2", 5_000));
    db.user_tokens.push(session_row("t3", "access3", "r3", "u1", 5_000));
    let sender = SlimUser { id: Some("u1".to_string()), token: Some("access1".to_string()) };
    let context = Context::new(sender, &db);
    let input = UserUpdateInput { email: None, password: Some("secret2".to_string()) };
    let token =
        update_user_at(&context, &mut db, &env(), input, "fedcba9876543210".to_string(), seed(1_000, "r4", "t4"))
            .unwrap();
    assert_eq!(token.refresh_token, "r4");
    assert_eq!(token.user.salt, "fedcba9876543210");
    assert_eq!(token.user.hash, make_hash("secret2", "fedcba9876543210"));
    assert_eq!(token.user.email, "a@example.org");
    let mine: Vec<&UserTokenModel> = db.user_tokens.iter().filter(|t| t.user_id == "u1").collect();
    assert_eq!(mine.len(), 1);
    assert_eq!(mine[0].id, "t4");
    assert_eq!(db.user_tokens.len(), 2);
    assert_eq!(db.users[0].hash, make_hash("secret2", "fedcba9876543210"));
    assert_eq!(unauthorized(refresh_token_at(&mut db, &env(), "r1", seed(1_001, "r9", "t9"))), "invalid refresh token");
    assert_eq!(unauthorized(refresh_token_at(&mut db, &env(), "r3", seed(1_001, "r9", "t9"))), "invalid refresh token");
    let old = Context::new(SlimUser { id: Some("u1".to_string()), token: Some("access1".to_string()) }, &db);
    assert!(old.user.is_none());
    assert!(logout(&old, &mut db).is_err());
    let login_old = UserLoginInput { email: "a@example.org".to_string(), password: "secret1".to_string() };
    assert_eq!(unauthorized(login_at(&mut db, &env(), login_old, seed(1_002, "r5", "t5"))), "wrong credential");
    let login_new = UserLoginInput { email: "a@example.org".to_string(), password: "secret2".to_string() };
    assert!(login_at(&mut db, &env(), login_new, seed(1_002, "r5", "t5")).is_ok());
}

#[test]
fn email_change_to_a_taken_address_changes_nothing() {
    let mut db = Database::new();
    db.users.push(plain_user("u1", "a@example.org"));
    db.users.push(plain_user("u2", "b@example.org"));
    db.user_tokens.push(session_row("t1", "access1", "r1", "u1", 5_000));
    let context = Context::new(SlimUser { id: Some("u1".to_string()), token: Some("access1".to_string()) }, &db);
    let input = UserUpdateInput { email: Some("b@example.org".to_string()), password: None };
    match update_user_at(&context, &mut db, &env(), input, SALT.to_string(), seed(1_000, "r4", "t4")) {
        Err(SrvError::Duplicate(d)) => assert_eq!(d.origin, "Duplicate entry for the e-mail address"),
        _ => panic!("a taken address was stored"),
    }
    assert_eq!(db.users[0].email, "a@example.org");
    assert_eq!(db.user_tokens.len(), 1);
    let same = UserUpdateInput { email: Some("a@example.org".to_string()), password: None };
    assert!(update_user_at(&context, &mut db, &env(), same, SALT.to_string(), seed(1_000, "r4", "t4")).is_ok());
}

#[test]
fn update_failures_leave_the_store_as_it_was() {
    let mut db = Database::new();
    db.users.push(plain_user("u1", "a@example.org"));
    db.user_tokens.push(session_row("t1", "access1", "r1", "u1", 5_000));
    let context = Context::new(SlimUser { id: Some("u1".to_string()), token: Some("access1".to_string()) }, &db);
    let nothing = UserUpdateInput { email: None, password: None };
    assert!(matches!(
        update_user_at(&context, &mut db, &env(), nothing, SALT.to_string(), seed(1_000, "r4", "t4")),
        Err(SrvError::InternalServerError)
    ));
    let short_salt = UserUpdateInput { email: None, password: Some("secret2".to_string()) };
    assert!(matches!(
        update_user_at(&context, &mut db, &env(), short_salt, "short".to_string(), seed(1_000, "r4", "t4")),
        Err(SrvError::InternalServerError)
    ));
    let broken = UserUpdateInput { email: Some("nothing".to_string()), password: Some("x".to_string()) };
    assert!(matches!(
        update_user_at(&context, &mut db, &env(), broken, SALT.to_string(), seed(1_000, "r4", "t4")),
        Err(SrvError::ValidationError(_))
    ));
    let no_key = SessionSeed { now: 1_000, refresh_token: "r4".to_string(), token_id: None };
    let change = UserUpdateInput { email: Some("c@example.org".to_string()), password: None };
    assert!(matches!(
        update_user_at(&context, &mut db, &env(), change, SALT.to_string(), no_key),
        Err(SrvError::InternalServerError)
    ));
    assert_eq!(db.users[0].email, "a@example.org");
    assert_eq!(db.user_tokens.len(), 1);
    assert_eq!(db.user_tokens[0].id, "t1");
    let nobody = Context::new(SlimUser::default(), &db);
    let change = UserUpdateInput { email: Some("c@example.org".to_string()), password: None };
    assert_eq!(
        unauthorized(update_user_at(&nobody, &mut db, &env(), change, SALT.to_string(), seed(1_000, "r4", "t4"))),
        "not authenticated"
    );
}

#[test]
fn register_stores_user_assignment_and_session() {
    let mut db = Database::new();
    let input = UserRegisterInput {
        email: "a@example.org".to_string(),
        name: "Ada".to_string(),
        password: "secret1".to_string(),
    };
    let user_seed = UserSeed { now: 1_000, id: Some("u1".to_string()), salt: SALT.to_string() };
    let token = register_at(&mut db, &env(), input, user_seed, seed(1_000, "r1", "t1")).unwrap();
    assert_eq!(token.user.id, "u1");
    assert_eq!(db.users.len(), 1);
    assert_eq!(db.users[0].email, "a@example.org");
    assert_eq!(db.users[0].salt, SALT);
    assert_eq!(db.users[0].hash, make_hash("secret1", SALT));
    assert_eq!(db.users[0].created_at, 1_000);
    assert!(!db.users[0].deleted);
    assert_eq!(db.auth_assignments.len(), 1);
    assert_eq!(db.auth_assignments[0].item_name, "user");
    assert_eq!(db.auth_assignments[0].user_id, "u1");
    assert_eq!(db.auth_assignments[0].created_at, 1_000);
    assert_eq!(db.user_tokens.len(), 1);
    assert_eq!(db.user_tokens[0].user_id, "u1");
    let login = UserLoginInput { email: "a@example.org".to_string(), password: "secret1".to_string() };
    assert!(login_at(&mut db, &env(), login, seed(1_001, "r2", "t2")).is_ok());
}

#[test]
fn register_refuses_a_taken_address() {
    let mut db = Database::new();
    db.users.push(plain_user("u0", "a@example.org"));
    let input = UserRegisterInput {
        email: "a@example.org".to_string(),
        name: "Ada".to_string(),
        password: "secret1".to_string(),
    };
    let user_seed = UserSeed { now: 1_000, id: Some("u1".to_string()), salt: SALT.to_string() };
    match register_at(&mut db, &env(), input, user_seed, seed(1_000, "r1", "t1")) {
        Err(SrvError::Duplicate(d)) => assert_eq!(d.origin, "Duplicate entry for the e-mail address"),
        _ => panic!("a taken address was registered"),
    }
    assert_eq!(db.users.len(), 1);
    assert_eq!(db.auth_assignments.len(), 0);
    assert_eq!(db.user_tokens.len(), 0);
}

#[test]
fn register_keeps_the_user_when_the_session_fails() {
    let mut db = Database::new();
    let input = UserRegisterInput {
        email: "a@example.org".to_string(),
        name: "Ada".to_string(),
        password: "secret1".to_string(),
    };
    let user_seed = UserSeed { now: 1_000, id: Some("u1".to_string()), salt: SALT.to_string() };
    let no_key = SessionSeed { now: 1_000, refresh_token: "r1".to_string(), token_id: None };
    assert!(matches!(register_at(&mut db, &env(), input, user_seed, no_key), Err(SrvError::InternalServerError)));
    assert_eq!(db.users.len(), 1);
    assert_eq!(db.auth_assignments.len(), 1);
    assert_eq!(db.user_tokens.len(), 0);
}

#[test]
fn operations_that_draw_their_own_values_work_together() {
    let mut db = Database::new();
    let input = UserRegisterInput {
        email: "a@example.org".to_string(),
        name: "Ada".to_string(),
        password: "secret1".to_string(),
    };
    let first = register(&mut db, &env(), input).unwrap();
    assert_eq!(db.users.len(), 1);
    assert_eq!(db.users[0].salt.chars().count(), 128);
    assert_eq!(first.refresh_token.len(), 36);
    let login_input = UserLoginInput { email: "a@example.org".to_string(), password: "secret1".to_string() };
    let second = login(&mut db, &env(), login_input).unwrap();
    assert_ne!(first.refresh_token, second.refresh_token);
    assert_eq!(db.user_tokens.len(), 2);
    let third = refresh_token(&mut db, &env(), second.refresh_token.clone()).unwrap();
    assert_ne!(third.refresh_token, second.refresh_token);
    assert_eq!(db.user_tokens.len(), 2);
    assert!(refresh_token(&mut db, &env(), second.refresh_token).is_err());
    let context =
        Context::new(SlimUser { id: Some(first.user.id.clone()), token: Some(third.value.clone()) }, &db);
    assert!(context.user.is_some());
    let change = UserUpdateInput { email: Some("b@example.org".to_string()), password: None };
    let fourth = update_user(&context, &mut db, &env(), change).unwrap();
    assert_eq!(fourth.user.email, "b@example.org");
    assert_eq!(db.user_tokens.len(), 1);
    assert_eq!(db.user_tokens[0].refresh_token, fourth.refresh_token);
}

#[test]
fn no_other_provider_is_served() {
    for provider in [UserProvider::Facebook, UserProvider::Google, UserProvider::Apple] {
        let input = UserExternalDataInput { token: "t".to_string(), provider };
        assert!(matches!(login_with_external_user(input), Err(SrvError::Unavailable)));
    }
}
