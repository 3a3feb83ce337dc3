use auth_core::changes::{holds_token, holds_user, row_changes, same_token, same_user};
use auth_core::db::Database;
use auth_core::env::EnvironmentValues;
use auth_core::models::auth::AuthAssignmentModel;
use auth_core::models::external_user_provider::{ExternalUserProviderModel, UserProvider};
use auth_core::models::user::UserModel;
use auth_core::models::user_token::UserTokenModel;
use auth_core::mutation::{invalidate_all, refresh_token_at};
use auth_core::token::SessionSeed;

fn user(id: &str, email: &str) -> UserModel {
    UserModel {
        id: id.to_string(),
        hash: vec![1, 2, 3],
        salt: "0123456789abcdef".to_string(),
        email: email.to_string(),
        created_at: 0,
        updated_at: 0,
        deleted: false,
    }
}

fn token(id: &str, access: &str, refresh: &str, user_id: &str) -> UserTokenModel {
    UserTokenModel {
        id: id.to_string(),
        token: access.to_string(),
        refresh_token: refresh.to_string(),
        user_id: user_id.to_string(),
        refresh_expire_at: 5_000,
        created_at: 0,
        updated_at: 0,
    }
}

fn copy(db: &Database) -> Database {
    Database {
        users: db.users.clone(),
        user_tokens: db.user_tokens.clone(),
        auth_items: db.auth_items.clone(),
        auth_item_children: db.auth_item_children.clone(),
        auth_assignments: db.auth_assignments.clone(),
        external_user_providers: db.external_user_providers.clone(),
    }
}

fn store() -> Database {
    let mut db = Database::new();
    db.users = vec![user("u1", "a@example.org"), user("u2", "b@example.org")];
    db.user_tokens = vec![token("t1", "a1", "r1", "u1"), token("t2", "a2", "r2", "u2"), token("t3", "a3", "r3", "u1")];
    db
}

fn env() -> EnvironmentValues {
    EnvironmentValues {
        domain: "localhost".to_string(),
        redis_url: String::new(),
        database_url: String::new(),
        jwt_private_key: "my secret".to_string(),
        server_port: 80,
        rust_env: "dev".to_string(),
        api_version_date: "2020-03-31".to_string(),
    }
}

#[test]
fn unchanged_tables_ask_for_no_change() {
    let db = store();
    let changes = row_changes(&db, &copy(&db));
    assert!(changes.deleted_tokens.is_empty());
    assert!(changes.inserted_users.is_empty());
    assert!(changes.updated_users.is_empty());
    assert!(changes.inserted_assignments.is_empty());
    assert!(changes.inserted_tokens.is_empty());
    assert!(changes.inserted_providers.is_empty());
}

#[test]
fn refresh_asks_to_delete_one_session_and_to_store_one() {
    let before = store();
    let mut after = copy(&before);
    let seed = SessionSeed { now: 1_000, refresh_token: "r9".to_string(), token_id: Some("t9".to_string()) };
    refresh_token_at(&mut after, &env(), "r1", seed).unwrap();
    let changes = row_changes(&before, &after);
    assert_eq!(changes.deleted_tokens, vec!["t1".to_string()]);
    assert_eq!(changes.inserted_tokens.len(), 1);
    assert_eq!(changes.inserted_tokens[0].id, "t9");
    assert_eq!(changes.inserted_tokens[0].refresh_token, "r9");
    assert_eq!(changes.inserted_tokens[0].user_id, "u1");
    assert!(changes.inserted_users.is_empty() && changes.updated_users.is_empty());
}

#[test]
fn refresh_under_the_old_key_deletes_before_it_stores() {
    let before = store();
    let mut after = copy(&before);
    let seed = SessionSeed { now: 1_000, refresh_token: "r9".to_string(), token_id: Some("t1".to_string()) };
    refresh_token_at(&mut after, &env(), "r1", seed).unwrap();
    let changes = row_changes(&before, &after);
    assert_eq!(changes.deleted_tokens, vec!["t1".to_string()]);
    assert_eq!(changes.inserted_tokens.len(), 1);
    assert_eq!(changes.inserted_tokens[0].id, "t1");
    assert_eq!(changes.inserted_tokens[0].refresh_token, "r9");
}

#[test]
fn ended_sessions_are_asked_to_be_deleted_in_their_order() {
    let before = store();
    let mut after = copy(&before);
    invalidate_all(&mut after, "u1");
    let changes = row_changes(&before, &after);
    assert_eq!(changes.deleted_tokens, vec!["t1".to_string(), "t3".to_string()]);
    assert!(changes.inserted_tokens.is_empty());
}

#[test]
fn users_are_stored_or_changed_by_their_id() {
    let before = store();
    let mut after = copy(&before);
    after.users[1].email = "c@example.org".to_string();
    after.users[0].hash = vec![9];
    after.users.push(user("u3", "d@example.org"));
    let changes = row_changes(&before, &after);
    assert_eq!(changes.inserted_users.len(), 1);
    assert_eq!(changes.inserted_users[0].id, "u3");
    assert_eq!(changes.updated_users.len(), 2);
    assert_eq!(changes.updated_users[0].id, "u1");
    assert_eq!(changes.updated_users[0].hash, vec![9]);
    assert_eq!(changes.updated_users[1].id, "u2");
    assert_eq!(changes.updated_users[1].email, "c@example.org");
}

#[test]
fn assignments_and_accounts_that_are_new_are_stored() {
    let mut before = store();
    before.auth_assignments.push(AuthAssignmentModel {
        item_name: "user".to_string(),
        user_id: "u1".to_string(),
        created_at: 0,
    });
    let mut after = copy(&before);
    after.auth_assignments.push(AuthAssignmentModel {
        item_name: "user".to_string(),
        user_id: "u2".to_string(),
        created_at: 5,
    });
    after.external_user_providers.push(ExternalUserProviderModel {
        id: "e1".to_string(),
        user_id: "u1".to_string(),
        external_id: "x1".to_string(),
        email: None,
        provider: UserProvider::Apple,
        created_at: 0,
        updated_at: 0,
        deleted: false,
    });
    let changes = row_changes(&before, &after);
    assert_eq!(changes.inserted_assignments.len(), 1);
    assert_eq!(changes.inserted_assignments[0].user_id, "u2");
    assert_eq!(changes.inserted_providers.len(), 1);
    assert_eq!(changes.inserted_providers[0].id, "e1");
}

#[test]
fn rows_are_compared_field_by_field() {
    let a = token("t1", "a1", "r1", "u1");
    let mut b = token("t1", "a1", "r1", "u1");
    assert!(same_token(&a, &b));
    b.updated_at = 1;
    assert!(!same_token(&a, &b));
    assert!(holds_token(&vec![token("t0", "a0", "r0", "u1"), token("t1", "a1", "r1", "u1")], &a));
    assert!(!holds_token(&vec![b], &a));
    let u = user("u1", "a@example.org");
    let mut v = user("u1", "a@example.org");
    assert!(same_user(&u, &v));
    v.hash = vec![1, 2, 4];
    assert!(!same_user(&u, &v));
    assert!(holds_user(&vec![user("u1", "a@example.org")], &u));
    assert!(!holds_user(&vec![v], &u));
}
