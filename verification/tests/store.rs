use auth_core::dataloaders::{group_by_user, DataLoaders};
use auth_core::db::{Database, TokenColumn};
use auth_core::errors::{DBError, DatabaseErrorKind, SrvError};
use auth_core::models::auth::{AuthAssignmentModel, AuthItemChildModel, AuthItemModel, NewAuthAssignmentModel};
use auth_core::models::external_user_provider::{
    ExternalUserProviderModel, NewExternalUserProviderModel, UserProvider,
};
use auth_core::models::user::{NewUser, SlimUser, UpdatedUserModel, UserModel, UserSeed};
use auth_core::models::user_token::{NewUserTokenModel, UserTokenModel};
use auth_core::token::{SessionSeed, Token};

fn user(id: &str, email: &str) -> UserModel {
    UserModel {
        id: id.to_string(),
        hash: vec![1, 2, 3],
        salt: "0123456789abcdef".to_string(),
        email: email.to_string(),
        created_at: 0,
        updated_at: 0,
        deleted: false,
    }
}

fn token(id: &str, access: &str, refresh: &str, user_id: &str, expires: i64) -> UserTokenModel {
    UserTokenModel {
        id: id.to_string(),
        token: access.to_string(),
        refresh_token: refresh.to_string(),
        user_id: user_id.to_string(),
        refresh_expire_at: expires,
        created_at: 0,
        updated_at: 0,
    }
}

fn failure(error: DBError) -> (DatabaseErrorKind, String, Option<String>) {
    match error {
        DBError::DatabaseError(kind, info) => (kind, info.message, info.details),
        other => panic!("no failed statement: {:?}", other),
    }
}

#[test]
fn new_store_is_empty() {
    let db = Database::new();
    assert!(db.users.is_empty() && db.user_tokens.is_empty() && db.auth_items.is_empty());
    assert!(db.auth_item_children.is_empty() && db.auth_assignments.is_empty());
    assert!(db.external_user_providers.is_empty());
}

#[test]
fn users_are_unique_by_id_and_address() {
    let mut db = Database::new();
    assert!(db.insert_user(user("u1", "a@example.org")).is_ok());
    let (kind, message, details) = failure(db.insert_user(user("u1", "b@example.org")).unwrap_err());
    assert_eq!(kind, DatabaseErrorKind::UniqueViolation);
    assert_eq!(message, "Duplicate entry for the primary key");
    assert_eq!(details, None);
    let (_, message, _) = failure(db.insert_user(user("u2", "a@example.org")).unwrap_err());
    assert_eq!(message, "Duplicate entry for the e-mail address");
    let (_, message, _) = failure(db.insert_user(user("u1", "a@example.org")).unwrap_err());
    assert_eq!(message, "Duplicate entry for the primary key");
    assert!(db.insert_user(user("u2", "b@example.org")).is_ok());
    assert_eq!(db.users.len(), 2);
    assert_eq!(db.user_index_by_id("u2"), Some(1));
    assert_eq!(db.user_index_by_id("u3"), None);
    assert_eq!(db.user_index_by_email("a@example.org"), Some(0));
    assert_eq!(db.user_index_by_email("c@example.org"), None);
    assert!(db.email_taken_by_another("a@example.org", 1));
    assert!(!db.email_taken_by_another("a@example.org", 0));
}

#[test]
fn sessions_are_unique_by_id_and_refresh_token() {
    let mut db = Database::new();
    assert!(db.insert_token(token("t1", "a1", "r1", "u1", 10)).is_ok());
    let (_, message, _) = failure(db.insert_token(token("t1", "a2", "r2", "u1", 10)).unwrap_err());
    assert_eq!(message, "Duplicate entry for the primary key");
    let (_, message, _) = failure(db.insert_token(token("t2", "a2", "r1", "u1", 10)).unwrap_err());
    assert_eq!(message, "Duplicate entry for the refresh token");
    assert!(db.insert_token(token("t2", "a1", "r2", "u2", 10)).is_ok());
    assert_eq!(db.user_tokens.len(), 2);
    assert!(db.token_id_taken("t2") && !db.token_id_taken("t3"));
    assert!(db.refresh_token_taken("r2") && !db.refresh_token_taken("r3"));
    assert!(db.session_exists("u1", "a1") && db.session_exists("u2", "a1"));
    assert!(!db.session_exists("u1", "a2") && !db.session_exists("u3", "a1"));
}

#[test]
fn live_refresh_token_is_found_until_its_last_second() {
    let mut db = Database::new();
    db.insert_token(token("t1", "a1", "r1", "u1", 10)).unwrap();
    db.insert_token(token("t2", "a2", "r2", "u1", 20)).unwrap();
    assert_eq!(db.live_refresh_index("r1", 10), Some(0));
    assert_eq!(db.live_refresh_index("r1", 11), None);
    assert_eq!(db.live_refresh_index("r2", 11), Some(1));
    assert_eq!(db.live_refresh_index("r3", 0), None);
}

#[test]
fn sessions_are_deleted_by_column_and_counted() {
    let mut db = Database::new();
    db.insert_token(token("t1", "a1", "r1", "u1", 10)).unwrap();
    db.insert_token(token("t2", "a2", "r2", "u2", 10)).unwrap();
    db.insert_token(token("t3", "a1", "r3", "u1", 10)).unwrap();
    db.insert_token(token("t4", "a4", "r4", "u3", 10)).unwrap();
    assert_eq!(db.delete_tokens(TokenColumn::Token, "a1"), 2);
    assert_eq!(db.user_tokens.iter().map(|t| t.id.as_str()).collect::<Vec<_>>(), vec!["t2", "t4"]);
    assert_eq!(db.delete_tokens(TokenColumn::UserId, "u1"), 0);
    assert_eq!(db.delete_tokens(TokenColumn::RefreshToken, "r4"), 1);
    assert_eq!(db.delete_tokens(TokenColumn::Id, "t2"), 1);
    assert!(db.user_tokens.is_empty());
    assert_eq!(db.delete_tokens(TokenColumn::Id, "t2"), 0);
}

#[test]
fn user_is_changed_by_the_values_that_are_given() {
    let mut db = Database::new();
    db.insert_user(user("u1", "a@example.org")).unwrap();
    db.insert_user(user("u2", "b@example.org")).unwrap();
    assert!(matches!(db.update_user_at(0, None, None, None), Err(DBError::QueryBuilderError)));
    let (kind, message, _) =
        failure(db.update_user_at(0, Some("b@example.org".to_string()), Some(vec![9]), None).unwrap_err());
    assert_eq!(kind, DatabaseErrorKind::UniqueViolation);
    assert_eq!(message, "Duplicate entry for the e-mail address");
    assert_eq!(db.users[0].hash, vec![1, 2, 3]);
    db.update_user_at(0, Some("c@example.org".to_string()), None, None).unwrap();
    assert_eq!(db.users[0].email, "c@example.org");
    assert_eq!(db.users[0].hash, vec![1, 2, 3]);
    db.update_user_at(1, None, Some(vec![9, 9]), Some("new salt".to_string())).unwrap();
    assert_eq!(db.users[1].email, "b@example.org");
    assert_eq!(db.users[1].hash, vec![9, 9]);
    assert_eq!(db.users[1].salt, "new salt");
    assert_eq!(db.users[1].id, "u2");
    db.update_user_at(1, Some("b@example.org".to_string()), None, None).unwrap();
}

#[test]
fn new_user_is_stored_with_all_its_values() {
    let mut db = Database::new();
    let email = "a@example.org".to_string();
    let seed = UserSeed { now: 7, id: Some("u1".to_string()), salt: "0123456789abcdef".to_string() };
    let new_user = NewUser::new_at(&email, &"secret".to_string(), seed);
    assert_eq!(new_user.hash.as_ref().unwrap().len(), 32);
    let stored = new_user.save(&mut db).unwrap();
    assert_eq!(stored.id, "u1");
    assert_eq!(stored.email, "a@example.org");
    assert_eq!(stored.created_at, 7);
    assert_eq!(stored.updated_at, 7);
    assert!(!stored.deleted);
    assert_eq!(db.users.len(), 1);
    assert_eq!(db.users[0].hash, stored.hash);

    let without = NewUser::new_without_pw_at(&email, Some("u2".to_string()), 8);
    let (kind, message, _) = failure(without.save(&mut db).unwrap_err());
    assert_eq!(kind, DatabaseErrorKind::NotNullViolation);
    assert_eq!(message, "A column that cannot be null was given no value");
    assert_eq!(db.users.len(), 1);

    let no_key = UserSeed { now: 7, id: None, salt: "0123456789abcdef".to_string() };
    assert!(NewUser::new_at(&email, &"secret".to_string(), no_key).save(&mut db).is_err());
    let short = UserSeed { now: 7, id: Some("u3".to_string()), salt: "short".to_string() };
    let unhashed = NewUser::new_at(&email, &"secret".to_string(), short);
    assert!(unhashed.hash.is_none());
}

#[test]
fn new_user_made_now_has_a_key_a_salt_and_a_moment() {
    let email = "a@example.org".to_string();
    let made = NewUser::new(&email, &"secret".to_string());
    assert!(made.id.is_some());
    assert_eq!(made.salt.as_ref().unwrap().chars().count(), 128);
    assert_eq!(made.hash.as_ref().unwrap().len(), 32);
    assert_eq!(made.created_at, made.updated_at);
    assert!(made.created_at.unwrap() > 1_500_000_000);
    assert_eq!(made.deleted, Some(false));
    let bare = NewUser::new_without_pw(&email);
    assert!(bare.hash.is_none() && bare.salt.is_none());
    assert_eq!(bare.email, Some(&email));
    let default = NewUser::default();
    assert!(default.email.is_none() && default.id.is_some());
    assert_ne!(default.id, bare.id);
}

#[test]
fn changed_user_is_found_by_its_id() {
    let mut db = Database::new();
    db.insert_user(user("u1", "a@example.org")).unwrap();
    let ghost = user("u9", "z@example.org");
    let change = UpdatedUserModel::new_with(Some("c@example.org".to_string()), None, "0123456789abcdef".to_string());
    assert!(matches!(change.update(&ghost, &mut db), Err(DBError::NotFound)));
    let stored = change.update(&user("u1", "ignored"), &mut db).unwrap();
    assert_eq!(stored.email, "c@example.org");
    assert_eq!(stored.hash, vec![1, 2, 3]);
    let nothing = UpdatedUserModel::new_with(None, None, "0123456789abcdef".to_string());
    assert!(matches!(nothing.update(&ghost, &mut db), Err(DBError::QueryBuilderError)));
    let with_password = UpdatedUserModel::new(None, Some("secret".to_string()));
    assert_eq!(with_password.salt.as_ref().unwrap().chars().count(), 128);
    let stored = with_password.update(&user("u1", "ignored"), &mut db).unwrap();
    assert_eq!(stored.hash.len(), 32);
    assert_eq!(Some(stored.salt), with_password.salt);
}

#[test]
fn new_session_values_expire_a_year_on() {
    let mut db = Database::new();
    let (access, refresh, user_id) = ("a1".to_string(), "r1".to_string(), "u1".to_string());
    let values = NewUserTokenModel::new_at(Some("t1".to_string()), Some(&access), Some(&refresh), Some(&user_id), 100);
    assert_eq!(values.refresh_expire_at, Some(100 + 525_600 * 60));
    let stored = values.save_at(&mut db, 100).unwrap();
    assert_eq!(stored.id, "t1");
    assert_eq!(stored.refresh_expire_at, 31_536_100);
    assert_eq!(stored.created_at, 100);
    assert_eq!(db.user_tokens.len(), 1);

    let missing = NewUserTokenModel::new_at(Some("t2".to_string()), Some(&access), None, Some(&user_id), 100);
    let (kind, _, _) = failure(missing.save_at(&mut db, 100).unwrap_err());
    assert_eq!(kind, DatabaseErrorKind::NotNullViolation);
    let late = NewUserTokenModel::new_at(Some("t2".to_string()), Some(&access), Some(&refresh), Some(&user_id), i64::MAX);
    assert_eq!(late.refresh_expire_at, None);
    assert!(late.save_at(&mut db, 100).is_err());
    let now = NewUserTokenModel::new(Some(&access), Some(&refresh), Some(&user_id));
    assert!(now.refresh_expire_at.unwrap() > 1_500_000_000 + 31_536_000);
    let other = "r2".to_string();
    assert!(NewUserTokenModel::new(Some(&access), Some(&other), Some(&user_id)).save(&mut db).is_ok());
    assert_eq!(db.user_tokens.len(), 2);
}

#[test]
fn session_is_saved_under_a_new_key() {
    let mut db = Database::new();
    let session = Token { value: "a1".to_string(), refresh_token: "r1".to_string(), user: user("u1", "a@example.org") };
    let same = session.save(&mut db).unwrap();
    assert_eq!(same.value, "a1");
    assert_eq!(same.value(), "a1");
    assert_eq!(same.refresh_token(), "r1");
    assert_eq!(same.user().id(), "u1");
    assert_eq!(db.user_tokens.len(), 1);
    assert_eq!(db.user_tokens[0].user_id, "u1");
    let again = Token { value: "a2".to_string(), refresh_token: "r1".to_string(), user: user("u1", "a@example.org") };
    assert!(matches!(again.save(&mut db), Err(SrvError::Duplicate(_))));
    let drawn = SessionSeed::draw();
    assert_eq!(drawn.refresh_token.len(), 36);
    assert!(drawn.token_id.is_some());
    let made = Token::from_user(user("u1", "a@example.org"), &env()).unwrap();
    assert_eq!(made.refresh_token.len(), 36);
    assert_eq!(made.refresh_token.chars().nth(14), Some('4'));
    assert_eq!(made.refresh_token.matches('-').count(), 4);
    let kept = Token { value: "a9".to_string(), refresh_token: "r9".to_string(), user: user("u1", "a@example.org") };
    let kept = kept.save_at(&mut db, 77, Some("t9".to_string())).unwrap();
    assert_eq!(kept.refresh_token, "r9");
    let row = db.user_tokens.iter().find(|t| t.id == "t9").unwrap();
    assert_eq!((row.refresh_token.as_str(), row.created_at, row.refresh_expire_at), ("r9", 77, 77 + 31_536_000));
    let keyless = Token { value: "a8".to_string(), refresh_token: "r8".to_string(), user: user("u1", "a@example.org") };
    assert!(matches!(keyless.save_at(&mut db, 77, None), Err(SrvError::InternalServerError)));
    assert_eq!(made.value.split('.').count(), 3);
}

fn env() -> auth_core::env::EnvironmentValues {
    auth_core::env::EnvironmentValues {
        domain: "localhost".to_string(),
        redis_url: String::new(),
        database_url: String::new(),
        jwt_private_key: "my secret".to_string(),
        server_port: 80,
        rust_env: "dev".to_string(),
        api_version_date: "2020-03-31".to_string(),
    }
}

#[test]
fn assignments_are_unique_and_listed_by_user() {
    let mut db = Database::new();
    let stored = NewAuthAssignmentModel::new("user", "u1").save_at(&mut db, 5).unwrap();
    assert_eq!(stored.item_name, "user");
    assert_eq!(stored.user_id, "u1");
    assert_eq!(stored.created_at, 5);
    let (kind, message, _) = failure(NewAuthAssignmentModel::new("user", "u1").save_at(&mut db, 6).unwrap_err());
    assert_eq!(kind, DatabaseErrorKind::UniqueViolation);
    assert_eq!(message, "Duplicate entry for the primary key");
    NewAuthAssignmentModel::new("admin", "u2").save_at(&mut db, 6).unwrap();
    NewAuthAssignmentModel::new("admin", "u1").save(&mut db).unwrap();
    let mine = user("u1", "a@example.org").auth_assignments(&db).unwrap();
    assert_eq!(mine.iter().map(|a| a.item_name.as_str()).collect::<Vec<_>>(), vec!["user", "admin"]);
    assert!(user("u3", "c@example.org").auth_assignments(&db).unwrap().is_empty());
    assert_eq!(db.assignments_of("u2").len(), 1);
}

#[test]
fn principal_needs_a_session_with_the_very_token() {
    let mut db = Database::new();
    db.insert_user(user("u1", "a@example.org")).unwrap();
    db.insert_user(user("u2", "b@example.org")).unwrap();
    db.insert_token(token("t1", "a1", "r1", "u1", 10)).unwrap();
    let info = |id: Option<&str>, t: Option<&str>| SlimUser { id: id.map(String::from), token: t.map(String::from) };
    assert_eq!(UserModel::find_user(&info(Some("u1"), Some("a1")), &db).unwrap().email, "a@example.org");
    assert!(UserModel::find_user(&info(Some("u2"), Some("a1")), &db).is_none());
    assert!(UserModel::find_user(&info(Some("u1"), Some("a2")), &db).is_none());
    assert!(UserModel::find_user(&info(Some("u1"), None), &db).is_none());
    assert!(UserModel::find_user(&info(None, Some("a1")), &db).is_none());
    assert!(UserModel::find_user(&info(Some("u3"), Some("a1")), &db).is_none());
    assert!(UserModel::find_user(&SlimUser::default(), &db).is_none());
    assert_eq!(SlimUser::from_user(user("u1", "a@example.org")).id.as_deref(), Some("u1"));
}

#[test]
fn children_of_a_node_are_the_nodes_its_edges_lead_to() {
    let mut db = Database::new();
    let item = |name: &str| AuthItemModel {
        name: name.to_string(),
        item_type: 1,
        description: None,
        created_at: 0,
        updated_at: 0,
    };
    db.auth_items = vec![item("admin"), item("user"), item("editor")];
    db.auth_item_children = vec![
        AuthItemChildModel { parent: "admin".to_string(), child: "user".to_string() },
        AuthItemChildModel { parent: "admin".to_string(), child: "nowhere".to_string() },
        AuthItemChildModel { parent: "editor".to_string(), child: "user".to_string() },
        AuthItemChildModel { parent: "admin".to_string(), child: "editor".to_string() },
    ];
    let children = item("admin").children(&db).unwrap();
    assert_eq!(children.iter().map(|c| c.name.as_str()).collect::<Vec<_>>(), vec!["user", "editor"]);
    assert!(item("user").children(&db).unwrap().is_empty());
    let _unused = AuthAssignmentModel { item_name: String::new(), user_id: String::new(), created_at: 0 };
}

fn account(id: &str, user_id: &str) -> ExternalUserProviderModel {
    ExternalUserProviderModel {
        id: id.to_string(),
        user_id: user_id.to_string(),
        external_id: format!("x-{}", id),
        email: None,
        provider: UserProvider::Google,
        created_at: 0,
        updated_at: 0,
        deleted: false,
    }
}

#[test]
fn accounts_are_stored_under_unique_ids() {
    let mut db = Database::new();
    let email = "a@example.org".to_string();
    let new_account =
        NewExternalUserProviderModel::new_at("e1".to_string(), "u1".to_string(), "x1".to_string(), UserProvider::Apple, &email, 9);
    let stored = new_account.save(&mut db).unwrap();
    assert_eq!(stored.id(), "e1");
    assert_eq!(stored.email().as_deref(), Some("a@example.org"));
    assert_eq!(stored.provider(), UserProvider::Apple);
    assert_eq!(stored.created_at(), 9);
    assert_eq!(stored.updated_at(), 9);
    assert!(!stored.deleted());
    assert_eq!(stored.external_id, "x1");
    let again =
        NewExternalUserProviderModel::new_at("e1".to_string(), "u2".to_string(), "x2".to_string(), UserProvider::Apple, &email, 9);
    let (kind, _, _) = failure(again.save(&mut db).unwrap_err());
    assert_eq!(kind, DatabaseErrorKind::UniqueViolation);
    let mut partial =
        NewExternalUserProviderModel::new_at("e2".to_string(), "u2".to_string(), "x2".to_string(), UserProvider::Apple, &email, 9);
    partial.deleted = None;
    let (kind, _, _) = failure(partial.save(&mut db).unwrap_err());
    assert_eq!(kind, DatabaseErrorKind::NotNullViolation);
    assert_eq!(db.external_user_providers.len(), 1);
    let drawn = NewExternalUserProviderModel::new("u1".to_string(), "x3".to_string(), UserProvider::Facebook, &email).unwrap();
    assert!(!drawn.id.is_empty());
    assert!(drawn.save(&mut db).is_ok());
}

#[test]
fn accounts_are_grouped_by_the_users_asked_for() {
    let keys = vec!["u1".to_string(), "u2".to_string(), "u1".to_string(), "u4".to_string()];
    let data = vec![account("e1", "u1"), account("e2", "u3"), account("e3", "u2"), account("e4", "u1")];
    let groups = group_by_user(&keys, &data);
    assert_eq!(groups.len(), 3);
    assert_eq!(groups[0].user_id, "u1");
    assert_eq!(groups[0].providers.iter().map(|p| p.id.as_str()).collect::<Vec<_>>(), vec!["e1", "e4"]);
    assert_eq!(groups[1].user_id, "u2");
    assert_eq!(groups[1].providers.iter().map(|p| p.id.as_str()).collect::<Vec<_>>(), vec!["e3"]);
    assert_eq!(groups[2].user_id, "u4");
    assert!(groups[2].providers.is_empty());
    assert!(group_by_user(&vec![], &data).is_empty());

    let mut db = Database::new();
    db.external_user_providers = data;
    let loaded = DataLoaders::new().e_user_by_user_id.load(&db, &vec!["u3".to_string()]);
    assert_eq!(loaded.len(), 1);
    assert_eq!(loaded[0].providers[0].id, "e2");
    assert!(user("u1", "a@example.org").providers().is_empty());
}

#[test]
fn drawn_refresh_token_is_a_random_identifier_in_hyphenated_form() {
    for _ in 0..20 {
        let seed = SessionSeed::draw();
        let text: Vec<char> = seed.refresh_token.chars().collect();
        assert_eq!(text.len(), 36);
        for (i, c) in text.iter().enumerate() {
            if i == 8 || i == 13 || i == 18 || i == 23 {
                assert_eq!(*c, '-');
            } else {
                assert!(c.is_ascii_digit() || ('a'..='f').contains(c));
            }
        }
        assert_eq!(text[14], '4');
        assert!(['8', '9', 'a', 'b'].contains(&text[19]));
        assert!(seed.now > 1_500_000_000);
    }
    assert_ne!(SessionSeed::draw().refresh_token, SessionSeed::draw().refresh_token);
    assert_ne!(SessionSeed::draw().token_id, SessionSeed::draw().token_id);
}

#[test]
fn account_is_made_where_a_key_was_drawn() {
    let email = "a@example.org".to_string();
    let made = NewExternalUserProviderModel::from_key(
        Some("e1".to_string()),
        "u1".to_string(),
        "x1".to_string(),
        UserProvider::Google,
        &email,
        12,
    )
    .unwrap();
    assert_eq!(made.id, "e1");
    assert_eq!(made.user_id, "u1");
    assert_eq!(made.external_id, "x1");
    assert_eq!(made.provider, UserProvider::Google);
    assert_eq!(made.email, Some(&email));
    assert_eq!(made.created_at, Some(12));
    assert_eq!(made.updated_at, Some(12));
    assert_eq!(made.deleted, Some(false));
    assert!(NewExternalUserProviderModel::from_key(
        None,
        "u1".to_string(),
        "x1".to_string(),
        UserProvider::Google,
        &email,
        12
    )
    .is_none());
}
