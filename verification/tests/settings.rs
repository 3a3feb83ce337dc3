use auth_core::api_version::{api_version, ApiDate};
use auth_core::env::{EnvironmentValues, EnvironmentVariables, SettingError};
use auth_core::errors::SrvError;
use auth_core::pagination::{
    page_neighbours, page_offset, users_page, UsersPage, DEFAULT_PER_PAGE, MAX_PAGE_SIZE,
};
use auth_core::redis::{client_or_failure, connect};

fn vars() -> EnvironmentVariables {
    EnvironmentVariables {
        domain: None,
        database_url: Some("mysql://localhost/app".to_string()),
        redis_url: Some("redis://127.0.0.1/".to_string()),
        jwt_private_key: None,
        server_port: None,
        rust_env: None,
        api_version_date: None,
    }
}

#[test]
fn unset_variables_take_their_defaults() {
    let env = EnvironmentValues::init(vars()).unwrap();
    assert_eq!(env.domain, "localhost");
    assert_eq!(env.database_url, "mysql://localhost/app");
    assert_eq!(env.redis_url, "redis://127.0.0.1/");
    assert_eq!(env.jwt_private_key, "my secret");
    assert_eq!(env.server_port, 80);
    assert_eq!(env.rust_env, "dev");
    assert_eq!(env.api_version_date, "2020-03-31");
}

#[test]
fn set_variables_are_taken() {
    let mut v = vars();
    v.domain = Some("example.org".to_string());
    v.jwt_private_key = Some("k".to_string());
    v.server_port = Some("8080".to_string());
    v.rust_env = Some("prod".to_string());
    v.api_version_date = Some("2021-01-02".to_string());
    let env = EnvironmentValues::init(v).unwrap();
    assert_eq!(env.domain, "example.org");
    assert_eq!(env.jwt_private_key, "k");
    assert_eq!(env.server_port, 8080);
    assert_eq!(env.rust_env, "prod");
    assert_eq!(env.api_version_date, "2021-01-02");
}

#[test]
fn database_and_redis_have_no_default() {
    let mut v = vars();
    v.database_url = None;
    v.redis_url = None;
    assert_eq!(EnvironmentValues::init(v).unwrap_err(), SettingError::DatabaseUrlMissing);
    let mut v = vars();
    v.redis_url = None;
    v.server_port = Some("x".to_string());
    assert_eq!(EnvironmentValues::init(v).unwrap_err(), SettingError::RedisUrlMissing);
}

#[test]
fn port_must_be_a_number_that_fits() {
    for bad in ["eighty", "", " 80", "40000", "80.0"] {
        let mut v = vars();
        v.server_port = Some(bad.to_string());
        assert_eq!(EnvironmentValues::init(v).unwrap_err(), SettingError::ServerPortNotANumber);
    }
    let mut v = vars();
    v.server_port = Some("-1".to_string());
    assert_eq!(EnvironmentValues::init(v).unwrap().server_port, -1);
}

#[test]
fn version_is_told_with_stage_and_day() {
    let env = EnvironmentValues::init(vars()).unwrap();
    let v = api_version(&env).unwrap();
    assert_eq!(v.version, "0.1.0");
    assert_eq!(v.stage, "dev");
    assert_eq!(v.date, ApiDate { year: 2020, month: 3, day: 31 });
}

#[test]
fn version_needs_a_day_of_the_calendar() {
    let mut v = vars();
    v.api_version_date = Some("2020-02-30".to_string());
    assert!(api_version(&EnvironmentValues::init(v).unwrap()).is_none());
    let mut v = vars();
    v.api_version_date = Some("yesterday".to_string());
    assert!(api_version(&EnvironmentValues::init(v).unwrap()).is_none());
}

#[test]
fn redis_client_is_made_of_a_redis_url() {
    assert!(connect("redis://127.0.0.1/").is_ok());
    assert!(connect("redis://127.0.0.1:6380/2").is_ok());
    assert!(matches!(connect("http://127.0.0.1/"), Err(SrvError::InternalServerError)));
    assert!(matches!(connect("not a url"), Err(SrvError::InternalServerError)));
}

#[test]
fn page_offset_is_the_rows_of_the_pages_before() {
    assert_eq!(page_offset(1, 10), Some(0));
    assert_eq!(page_offset(3, 10), Some(20));
    assert_eq!(page_offset(0, 10), Some(-10));
    assert_eq!(page_offset(i64::MIN, 10), None);
    assert_eq!(page_offset(i64::MAX, 2), None);
    assert_eq!(page_offset(i64::MAX, 1), Some(i64::MAX - 1));
}

#[test]
fn users_page_is_chosen_by_the_arguments_given() {
    assert_eq!(DEFAULT_PER_PAGE, 10);
    assert_eq!(MAX_PAGE_SIZE, 100);
    match users_page(Some("a".to_string()), Some("m".to_string()), Some(5), None) {
        Some(UsersPage::Between { after, before, per_page }) => {
            assert_eq!((after.as_str(), before.as_str(), per_page), ("a", "m", 100));
        }
        _ => panic!("no page between two ids"),
    }
    match users_page(None, None, Some(5), None) {
        Some(UsersPage::First { per_page }) => assert_eq!(per_page, 5),
        _ => panic!("no first page"),
    }
    assert!(users_page(None, None, None, None).is_none());
    assert!(users_page(None, None, Some(5), Some(5)).is_none());
    assert!(users_page(Some("a".to_string()), None, Some(5), None).is_none());
    assert!(users_page(None, Some("m".to_string()), Some(5), None).is_none());
    assert!(users_page(Some("a".to_string()), Some("m".to_string()), None, None).is_none());
    assert_eq!(page_neighbours(1, 1), (false, false));
    assert_eq!(page_neighbours(1, 3), (false, true));
    assert_eq!(page_neighbours(2, 3), (true, true));
    assert_eq!(page_neighbours(3, 3), (true, false));
}

#[test]
fn client_that_was_not_made_is_an_internal_failure() {
    assert!(matches!(client_or_failure(None), Err(SrvError::InternalServerError)));
    let made = redis::Client::open("redis://127.0.0.1/").ok();
    assert!(made.is_some());
    assert!(client_or_failure(made).is_ok());
}
