use auth_core::errors::SrvError;
use auth_core::input::{UserLoginInput, UserRegisterInput, UserUpdateInput};

fn fields(r: Result<(), SrvError>) -> Vec<(String, String, Option<String>)> {
    match r {
        Ok(()) => vec![],
        Err(SrvError::ValidationError(list)) => {
            assert!(!list.is_empty());
            list.into_iter().map(|v| (v.field, v.code, v.message)).collect()
        }
        Err(_) => panic!("another failure than a broken rule"),
    }
}

fn register(email: &str, name: &str, password: &str) -> UserRegisterInput {
    UserRegisterInput { email: email.to_string(), name: name.to_string(), password: password.to_string() }
}

#[test]
fn good_register_input_passes() {
    assert!(register("ada@example.org", "Ada", "secret").validate().is_ok());
    assert!(register("ada@example.org", &"n".repeat(255), "secret").validate().is_ok());
    assert!(register("email@[127.0.0.1]", "A", "sécret").validate().is_ok());
}

#[test]
fn register_input_lists_broken_rules_in_field_order() {
    let broken = fields(register("no address", "", "short").validate());
    assert_eq!(
        broken,
        vec![
            ("email".to_string(), "email".to_string(), Some("This value should be a E-Mail".to_string())),
            ("name".to_string(), "length".to_string(), None),
            ("password".to_string(), "length".to_string(), None),
        ]
    );
    let broken = fields(register("ada@example.org", &"n".repeat(256), "secret").validate());
    assert_eq!(broken, vec![("name".to_string(), "length".to_string(), None)]);
}

#[test]
fn length_counts_characters_not_bytes() {
    assert!(register("ada@example.org", "Ada", "ääää").validate().is_err());
    assert!(register("ada@example.org", "Ada", "ääääää").validate().is_ok());
    assert!(register("ada@example.org", &"ä".repeat(255), "secret").validate().is_ok());
}

#[test]
fn login_input_is_held_to_address_and_password() {
    let ok = UserLoginInput { email: "ada@example.org".to_string(), password: "secret".to_string() };
    assert!(ok.validate().is_ok());
    let broken = UserLoginInput { email: "ada".to_string(), password: "secret".to_string() };
    assert_eq!(fields(broken.validate()).len(), 1);
    let broken = UserLoginInput { email: "ada@example.org".to_string(), password: "12345".to_string() };
    assert_eq!(fields(broken.validate())[0].0, "password");
    let broken = UserLoginInput { email: "".to_string(), password: "".to_string() };
    assert_eq!(fields(broken.validate()).len(), 2);
}

#[test]
fn update_input_is_held_to_what_it_gives() {
    assert!(UserUpdateInput { email: None, password: None }.validate().is_ok());
    assert!(UserUpdateInput { email: Some("a@b.org".to_string()), password: None }.validate().is_ok());
    assert!(UserUpdateInput { email: None, password: Some("secret".to_string()) }.validate().is_ok());
    let broken = UserUpdateInput { email: Some("nothing".to_string()), password: Some("x".to_string()) };
    let list = fields(broken.validate());
    assert_eq!(list.len(), 2);
    assert_eq!(list[0].0, "email");
    assert_eq!(list[1].0, "password");
    let broken = UserUpdateInput { email: None, password: Some("x".to_string()) };
    assert_eq!(fields(broken.validate()).len(), 1);
}
