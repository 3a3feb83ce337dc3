use auth_core::jwt::{create_token, create_token_at};
use auth_core::request::{
    from_request, from_request_at, token_from_header, token_from_value, user_from_payload, user_from_payload_at,
    user_from_token_at, FieldValue, Payload, PayloadField,
};

const SECRET: &str = "my secret";

fn text_field(key: &str, value: &str) -> PayloadField {
    PayloadField { key: key.to_string(), value: FieldValue::Text(value.to_string()) }
}

fn other_field(key: &str) -> PayloadField {
    PayloadField { key: key.to_string(), value: FieldValue::Other }
}

#[test]
fn payload_that_is_a_text_is_the_token() {
    assert_eq!(token_from_value(&Payload::Text("abc".to_string())).as_deref(), Some("abc"));
    assert_eq!(token_from_value(&Payload::Text(String::new())).as_deref(), Some(""));
}

#[test]
fn payload_that_is_neither_text_nor_object_has_no_token() {
    assert_eq!(token_from_value(&Payload::Other), None);
}

#[test]
fn object_is_searched_for_four_names_in_order() {
    let all = Payload::Object(vec![
        text_field("Authorization", "d"),
        text_field("authorization", "c"),
        text_field("authKey", "b"),
        text_field("authToken", "a"),
    ]);
    assert_eq!(token_from_value(&all).as_deref(), Some("a"));
    let three = Payload::Object(vec![
        text_field("Authorization", "d"),
        text_field("authorization", "c"),
        text_field("authKey", "b"),
    ]);
    assert_eq!(token_from_value(&three).as_deref(), Some("b"));
    let two = Payload::Object(vec![text_field("Authorization", "d"), text_field("authorization", "c")]);
    assert_eq!(token_from_value(&two).as_deref(), Some("c"));
    let one = Payload::Object(vec![text_field("other", "x"), text_field("Authorization", "d")]);
    assert_eq!(token_from_value(&one).as_deref(), Some("d"));
    let none = Payload::Object(vec![text_field("other", "x"), text_field("authtoken", "y")]);
    assert_eq!(token_from_value(&none), None);
    assert_eq!(token_from_value(&Payload::Object(vec![])), None);
}

#[test]
fn member_that_is_no_text_gives_the_empty_token() {
    let payload = Payload::Object(vec![other_field("authToken"), text_field("authKey", "b")]);
    assert_eq!(token_from_value(&payload).as_deref(), Some(""));
}

#[test]
fn header_loses_the_word_bearer_and_its_white_space() {
    assert_eq!(token_from_header("Bearer abc.def.ghi"), "abc.def.ghi");
    assert_eq!(token_from_header("  Bearer   abc  "), "abc");
    assert_eq!(token_from_header("abc"), "abc");
    assert_eq!(token_from_header("BearerBearer x y "), "x y");
    assert_eq!(token_from_header("bearer abc"), "bearer abc");
    assert_eq!(token_from_header("Bearer"), "");
}

#[test]
fn request_with_a_good_token_has_principal_and_token() {
    let token = create_token_at("u1", "localhost", SECRET, 1_000, 86_400).unwrap();
    let header = format!("Bearer {}", token);
    let user = from_request_at(Some(&header), SECRET, 2_000);
    assert_eq!(user.id.as_deref(), Some("u1"));
    assert_eq!(user.token.as_deref(), Some(token.as_str()));
}

#[test]
fn request_with_a_bad_token_or_none_has_neither() {
    let token = create_token_at("u1", "localhost", SECRET, 1_000, 60).unwrap();
    let header = format!("Bearer {}", token);
    let expired = from_request_at(Some(&header), SECRET, 5_000);
    assert!(expired.id.is_none() && expired.token.is_none());
    let forged = from_request_at(Some(&header), "other", 1_000);
    assert!(forged.id.is_none() && forged.token.is_none());
    let none = from_request_at(None, SECRET, 1_000);
    assert!(none.id.is_none() && none.token.is_none());
    let garbage = user_from_token_at("garbage".to_string(), SECRET, 1_000);
    assert!(garbage.id.is_none() && garbage.token.is_none());
    let now = from_request(Some("Bearer garbage"), SECRET);
    assert!(now.id.is_none() && now.token.is_none());
}

#[test]
fn subscription_payload_names_the_principal_without_token() {
    let token = create_token_at("u1", "localhost", SECRET, 1_000, 86_400).unwrap();
    let user = user_from_payload_at(&Payload::Text(token.clone()), SECRET, 2_000);
    assert_eq!(user.id.as_deref(), Some("u1"));
    assert!(user.token.is_none());
    let object = Payload::Object(vec![text_field("authToken", &token)]);
    assert_eq!(user_from_payload_at(&object, SECRET, 2_000).id.as_deref(), Some("u1"));
    assert!(user_from_payload_at(&Payload::Other, SECRET, 2_000).id.is_none());
    assert!(user_from_payload_at(&Payload::Text("x".to_string()), SECRET, 2_000).id.is_none());
}

#[test]
fn subscription_payload_is_judged_now() {
    let token = create_token("u7", "localhost", SECRET).unwrap();
    let user = user_from_payload(&Payload::Text(token.clone()), SECRET);
    assert_eq!(user.id.as_deref(), Some("u7"));
    assert!(user.token.is_none());
    let expired = create_token_at("u7", "localhost", SECRET, 1_000, 60).unwrap();
    assert!(user_from_payload(&Payload::Text(expired), SECRET).id.is_none());
    assert!(user_from_payload(&Payload::Text(token), "other").id.is_none());
    assert!(user_from_payload(&Payload::Other, SECRET).id.is_none());
}
