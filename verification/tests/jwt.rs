use auth_core::jwt::{
    claim_number, claim_of, claim_text, create_token, create_token_at, decode_token, decode_token_at,
    principal_of, raw_claims, Claim, ClaimValue, Claims, DecodeError, JwtFailure, RawClaims,
};

const SECRET: &str = "my secret";

#[test]
fn token_made_and_read_with_one_secret_names_the_principal() {
    let token = create_token_at("user-1", "localhost", SECRET, 1_000, 86_400).unwrap();
    assert_eq!(token.split('.').count(), 3);
    let user = decode_token_at(&token, SECRET, 1_500).unwrap();
    assert_eq!(user.id.as_deref(), Some("user-1"));
    assert!(user.token.is_none());
}

#[test]
fn token_is_a_function_of_claims_and_secret() {
    let a = create_token_at("user-1", "localhost", SECRET, 1_000, 86_400).unwrap();
    let b = create_token_at("user-1", "localhost", SECRET, 1_000, 86_400).unwrap();
    let c = create_token_at("user-2", "localhost", SECRET, 1_000, 86_400).unwrap();
    let d = create_token_at("user-1", "localhost", "other", 1_000, 86_400).unwrap();
    assert_eq!(a, b);
    assert_ne!(a, c);
    assert_ne!(a, d);
    assert_ne!(a, "user-1");
}

#[test]
fn token_signed_with_another_secret_has_a_bad_signature() {
    let token = create_token_at("user-1", "localhost", "another secret", 1_000, 86_400).unwrap();
    assert_eq!(decode_token_at(&token, SECRET, 1_500).unwrap_err(), DecodeError::BadSignature);
}

#[test]
fn text_that_is_no_token_is_malformed() {
    assert_eq!(decode_token_at("not a token", SECRET, 0).unwrap_err(), DecodeError::MalformedToken);
    assert_eq!(decode_token_at("", SECRET, 0).unwrap_err(), DecodeError::MalformedToken);
    assert_eq!(decode_token_at("a.b.c", SECRET, 0).unwrap_err(), DecodeError::MalformedToken);
}

#[test]
fn token_past_its_last_second_is_expired() {
    let token = create_token_at("user-1", "localhost", SECRET, 1_000, 60).unwrap();
    assert!(decode_token_at(&token, SECRET, 1_060).is_ok());
    assert_eq!(decode_token_at(&token, SECRET, 1_061).unwrap_err(), DecodeError::Expired);
}

#[test]
fn token_signed_with_another_algorithm_is_refused() {
    let mut claims = serde_json::Map::new();
    claims.insert("iss".to_string(), serde_json::Value::from("localhost"));
    claims.insert("sub".to_string(), serde_json::Value::from("auth"));
    claims.insert("iat".to_string(), serde_json::Value::from(1_000));
    claims.insert("exp".to_string(), serde_json::Value::from(2_000));
    claims.insert("id".to_string(), serde_json::Value::from("user-1"));
    let token = jsonwebtoken::encode(
        &jsonwebtoken::Header::new(jsonwebtoken::Algorithm::HS256),
        &claims,
        &jsonwebtoken::EncodingKey::from_secret(SECRET.as_bytes()),
    )
    .unwrap();
    assert_eq!(decode_token_at(&token, SECRET, 1_500).unwrap_err(), DecodeError::BadSignature);
}

#[test]
fn token_without_a_principal_is_malformed() {
    let mut claims = serde_json::Map::new();
    claims.insert("iss".to_string(), serde_json::Value::from("localhost"));
    claims.insert("sub".to_string(), serde_json::Value::from("auth"));
    claims.insert("iat".to_string(), serde_json::Value::from(1_000));
    claims.insert("exp".to_string(), serde_json::Value::from(2_000));
    let token = jsonwebtoken::encode(
        &jsonwebtoken::Header::new(jsonwebtoken::Algorithm::HS512),
        &claims,
        &jsonwebtoken::EncodingKey::from_secret(SECRET.as_bytes()),
    )
    .unwrap();
    assert_eq!(decode_token_at(&token, SECRET, 1_500).unwrap_err(), DecodeError::MalformedToken);
}

#[test]
fn claims_hold_issuer_subject_and_both_times() {
    let claims = Claims::with_id_at("user-1", "example.org", 1_000, 86_400).unwrap();
    assert_eq!(claims.iss, "example.org");
    assert_eq!(claims.sub, "auth");
    assert_eq!(claims.iat, 1_000);
    assert_eq!(claims.exp, 87_400);
    assert_eq!(claims.id, "user-1");
    assert!(Claims::with_id_at("user-1", "example.org", i64::MAX, 1).is_none());
    assert!(create_token_at("user-1", "example.org", SECRET, i64::MAX, 86_400).is_none());
}

#[test]
fn decision_on_read_claims() {
    let raw = |exp: Option<i64>, id: Option<&str>| RawClaims {
        iss: Some("localhost".to_string()),
        sub: Some("auth".to_string()),
        iat: Some(0),
        exp,
        id: id.map(|s| s.to_string()),
    };
    assert_eq!(principal_of(Ok(raw(Some(10), Some("u"))), 10).unwrap().id.as_deref(), Some("u"));
    assert_eq!(principal_of(Ok(raw(Some(10), Some("u"))), 11).unwrap_err(), DecodeError::Expired);
    assert_eq!(principal_of(Ok(raw(None, Some("u"))), 0).unwrap_err(), DecodeError::MalformedToken);
    assert_eq!(principal_of(Ok(raw(Some(10), None)), 0).unwrap_err(), DecodeError::MalformedToken);
    assert_eq!(principal_of(Err(JwtFailure::InvalidSignature), 0).unwrap_err(), DecodeError::BadSignature);
    assert_eq!(principal_of(Err(JwtFailure::InvalidAlgorithm), 0).unwrap_err(), DecodeError::BadSignature);
    assert_eq!(principal_of(Err(JwtFailure::InvalidToken), 0).unwrap_err(), DecodeError::MalformedToken);
    assert_eq!(principal_of(Err(JwtFailure::Other), 0).unwrap_err(), DecodeError::MalformedToken);
}

#[test]
fn token_made_now_is_read_now() {
    let token = create_token("user-9", "localhost", SECRET).unwrap();
    let user = decode_token(&token, SECRET).unwrap();
    assert_eq!(user.id.as_deref(), Some("user-9"));
    assert!(decode_token(&token, "wrong").is_none());
    assert!(decode_token("garbage", SECRET).is_none());
}

#[test]
fn claims_are_borne_under_their_five_names() {
    let claims = Claims::with_id_at("user-1", "example.org", 1_000, 60).unwrap();
    assert_eq!(
        claims.texts(),
        vec![
            ("iss".to_string(), "example.org".to_string()),
            ("sub".to_string(), "auth".to_string()),
            ("id".to_string(), "user-1".to_string()),
        ]
    );
    assert_eq!(claims.numbers(), vec![("iat".to_string(), 1_000), ("exp".to_string(), 1_060)]);
    let token = create_token_at("user-1", "example.org", SECRET, 1_000, 60).unwrap();
    let read = jsonwebtoken::dangerous_insecure_decode::<serde_json::Value>(&token).unwrap().claims;
    assert_eq!(read["iss"], "example.org");
    assert_eq!(read["sub"], "auth");
    assert_eq!(read["iat"], 1_000);
    assert_eq!(read["exp"], 1_060);
    assert_eq!(read["id"], "user-1");
    assert_eq!(read.as_object().unwrap().len(), 5);
}

#[test]
fn member_is_a_text_or_a_number_or_something_else() {
    assert!(matches!(claim_of("a".to_string(), Some("t".to_string()), None).value, ClaimValue::Text(t) if t == "t"));
    assert!(matches!(claim_of("a".to_string(), None, Some(7)).value, ClaimValue::Number(7)));
    assert!(matches!(claim_of("a".to_string(), None, None).value, ClaimValue::Other));
    assert_eq!(claim_of("a".to_string(), None, None).name, "a");
}

#[test]
fn claims_are_looked_up_by_name_and_kind() {
    let list = vec![
        Claim { name: "exp".to_string(), value: ClaimValue::Number(10) },
        Claim { name: "id".to_string(), value: ClaimValue::Text("u".to_string()) },
        Claim { name: "iat".to_string(), value: ClaimValue::Text("soon".to_string()) },
        Claim { name: "iss".to_string(), value: ClaimValue::Other },
    ];
    assert_eq!(claim_number(&list, "exp"), Some(10));
    assert_eq!(claim_text(&list, "exp"), None);
    assert_eq!(claim_text(&list, "id").as_deref(), Some("u"));
    assert_eq!(claim_number(&list, "iat"), None);
    assert_eq!(claim_text(&list, "iss"), None);
    assert_eq!(claim_text(&list, "sub"), None);
    let raw = raw_claims(&list);
    assert_eq!(raw.exp, Some(10));
    assert_eq!(raw.id.as_deref(), Some("u"));
    assert!(raw.iss.is_none() && raw.sub.is_none() && raw.iat.is_none());
}

#[test]
fn token_whose_expiry_is_no_number_is_malformed() {
    let mut claims = serde_json::Map::new();
    claims.insert("iss".to_string(), serde_json::Value::from("localhost"));
    claims.insert("sub".to_string(), serde_json::Value::from("auth"));
    claims.insert("iat".to_string(), serde_json::Value::from(1_000));
    claims.insert("exp".to_string(), serde_json::Value::from("never"));
    claims.insert("id".to_string(), serde_json::Value::from("user-1"));
    let token = jsonwebtoken::encode(
        &jsonwebtoken::Header::new(jsonwebtoken::Algorithm::HS512),
        &claims,
        &jsonwebtoken::EncodingKey::from_secret(SECRET.as_bytes()),
    )
    .unwrap();
    assert_eq!(decode_token_at(&token, SECRET, 1_500).unwrap_err(), DecodeError::MalformedToken);
}

#[test]
fn text_with_fewer_than_two_dots_is_malformed() {
    for text in ["", "abc", "a.b", ".", "no dots at all", "one.dot"] {
        assert_eq!(decode_token_at(text, SECRET, 0).unwrap_err(), DecodeError::MalformedToken);
    }
}
