use us_stock_api::auth::{authorize, bearer_token, check_token, token_verdict, AuthRefusal};
use us_stock_api::error::Error;

fn token(claims: &serde_json::Value, secret: &str) -> String {
    jsonwebtoken::encode(
        &jsonwebtoken::Header::new(jsonwebtoken::Algorithm::HS256),
        claims,
        &jsonwebtoken::EncodingKey::from_secret(secret.as_bytes()),
    )
    .unwrap()
}

fn token_raw(claims: &Box<serde_json::value::RawValue>, secret: &str) -> String {
    jsonwebtoken::encode(
        &jsonwebtoken::Header::new(jsonwebtoken::Algorithm::HS256),
        claims,
        &jsonwebtoken::EncodingKey::from_secret(secret.as_bytes()),
    )
    .unwrap()
}

fn far_future() -> u64 {
    4_102_444_800
}

fn alice_claims() -> serde_json::Value {
    let mut claims = serde_json::Map::new();
    claims.insert("sub".to_string(), serde_json::Value::String("alice".to_string()));
    claims.insert("exp".to_string(), serde_json::Value::from(far_future()));
    serde_json::Value::Object(claims)
}

fn is_invalid_token(e: &Error) -> bool {
    matches!(e, Error::Unauthorized(m) if m == "Invalid token")
}

fn refused_token(r: Result<String, AuthRefusal>) -> bool {
    match r {
        Err(refusal @ AuthRefusal::InvalidToken(_)) => is_invalid_token(&refusal.into_error()),
        _ => false,
    }
}

fn no_bearer(r: Result<String, AuthRefusal>) -> bool {
    match r {
        Err(refusal @ AuthRefusal::NoBearerToken) => is_invalid_token(&refusal.into_error()),
        _ => false,
    }
}

#[test]
fn bearer_token_is_extracted() {
    assert_eq!(bearer_token(Some("Bearer abc.def.ghi")), Some("abc.def.ghi".to_string()));
}

#[test]
fn repeated_bearer_prefixes_and_spaces_are_removed() {
    assert_eq!(bearer_token(Some("Bearer Bearer   abc  ")), Some("abc".to_string()));
    assert_eq!(bearer_token(Some("Bearer ")), Some(String::new()));
}

#[test]
fn other_schemes_are_not_bearer_tokens() {
    assert_eq!(bearer_token(Some("bearer abc")), None);
    assert_eq!(bearer_token(Some("Basic abc")), None);
    assert_eq!(bearer_token(Some("Bearer")), None);
    assert_eq!(bearer_token(None), None);
}

#[test]
fn missing_header_is_refused() {
    assert!(no_bearer(authorize(None, "s")));
}

#[test]
fn wrong_scheme_is_refused() {
    assert!(no_bearer(authorize(Some("Token abc"), "s")));
}

#[test]
fn malformed_token_is_refused() {
    assert!(refused_token(authorize(Some("Bearer abc"), "s")));
    assert!(refused_token(authorize(Some("Bearer a.b"), "s")));
}

#[test]
fn valid_token_is_accepted() {
    let t = token(&alice_claims(), "secret");
    let header = format!("Bearer {}", t);
    assert_eq!(authorize(Some(&header), "secret").unwrap(), "alice");
}

#[test]
fn token_signed_with_another_secret_is_refused() {
    let t = token(&alice_claims(), "other");
    let header = format!("Bearer {}", t);
    assert!(refused_token(authorize(Some(&header), "secret")));
}

#[test]
fn expired_token_is_refused() {
    let mut claims = serde_json::Map::new();
    claims.insert("sub".to_string(), serde_json::Value::String("alice".to_string()));
    claims.insert("exp".to_string(), serde_json::Value::from(1_000_000u64));
    let t = token(&serde_json::Value::Object(claims), "secret");
    let header = format!("Bearer {}", t);
    assert!(refused_token(authorize(Some(&header), "secret")));
}

#[test]
fn token_without_subject_is_refused() {
    let mut claims = serde_json::Map::new();
    claims.insert("exp".to_string(), serde_json::Value::from(far_future()));
    let t = token(&serde_json::Value::Object(claims), "secret");
    let header = format!("Bearer {}", t);
    assert!(refused_token(authorize(Some(&header), "secret")));
}

#[test]
fn token_with_numeric_subject_is_refused() {
    let mut claims = serde_json::Map::new();
    claims.insert("sub".to_string(), serde_json::Value::from(7u64));
    claims.insert("exp".to_string(), serde_json::Value::from(far_future()));
    let t = token(&serde_json::Value::Object(claims), "secret");
    let header = format!("Bearer {}", t);
    assert!(refused_token(authorize(Some(&header), "secret")));
}

#[test]
fn verdicts() {
    let members = vec![("exp".to_string(), "1".to_string()), ("sub".to_string(), " \"bob\" ".to_string())];
    assert_eq!(token_verdict(Ok(members)).unwrap(), "bob");
    let numeric = vec![("sub".to_string(), "7".to_string())];
    assert_eq!(token_verdict(Ok(numeric)).unwrap_err(), "missing or non-text `sub` claim");
    assert_eq!(token_verdict(Ok(vec![])).unwrap_err(), "missing or non-text `sub` claim");
    assert_eq!(token_verdict(Err("bad".to_string())).unwrap_err(), "bad");
}

#[test]
fn escaped_subject_is_read_as_json() {
    let members = vec![("sub".to_string(), "\"a\\u0062c\"".to_string())];
    assert_eq!(token_verdict(Ok(members)).unwrap(), "abc");
}

#[test]
fn unusual_extra_claims_are_skipped() {
    let deep = format!("{}{}", "[".repeat(200), "]".repeat(200));
    let payload = format!(
        "{{\"sub\":\"alice\",\"exp\":{},\"deep\":{},\"huge\":1e400}}",
        far_future(),
        deep
    );
    let value: Box<serde_json::value::RawValue> = serde_json::value::RawValue::from_string(payload).unwrap();
    let t = token_raw(&value, "secret");
    let header = format!("Bearer {}", t);
    assert_eq!(authorize(Some(&header), "secret").unwrap(), "alice");
}

#[test]
fn check_token_uses_the_secret() {
    let t = token(&alice_claims(), "secret");
    assert_eq!(check_token(&t, "secret").unwrap(), "alice");
    assert!(check_token(&t, "").is_err());
    assert!(check_token(&t, "secreT").is_err());
}

#[test]
fn token_signed_with_empty_secret_is_refused_under_a_real_secret() {
    let t = token(&alice_claims(), "");
    let header = format!("Bearer {}", t);
    assert!(refused_token(authorize(Some(&header), "secret")));
}

#[test]
fn extra_bearer_prefixes_do_not_change_the_outcome() {
    let t = token(&alice_claims(), "secret");
    for header in [format!("Bearer {}", t), format!("Bearer Bearer {}", t), format!("Bearer   {}  ", t)] {
        assert_eq!(authorize(Some(&header), "secret").unwrap(), "alice");
    }
    assert!(no_bearer(authorize(Some("Bearer"), "secret")));
}
