use live_polls::auth::authenticate;
use live_polls::auth::strip_bearer;
use live_polls::auth::AuthError;

fn mint_token(sub: &str, exp: u64, secret: &[u8]) -> String {
    let mut claims = serde_json::Map::new();
    claims.insert("sub".to_string(), serde_json::Value::String(sub.to_string()));
    claims.insert("exp".to_string(), serde_json::Value::from(exp));
    jsonwebtoken::encode(
        &jsonwebtoken::Header::default(),
        &serde_json::Value::Object(claims),
        &jsonwebtoken::EncodingKey::from_secret(secret),
    )
    .unwrap()
}

#[test]
fn strip_bearer_splits_the_scheme_off() {
    assert_eq!(strip_bearer("Bearer abc.def.ghi"), Some("abc.def.ghi"));
    assert_eq!(strip_bearer("Bearer "), Some(""));
    assert_eq!(strip_bearer("Basic abc"), None);
    assert_eq!(strip_bearer("bearer abc"), None);
    assert_eq!(strip_bearer(""), None);
}

#[test]
fn missing_header_is_refused() {
    let r = authenticate(None, b"SECRET-REDACTED");
    assert_eq!(r, Err(AuthError::MissingToken));
    assert_eq!(r.unwrap_err().http_status(), 401);
}

#[test]
fn non_bearer_header_is_refused() {
    let r = authenticate(Some("Basic dXNlcjpwdw=="), b"SECRET-REDACTED");
    assert_eq!(r, Err(AuthError::MalformedHeader));
}

#[test]
fn garbage_token_is_refused() {
    let r = authenticate(Some("Bearer not.a.token"), b"SECRET-REDACTED");
    assert_eq!(r, Err(AuthError::InvalidToken));
}

#[test]
fn wrong_secret_is_refused() {
    let token = mint_token("alice@x", 10_000_000_000, b"right-secret");
    let header = format!("Bearer {}", token);
    let r = authenticate(Some(&header), b"wrong-secret");
    assert_eq!(r, Err(AuthError::InvalidToken));
}

#[test]
fn expired_token_is_refused() {
    let token = mint_token("alice@x", 1, b"SECRET-REDACTED");
    let header = format!("Bearer {}", token);
    let r = authenticate(Some(&header), b"SECRET-REDACTED");
    assert_eq!(r, Err(AuthError::InvalidToken));
}

#[test]
fn valid_token_yields_the_subject() {
    let token = mint_token("alice@x", 10_000_000_000, b"SECRET-REDACTED");
    let header = format!("Bearer {}", token);
    let r = authenticate(Some(&header), b"SECRET-REDACTED");
    assert_eq!(r, Ok("alice@x".to_string()));
}
