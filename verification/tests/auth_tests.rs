use aether::auth::{JwtAlgorithm, JwtConfig, JwtError, JwtManager};

fn lookup<'a>(pairs: &'a [(String, String)], key: &str) -> Option<&'a str> {
    pairs.iter().find(|p| p.0 == key).map(|p| p.1.as_str())
}

#[test]
fn test_secret_generation() {
    let secret = JwtManager::generate_secret();
    assert!(!secret.is_empty());
    assert!(secret.len() >= 32); // Base64 encoded 32 bytes
}

#[test]
fn test_secret_generation_length_is_exactly_base64_of_32_bytes() {
    let secret = JwtManager::generate_secret();
    assert_eq!(secret.len(), 44);
}

#[test]
fn test_secret_hashing() {
    let secret = "test_secret";
    let hash = JwtManager::hash_secret(secret);
    assert!(!hash.is_empty());
    assert_eq!(hash.len(), 64); // SHA-256 produces 64 hex characters

    // Same secret should produce same hash
    let hash2 = JwtManager::hash_secret(secret);
    assert_eq!(hash, hash2);
}

#[test]
fn test_secret_hashing_known_digest() {
    assert_eq!(
        JwtManager::hash_secret("test_secret"),
        "52bfd2de0a2e69dff4517518590ac32a46bd76606ec22a258f99584a6e70aca2"
    );
}

#[test]
fn test_token_generation() {
    let secret = JwtManager::generate_secret();
    let jwt = JwtManager::new(secret.as_bytes());

    let token = jwt
        .generate_token("user123", "admin", 3600)
        .expect("Failed to generate token");

    assert!(!token.is_empty());
    assert!(token.contains('.')); // JWT contains at least one dot
}

#[test]
fn test_token_with_custom_claims() {
    let secret = JwtManager::generate_secret();
    let jwt = JwtManager::new(secret.as_bytes());

    let mut custom_claims = Vec::new();
    custom_claims.push(("department".to_string(), "engineering".to_string()));
    custom_claims.push(("team".to_string(), "backend".to_string()));

    let token = jwt
        .generate_token_with_claims("user123", "admin", 3600, Some(custom_claims))
        .expect("Failed to generate token");

    let claims = jwt.validate_token(&token).expect("Failed to validate token");

    assert_eq!(claims.sub, "user123");
    assert_eq!(claims.role, "admin");

    let custom = claims.custom_claims.unwrap();
    assert_eq!(lookup(&custom, "department").unwrap(), "engineering");
    assert_eq!(lookup(&custom, "team").unwrap(), "backend");
}

#[test]
fn test_token_with_different_algorithms() {
    let secret = JwtManager::generate_secret();

    // Test HS384
    let config = JwtConfig { algorithm: JwtAlgorithm::HS384, ..Default::default() };
    let jwt = JwtManager::with_config(secret.as_bytes(), config);
    let token = jwt
        .generate_token("user123", "admin", 3600)
        .expect("Failed to generate HS384 token");
    assert!(jwt.validate_token(&token).is_ok());

    // Test HS512
    let config = JwtConfig { algorithm: JwtAlgorithm::HS512, ..Default::default() };
    let jwt = JwtManager::with_config(secret.as_bytes(), config);
    let token = jwt
        .generate_token("user123", "admin", 3600)
        .expect("Failed to generate HS512 token");
    assert!(jwt.validate_token(&token).is_ok());
}

#[test]
fn test_token_with_audience() {
    let secret = JwtManager::generate_secret();
    let config = JwtConfig { aud: Some("test-app".to_string()), ..Default::default() };
    let jwt = JwtManager::with_config(secret.as_bytes(), config);

    let token = jwt
        .generate_token("user123", "admin", 3600)
        .expect("Failed to generate token");

    // Should validate with correct audience
    assert!(jwt.validate_token(&token).is_ok());

    // Should fail with different audience
    let config = JwtConfig { aud: Some("different-app".to_string()), ..Default::default() };
    let other_jwt = JwtManager::with_config(secret.as_bytes(), config);
    assert!(matches!(other_jwt.validate_token(&token), Err(JwtError::InvalidToken)));
}

#[test]
fn test_token_refresh_with_custom_claims() {
    let secret = JwtManager::generate_secret();
    let jwt = JwtManager::new(secret.as_bytes());

    let mut original_claims = Vec::new();
    original_claims.push(("department".to_string(), "engineering".to_string()));

    let token = jwt
        .generate_token_with_claims("user123", "admin", 3600, Some(original_claims))
        .expect("Failed to generate token");

    let mut new_claims = Vec::new();
    new_claims.push(("department".to_string(), "devops".to_string()));

    let new_token = jwt
        .refresh_token_with_claims(&token, 7200, Some(new_claims))
        .expect("Failed to refresh token");

    let claims = jwt.validate_token(&new_token).expect("Failed to validate refreshed token");

    let custom = claims.custom_claims.unwrap();
    assert_eq!(lookup(&custom, "department").unwrap(), "devops");
}

#[test]
fn test_garbage_token_is_invalid() {
    let jwt = JwtManager::new(b"some-secret");
    assert!(matches!(jwt.validate_token("not.a.token"), Err(JwtError::InvalidToken)));
    assert!(matches!(jwt.validate_token(""), Err(JwtError::InvalidToken)));
}

#[test]
fn test_wrong_secret_is_invalid() {
    let jwt = JwtManager::new(b"secret-one");
    let token = jwt.generate_token("u", "r", 3600).unwrap();
    let other = JwtManager::new(b"secret-two");
    assert!(matches!(other.validate_token(&token), Err(JwtError::InvalidToken)));
}

#[test]
fn test_overflowing_lifetime_is_an_encoding_error() {
    let jwt = JwtManager::new(b"secret");
    assert!(matches!(
        jwt.generate_token("u", "r", u64::MAX),
        Err(JwtError::EncodingError(_))
    ));
}

#[test]
fn test_roundtrip_keeps_subject_role_and_audience() {
    let config = JwtConfig { aud: Some("app".to_string()), ..Default::default() };
    let jwt = JwtManager::with_config(b"roundtrip-secret", config);
    let token = jwt.generate_token("subject-1", "viewer", 600).unwrap();
    let claims = jwt.validate_token(&token).unwrap();
    assert_eq!(claims.sub, "subject-1");
    assert_eq!(claims.role, "viewer");
    assert_eq!(claims.aud.as_deref(), Some("app"));
    assert_eq!(claims.exp, claims.iat + 600);
    assert!(claims.custom_claims.is_none());
}

#[test]
fn test_non_string_custom_claim_is_invalid() {
    // A token whose custom_claims object holds a non-string value must be
    // rejected whole, as a typed decode of the map would reject it.
    let mut custom = serde_json::Map::new();
    custom.insert("a".to_string(), serde_json::Value::from(5u64));
    let mut m = serde_json::Map::new();
    m.insert("sub".to_string(), serde_json::Value::from("u".to_string()));
    m.insert("exp".to_string(), serde_json::Value::from(99999999999u64));
    m.insert("iat".to_string(), serde_json::Value::from(0u64));
    m.insert("role".to_string(), serde_json::Value::from("r".to_string()));
    m.insert("custom_claims".to_string(), serde_json::Value::Object(custom));
    let token = jsonwebtoken::encode(
        &jsonwebtoken::Header::new(jsonwebtoken::Algorithm::HS256),
        &serde_json::Value::Object(m),
        &jsonwebtoken::EncodingKey::from_secret(b"s"),
    )
    .unwrap();
    let jwt = JwtManager::new(b"s");
    assert!(matches!(jwt.validate_token(&token), Err(JwtError::InvalidToken)));
}
