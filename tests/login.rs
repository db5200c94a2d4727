use portier::domain_validator::DomainValidator;
use portier::jws::{jwk_key_set, session_id, sign_jws, verify_jws, NamedKey};
use portier::session::{
    complete_auth, BridgeData, CompleteError, EmailBridgeData, ReturnParams, SessionRecord,
    SessionStore,
};

#[test]
fn email_login_scenario() {
    let mut validator = DomainValidator::default();
    validator.add_valid_tld("com").unwrap();
    validator.add_valid_suffix("com").unwrap();
    assert!(validator.validate("example.com").is_ok());

    let rsa = openssl::rsa::Rsa::generate(2048).unwrap();
    let keys = vec![NamedKey::from_pem("main", &rsa.private_key_to_pem().unwrap()).ok().unwrap()];
    let published = jwk_key_set(&keys);

    let sid = session_id("user@example.com", "https://rp.example").unwrap();
    let mut store: SessionStore<SessionRecord> = SessionStore::new();
    let record = SessionRecord {
        session_id: sid.clone(),
        return_params: ReturnParams {
            client_id: "https://rp.example".to_string(),
            redirect_uri: "https://rp.example/login".to_string(),
            response_mode: "fragment".to_string(),
            response_type: "id_token".to_string(),
            scope: "openid email".to_string(),
            state: "xyz".to_string(),
            nonce: "abc".to_string(),
        },
        email: "user@example.com".to_string(),
        email_addr: "user@example.com".to_string(),
        bridge_data: BridgeData::Email(EmailBridgeData {
            code_hash: "hash".to_string(),
            expires_at: 1900,
            attempts: 0,
        }),
        created_at: 1000,
    };
    assert!(store.put(sid.clone(), record, 900, 1000).is_ok());

    let done = complete_auth(&mut store, &sid, 1200).ok().unwrap();
    let mut claims = serde_json::Map::new();
    claims.insert("aud".to_string(), serde_json::Value::from("https://rp.example"));
    claims.insert("email".to_string(), serde_json::Value::from(done.email.clone()));
    claims.insert("email_verified".to_string(), serde_json::Value::from(true));
    claims.insert("nonce".to_string(), serde_json::Value::from(done.return_params.nonce.clone()));
    let body = serde_json::to_vec(&serde_json::Value::Object(claims)).unwrap();
    let token = sign_jws(&keys[0], &body).unwrap();

    let verified: serde_json::Value =
        serde_json::from_slice(&verify_jws(&token, &published).ok().unwrap()).unwrap();
    assert_eq!(verified.get("aud").and_then(|v| v.as_str()), Some("https://rp.example"));
    assert_eq!(verified.get("nonce").and_then(|v| v.as_str()), Some("abc"));
    assert_eq!(done.return_params.state, "xyz");

    // The emailed link opened a second time finds no session.
    assert!(matches!(complete_auth(&mut store, &sid, 1201), Err(CompleteError::UnknownSession)));
}
