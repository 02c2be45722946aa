use rsiprtp::sip::auth::{
    compute_digest, generate_cnonce, Algorithm, DigestAuthError, DigestChallenge, DigestCredentials, DigestResponse,
    Qop,
};

#[test]
fn test_parse_simple_challenge() {
    let challenge = DigestChallenge::parse(r#"Digest realm="asterisk", nonce="1234567890""#).unwrap();
    assert_eq!(challenge.realm, "asterisk");
    assert_eq!(challenge.nonce, "1234567890");
    assert_eq!(challenge.algorithm, Algorithm::Md5);
    assert!(challenge.opaque.is_none());
}

#[test]
fn test_parse_full_challenge() {
    let challenge = DigestChallenge::parse(
        r#"Digest realm="sip.example.com", nonce="abc123", opaque="xyz", algorithm=MD5, qop="auth", stale=true"#,
    )
    .unwrap();
    assert_eq!(challenge.realm, "sip.example.com");
    assert_eq!(challenge.nonce, "abc123");
    assert_eq!(challenge.opaque, Some("xyz".to_string()));
    assert_eq!(challenge.algorithm, Algorithm::Md5);
    assert_eq!(challenge.qop, Some(Qop::Auth));
    assert!(challenge.stale);
}

#[test]
fn test_parse_md5_sess() {
    let challenge = DigestChallenge::parse(r#"Digest realm="test", nonce="abc", algorithm=MD5-sess"#).unwrap();
    assert_eq!(challenge.algorithm, Algorithm::Md5Sess);
}

#[test]
fn test_compute_digest_basic() {
    let response = compute_digest(
        "Mufasa",
        "Circle Of Life",
        "testrealm@host.com",
        "GET",
        "/dir/index.html",
        "dcd98b7102dd2f0e8b11d0f600bfb0c093",
        Algorithm::Md5,
        None,
        None,
        None,
        None,
    );
    assert_eq!(response, "670fd8c2df070c60b045671b8b24ff02");
}

#[test]
fn test_compute_digest_with_qop() {
    let response = compute_digest(
        "Mufasa",
        "Circle Of Life",
        "testrealm@host.com",
        "GET",
        "/dir/index.html",
        "dcd98b7102dd2f0e8b11d0f600bfb0c093",
        Algorithm::Md5,
        Some(Qop::Auth),
        Some("0a4f113b"),
        Some(1),
        None,
    );
    assert_eq!(response, "6629fae49393a05397450978507c4ef1");
}

fn challenge(opaque: Option<&str>, qop: Option<Qop>) -> DigestChallenge {
    DigestChallenge {
        realm: "asterisk".to_string(),
        nonce: "abc123".to_string(),
        opaque: opaque.map(|s| s.to_string()),
        stale: false,
        algorithm: Algorithm::Md5,
        qop,
        domain: None,
    }
}

#[test]
fn test_digest_response_header() {
    let creds = DigestCredentials::new("alice", "secret");
    let response =
        DigestResponse::from_challenge(&challenge(None, None), &creds, "REGISTER", "sip:asterisk@192.168.1.1", None)
            .unwrap();
    let header = response.to_header_value();
    assert!(header.starts_with("Digest username=\"alice\""));
    assert!(header.contains("realm=\"asterisk\""));
    assert!(header.contains("nonce=\"abc123\""));
    assert!(header.contains("response=\""));
}

#[test]
fn test_digest_response_with_qop() {
    let creds = DigestCredentials::new("alice", "secret");
    let response = DigestResponse::from_challenge(
        &challenge(Some("opaque_value"), Some(Qop::Auth)),
        &creds,
        "REGISTER",
        "sip:asterisk@192.168.1.1",
        None,
    )
    .unwrap();
    let header = response.to_header_value();
    assert!(header.contains("qop=auth"));
    assert!(header.contains("cnonce=\""));
    assert!(header.contains("nc=00000001"));
    assert!(header.contains("opaque=\"opaque_value\""));
}

#[test]
fn fresh_cnonce_is_32_lower_hex_digits() {
    let creds = DigestCredentials::new("alice", "secret");
    let r = DigestResponse::from_challenge(&challenge(None, Some(Qop::Auth)), &creds, "REGISTER", "sip:r", None)
        .unwrap();
    let c = r.cnonce.clone().unwrap();
    assert_eq!(c.len(), 32);
    assert!(c.chars().all(|x| x.is_ascii_digit() || ('a'..='f').contains(&x)));
    assert_eq!(r.nc, Some(1));
    let plain = DigestResponse::from_challenge(&challenge(None, None), &creds, "REGISTER", "sip:r", None).unwrap();
    assert!(plain.cnonce.is_none());
    assert!(plain.nc.is_none());
}

#[test]
fn digest_response_with_fixed_cnonce_is_exact() {
    let creds = DigestCredentials::new("Mufasa", "Circle Of Life");
    let mut c = challenge(None, Some(Qop::Auth));
    c.realm = "testrealm@host.com".to_string();
    c.nonce = "dcd98b7102dd2f0e8b11d0f600bfb0c093".to_string();
    let r = DigestResponse::with_cnonce(&c, &creds, "GET", "/dir/index.html", None, "0a4f113b");
    assert_eq!(r.response, "6629fae49393a05397450978507c4ef1");
    assert_eq!(r.nc, Some(1));
    assert_eq!(
        r.to_header_value(),
        "Digest username=\"Mufasa\", realm=\"testrealm@host.com\", nonce=\"dcd98b7102dd2f0e8b11d0f600bfb0c093\", \
uri=\"/dir/index.html\", response=\"6629fae49393a05397450978507c4ef1\", algorithm=MD5, qop=auth, \
cnonce=\"0a4f113b\", nc=00000001"
    );
}

#[test]
fn cnonce_is_sixteen_random_bytes_in_hex() {
    let a = generate_cnonce();
    let b = generate_cnonce();
    assert_eq!(a.len(), 32);
    assert!(a.chars().all(|c| c.is_ascii_hexdigit() && !c.is_ascii_uppercase()));
    assert_ne!(a, b);
}

#[test]
fn test_missing_digest_scheme() {
    assert!(DigestChallenge::parse("Basic realm=\"test\"").is_err());
}

#[test]
fn test_missing_realm() {
    let result = DigestChallenge::parse("Digest nonce=\"abc\"");
    assert!(matches!(result, Err(DigestAuthError::MissingField("realm"))));
}

#[test]
fn test_missing_nonce() {
    let result = DigestChallenge::parse("Digest realm=\"test\"");
    assert!(matches!(result, Err(DigestAuthError::MissingField("nonce"))));
}

#[test]
fn unsupported_algorithm_and_messages() {
    let result = DigestChallenge::parse("Digest realm=\"r\", nonce=\"n\", algorithm=SHA-1");
    assert!(matches!(result, Err(DigestAuthError::UnsupportedAlgorithm(_))));
    assert_eq!(DigestAuthError::MissingField("realm").to_text(), "missing required field: realm");
    assert_eq!(Qop::AuthInt.as_str(), "auth-int");
    assert_eq!(Algorithm::Md5Sess.as_str(), "MD5-sess");
}
