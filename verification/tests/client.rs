use portier::jwk::KeySet;
use portier::misc::encode;
use portier::store::MemoryStore;
use portier::{BuildError, Claims, Client, DiscoveryDoc, ResponseMode, VerifyError};
use ring::signature::KeyPair;

fn ed25519_keypair() -> ring::signature::Ed25519KeyPair {
    let rng = ring::rand::SystemRandom::new();
    let pkcs8 = ring::signature::Ed25519KeyPair::generate_pkcs8(&rng).unwrap();
    ring::signature::Ed25519KeyPair::from_pkcs8(pkcs8.as_ref()).unwrap()
}

fn keyset_for(kid: &str, kp: &ring::signature::Ed25519KeyPair) -> KeySet {
    let x = encode(kp.public_key().as_ref());
    let doc = format!(
        r#"{{"keys":[{{"kid":"{}","kty":"OKP","alg":"EdDSA","crv":"Ed25519","x":"{}"}}]}}"#,
        kid, x
    );
    KeySet::parse(doc.as_bytes()).unwrap()
}

fn sign_token(kp: &ring::signature::Ed25519KeyPair, kid: &str, payload: &str) -> String {
    let header = format!(r#"{{"kid":"{}"}}"#, kid);
    let signing_input = format!(
        "{}.{}",
        encode(header.as_bytes()),
        encode(payload.as_bytes())
    );
    let sig = kp.sign(signing_input.as_bytes());
    format!("{}.{}", signing_input, encode(sig.as_ref()))
}

fn broker_client() -> Client {
    Client::builder("http://localhost:8000/verify".to_string())
        .broker("https://broker.example".to_string())
        .build()
        .unwrap()
}

fn claims(now: u64, nonce: &str) -> Claims {
    Claims {
        iss: "https://broker.example".to_string(),
        aud: "http://localhost:8000".to_string(),
        email: "a@x.com".to_string(),
        email_original: None,
        iat: now,
        exp: now + 600,
        nonce: nonce.to_string(),
    }
}

#[test]
fn round_trip_through_full_pipeline() {
    let kp = ed25519_keypair();
    let keys = keyset_for("k1", &kp);
    let client = broker_client();
    let mut store = MemoryStore::new();

    let email = "a@x.com";
    let nonce = store.new_nonce(email);
    let now: u64 = 1_600_000_000;
    let payload = format!(
        r#"{{"iss":"https://broker.example","aud":"http://localhost:8000","email":"{}","iat":{},"exp":{},"nonce":"{}"}}"#,
        email,
        now - 10,
        now + 600,
        nonce
    );
    let token = sign_token(&kp, "k1", &payload);

    let pending = client.verify_token(&token, &keys, now).unwrap();
    assert_eq!(pending.email, email);
    assert_eq!(pending.session_email, email);
    assert_eq!(pending.nonce, nonce);
    let consumed = store.consume_nonce(&pending.nonce, &pending.session_email);
    assert!(consumed);
    let out = Client::finish_verify(pending, consumed).unwrap();
    assert_eq!(out, email);
}

#[test]
fn pipeline_accepts_floating_point_timestamps() {
    let kp = ed25519_keypair();
    let keys = keyset_for("k1", &kp);
    let client = broker_client();
    let now: u64 = 1_600_000_000;
    let payload = format!(
        r#"{{"iss":"https://broker.example","aud":"http://localhost:8000","email":"a@x.com","iat":{}.5,"exp":{}.75,"nonce":"n"}}"#,
        now - 10,
        now + 600
    );
    let token = sign_token(&kp, "k1", &payload);
    let pending = client.verify_token(&token, &keys, now).unwrap();
    assert_eq!(pending.email, "a@x.com");
}

#[test]
fn pipeline_rejects_wrong_issuer_and_audience() {
    let kp = ed25519_keypair();
    let keys = keyset_for("k1", &kp);
    let client = broker_client();
    let now: u64 = 1_600_000_000;
    let payload = format!(
        r#"{{"iss":"https://evil.example","aud":"http://localhost:8000","email":"a@x.com","iat":{},"exp":{},"nonce":"n"}}"#,
        now, now + 600
    );
    let token = sign_token(&kp, "k1", &payload);
    let err = client.verify_token(&token, &keys, now).unwrap_err();
    assert!(matches!(err, VerifyError::IssuerInvalid));

    let payload = format!(
        r#"{{"iss":"https://broker.example","aud":"http://other.example","email":"a@x.com","iat":{},"exp":{},"nonce":"n"}}"#,
        now, now + 600
    );
    let token = sign_token(&kp, "k1", &payload);
    let err = client.verify_token(&token, &keys, now).unwrap_err();
    assert!(matches!(err, VerifyError::AudienceInvalid));
}

#[test]
fn pipeline_wraps_signature_errors_and_bad_payloads() {
    let kp = ed25519_keypair();
    let keys = keyset_for("k1", &kp);
    let client = broker_client();
    let err = client.verify_token("no.dots", &keys, 0).unwrap_err();
    assert!(matches!(err, VerifyError::Signature(_)));
    let token = sign_token(&kp, "k1", "not a claims document");
    let err = client.verify_token(&token, &keys, 0).unwrap_err();
    assert!(matches!(err, VerifyError::InvalidPayload(_)));
    // A claims document missing the nonce is invalid.
    let token = sign_token(
        &kp,
        "k1",
        r#"{"iss":"https://broker.example","aud":"http://localhost:8000","email":"a@x.com","iat":0,"exp":9}"#,
    );
    let err = client.verify_token(&token, &keys, 0).unwrap_err();
    assert!(matches!(err, VerifyError::InvalidPayload(_)));
}

#[test]
fn expiry_boundary_is_inclusive() {
    let client = broker_client();
    let leeway: u64 = 180;
    let c = claims(1_000_000, "n");
    let at_boundary = c.exp + leeway;
    assert!(client.validate_claims(&c, at_boundary).is_ok());
    let err = client.validate_claims(&c, at_boundary + 1).unwrap_err();
    assert!(matches!(err, VerifyError::TokenExpired));
}

#[test]
fn issued_at_boundary_is_inclusive() {
    let client = broker_client();
    let leeway: u64 = 180;
    let c = claims(1_000_000, "n");
    let at_boundary = c.iat - leeway;
    assert!(client.validate_claims(&c, at_boundary).is_ok());
    let err = client.validate_claims(&c, at_boundary - 1).unwrap_err();
    assert!(matches!(err, VerifyError::IssuedInTheFuture));
}

#[test]
fn overflowing_expiry_saturates_closed() {
    let client = broker_client();
    // exp + leeway overflows: the cutoff saturates to the numeric minimum,
    // so the token is always expired, never accidentally eternal.
    let mut c = claims(1_000_000, "n");
    c.exp = u64::MAX - 10;
    let err = client.validate_claims(&c, 1_000_000).unwrap_err();
    assert!(matches!(err, VerifyError::TokenExpired));
}

#[test]
fn untrusted_server_may_not_change_email() {
    let idp_client = Client::builder("http://localhost:8000/verify".to_string())
        .idp("https://idp.example".to_string())
        .build()
        .unwrap();
    let now: u64 = 1_600_000_000;
    let mut c = claims(now, "n");
    c.iss = "https://idp.example".to_string();
    c.email_original = Some("b@x.com".to_string());
    let err = idp_client.validate_claims(&c, now).unwrap_err();
    assert!(matches!(err, VerifyError::UntrustedServerChangedEmail));
    // Absent or equal original email passes this check.
    c.email_original = None;
    assert!(idp_client.validate_claims(&c, now).is_ok());
    c.email_original = Some("a@x.com".to_string());
    assert!(idp_client.validate_claims(&c, now).is_ok());
    // A trusted broker may normalize the address.
    let broker = broker_client();
    let mut c = claims(now, "n");
    c.email_original = Some("b@x.com".to_string());
    assert!(broker.validate_claims(&c, now).is_ok());
}

#[test]
fn builder_rejects_server_with_path() {
    let err = Client::builder("http://localhost:8000/verify".to_string())
        .broker("https://broker.example/path".to_string())
        .build()
        .unwrap_err();
    assert!(matches!(err, BuildError::ServerNotAnOrigin));
}

#[test]
fn builder_accepts_bare_origins() {
    for server in ["https://broker.example", "https://broker.example/"] {
        let client = Client::builder("http://localhost:8000/verify".to_string())
            .broker(server.to_string())
            .build()
            .unwrap();
        assert_eq!(client.server_id, "https://broker.example");
        assert_eq!(
            client.discovery_url,
            "https://broker.example/.well-known/openid-configuration"
        );
        assert_eq!(client.client_id, "http://localhost:8000");
        assert_eq!(client.redirect_uri, "http://localhost:8000/verify");
        assert!(client.trusted);
        assert_eq!(client.leeway, 180);
    }
}

#[test]
fn builder_rejects_unusable_urls() {
    let err = Client::builder("http://localhost:8000/verify".to_string())
        .broker("not a url".to_string())
        .build()
        .unwrap_err();
    assert!(matches!(err, BuildError::InvalidServer));
    // A scheme without a tuple origin.
    let err = Client::builder("http://localhost:8000/verify".to_string())
        .broker("data:text/plain,x".to_string())
        .build()
        .unwrap_err();
    assert!(matches!(err, BuildError::InvalidServer));
    let err = Client::builder("data:text/plain,x".to_string())
        .broker("https://broker.example".to_string())
        .build()
        .unwrap_err();
    assert!(matches!(err, BuildError::InvalidRedirectUri));
}

#[test]
fn default_server_is_the_public_broker() {
    let client = Client::new("http://localhost:8000/verify".to_string());
    assert_eq!(client.server_id, "https://broker.portier.io");
    assert!(matches!(client.response_mode, ResponseMode::FormPost));
}

#[test]
fn auth_url_carries_the_protocol_parameters() {
    let client = broker_client();
    let url = client.auth_url("https://broker.example/auth", "a b@x.com", "NONCE-22");
    assert_eq!(
        url,
        "https://broker.example/auth?login_hint=a+b%40x.com&scope=openid+email&nonce=NONCE-22\
         &response_type=id_token&response_mode=form_post\
         &client_id=http%3A%2F%2Flocalhost%3A8000\
         &redirect_uri=http%3A%2F%2Flocalhost%3A8000%2Fverify"
    );
}

#[test]
fn auth_url_appends_to_an_existing_query() {
    let client = broker_client();
    let url = client.auth_url("https://broker.example/auth?tenant=7", "a@x.com", "N");
    assert!(url.starts_with("https://broker.example/auth?tenant=7&login_hint=a%40x.com&"));
}

#[test]
fn start_auth_url_uses_the_discovery_endpoint() {
    let client = broker_client();
    let discovery = br#"{"jwks_uri":"https://broker.example/keys.json","authorization_endpoint":"https://broker.example/auth"}"#;
    let url = client.start_auth_url("a@x.com", discovery, "N").unwrap();
    assert!(url.starts_with("https://broker.example/auth?login_hint=a%40x.com&"));
    let err = client.start_auth_url("a@x.com", b"not json", "N").unwrap_err();
    assert!(matches!(err, portier::StartAuthError::ParseDiscovery(_)));
}

#[test]
fn discovery_document_requires_absolute_urls() {
    let doc = DiscoveryDoc::parse(
        br#"{"jwks_uri":"https://broker.example/keys.json","authorization_endpoint":"https://broker.example/auth","extra":null}"#,
    )
    .unwrap();
    assert_eq!(doc.jwks_uri, "https://broker.example/keys.json");
    assert_eq!(doc.authorization_endpoint, "https://broker.example/auth");
    assert!(DiscoveryDoc::parse(br#"{"jwks_uri":"/relative","authorization_endpoint":"https://broker.example/auth"}"#).is_err());
    assert!(DiscoveryDoc::parse(br#"{"authorization_endpoint":"https://broker.example/auth"}"#).is_err());
}

#[test]
fn finish_verify_requires_consumption() {
    let pending = portier::PendingVerification {
        email: "a@x.com".to_string(),
        session_email: "a@x.com".to_string(),
        nonce: "n".to_string(),
    };
    let err = Client::finish_verify(pending, false).unwrap_err();
    assert!(matches!(err, VerifyError::InvalidSession));
}

#[test]
fn index_serves_a_login_form() {
    let page = portier::index();
    assert!(page.contains("<form method=\"post\" action=\"/auth\">"));
    assert!(page.contains("type=\"email\""));
}

#[test]
fn response_mode_and_leeway_are_configurable() {
    let client = Client::builder("http://localhost:8000/verify".to_string())
        .broker("https://broker.example".to_string())
        .response_mode(ResponseMode::Fragment)
        .leeway(30)
        .build()
        .unwrap();
    assert!(matches!(client.response_mode, ResponseMode::Fragment));
    assert_eq!(client.leeway, 30);
    let url = client.auth_url("https://broker.example/auth", "a@x.com", "N");
    assert!(url.contains("&response_mode=fragment&"));
    assert_eq!(ResponseMode::Fragment.as_str(), "fragment");
    assert_eq!(ResponseMode::FormPost.as_str(), "form_post");
    assert!(matches!(ResponseMode::default(), ResponseMode::FormPost));
}

#[test]
fn claims_parse_reads_the_payload() {
    let c = portier::parse_claims(
        br#"{"iss":"i","aud":"a","email":"e@x","email_original":null,"iat":5,"exp":9.25,"nonce":"n","extra":[]}"#,
    )
    .unwrap();
    assert_eq!(c.iss, "i");
    assert_eq!(c.aud, "a");
    assert_eq!(c.email, "e@x");
    // A null original email counts as absent.
    assert!(c.email_original.is_none());
    assert_eq!(c.iat, 5);
    assert_eq!(c.exp, 9);
    assert_eq!(c.nonce, "n");
    let c = portier::parse_claims(
        br#"{"iss":"i","aud":"a","email":"e@x","email_original":"o@x","iat":5,"exp":9,"nonce":"n"}"#,
    )
    .unwrap();
    assert_eq!(c.email_original.as_deref(), Some("o@x"));
    // Missing or mistyped claims are rejected, naming the claim.
    let err = portier::parse_claims(br#"{"aud":"a","email":"e@x","iat":5,"exp":9,"nonce":"n"}"#)
        .unwrap_err();
    assert!(err.contains("`iss`"));
    let err = portier::parse_claims(
        br#"{"iss":"i","aud":"a","email":"e@x","iat":"soon","exp":9,"nonce":"n"}"#,
    )
    .unwrap_err();
    assert!(err.contains("`iat`"));
}

#[test]
fn auth_url_treats_a_trailing_question_mark_as_no_query() {
    let client = broker_client();
    let url = client.auth_url("https://broker.example/auth?", "a@x.com", "N");
    assert!(url.starts_with("https://broker.example/auth?login_hint=a%40x.com&"));
}

#[test]
fn negative_or_exponent_timestamps_are_rejected_closed() {
    // A negative or exponent-form timestamp never clamps into range: the
    // payload is rejected as invalid instead.
    let kp = ed25519_keypair();
    let keys = keyset_for("k1", &kp);
    let client = broker_client();
    for iat in ["-1.5", "-5", "2e300"] {
        let payload = format!(
            r#"{{"iss":"https://broker.example","aud":"http://localhost:8000","email":"a@x.com","iat":{},"exp":9,"nonce":"n"}}"#,
            iat
        );
        let token = sign_token(&kp, "k1", &payload);
        let err = client.verify_token(&token, &keys, 0).unwrap_err();
        assert!(
            matches!(err, VerifyError::InvalidPayload(_)),
            "iat {:?} gave {:?}",
            iat,
            err
        );
    }
}

#[test]
fn mistyped_original_email_is_rejected() {
    let err = portier::parse_claims(
        br#"{"iss":"i","aud":"a","email":"e@x","email_original":7,"iat":5,"exp":9,"nonce":"n"}"#,
    )
    .unwrap_err();
    assert!(err.contains("`email_original`"), "message was {:?}", err);
}
