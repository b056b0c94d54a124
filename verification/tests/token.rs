use portier::jwk::{KeyData, KeySet, OkpAlg, OkpCurve, RsaAlg};
use portier::jws::{verify, VerifyError};
use portier::misc::encode;
use ring::signature::KeyPair;

fn ed25519_keypair() -> ring::signature::Ed25519KeyPair {
    let rng = ring::rand::SystemRandom::new();
    let pkcs8 = ring::signature::Ed25519KeyPair::generate_pkcs8(&rng).unwrap();
    ring::signature::Ed25519KeyPair::from_pkcs8(pkcs8.as_ref()).unwrap()
}

fn keyset_for(kid: &str, kp: &ring::signature::Ed25519KeyPair) -> KeySet {
    let x = encode(kp.public_key().as_ref());
    let doc = format!(
        r#"{{"keys":[{{"kid":"{}","kty":"OKP","alg":"EdDSA","crv":"Ed25519","x":"{}"}}]}}"#,
        kid, x
    );
    KeySet::parse(doc.as_bytes()).unwrap()
}

fn sign_token(kp: &ring::signature::Ed25519KeyPair, kid: &str, payload: &[u8]) -> String {
    let header = format!(r#"{{"kid":"{}"}}"#, kid);
    let signing_input = format!("{}.{}", encode(header.as_bytes()), encode(payload));
    let sig = kp.sign(signing_input.as_bytes());
    format!("{}.{}", signing_input, encode(sig.as_ref()))
}

#[test]
fn verify_returns_payload_for_valid_signature() {
    let kp = ed25519_keypair();
    let keys = keyset_for("k1", &kp);
    let token = sign_token(&kp, "k1", b"hello payload");
    let out = verify(&token, &keys.keys).unwrap();
    assert_eq!(out, b"hello payload");
}

#[test]
fn verify_rejects_flipped_signature_bit() {
    let kp = ed25519_keypair();
    let keys = keyset_for("k1", &kp);
    let token = sign_token(&kp, "k1", b"hello payload");
    // Flip bits in the signature segment by swapping one base64 character.
    let dot = token.rfind('.').unwrap();
    let mut flipped: Vec<char> = token.chars().collect();
    let old = flipped[dot + 1];
    flipped[dot + 1] = if old == 'A' { 'B' } else { 'A' };
    let flipped: String = flipped.into_iter().collect();
    assert_ne!(token, flipped);
    let err = verify(&flipped, &keys.keys).unwrap_err();
    assert!(matches!(err, VerifyError::BadSignature));
}

#[test]
fn verify_rejects_tampered_payload() {
    let kp = ed25519_keypair();
    let keys = keyset_for("k1", &kp);
    let token = sign_token(&kp, "k1", b"hello payload");
    let parts: Vec<&str> = token.split('.').collect();
    let tampered = format!("{}.{}.{}", parts[0], encode(b"other payload"), parts[2]);
    let err = verify(&tampered, &keys.keys).unwrap_err();
    assert!(matches!(err, VerifyError::BadSignature));
}

#[test]
fn verify_rejects_unknown_kid() {
    let kp = ed25519_keypair();
    let keys = keyset_for("k1", &kp);
    let token = sign_token(&kp, "other", b"hello");
    let err = verify(&token, &keys.keys).unwrap_err();
    match err {
        VerifyError::KidNotMatched { kid } => assert_eq!(kid, "other"),
        other => panic!("expected KidNotMatched, got {:?}", other),
    }
}

#[test]
fn verify_rejects_ambiguous_kid() {
    let kp = ed25519_keypair();
    let x = encode(kp.public_key().as_ref());
    let doc = format!(
        r#"{{"keys":[
            {{"kid":"k1","kty":"OKP","alg":"EdDSA","crv":"Ed25519","x":"{x}"}},
            {{"kid":"k1","kty":"OKP","alg":"EdDSA","crv":"Ed25519","x":"{x}"}}
        ]}}"#
    );
    let keys = KeySet::parse(doc.as_bytes()).unwrap();
    let token = sign_token(&kp, "k1", b"hello");
    // Two keys match: ambiguity is a failure even though either would
    // validate the signature.
    let err = verify(&token, &keys.keys).unwrap_err();
    assert!(matches!(err, VerifyError::KidNotMatched { .. }));
}

#[test]
fn verify_rejects_wrong_segment_counts() {
    let keys = KeySet { keys: Vec::new() };
    for bad in ["", "a", "a.b", "a.b.c.d", ".b.c", "a..c", "a.b."] {
        let err = verify(bad, &keys.keys).unwrap_err();
        assert!(matches!(err, VerifyError::IncorrectFormat), "input {:?}", bad);
    }
}

#[test]
fn verify_reports_base64_error_with_segment_index() {
    let keys = KeySet { keys: Vec::new() };
    let good = encode(b"x");
    for (token, index) in [
        (format!("!!.{}.{}", good, good), 1),
        (format!("{}.!!.{}", good, good), 2),
        (format!("{}.{}.!!", good, good), 3),
    ] {
        let err = verify(&token, &keys.keys).unwrap_err();
        match err {
            VerifyError::InvalidPartBase64 { index: i, .. } => assert_eq!(i, index),
            other => panic!("expected InvalidPartBase64, got {:?}", other),
        }
    }
}

#[test]
fn verify_rejects_header_without_kid() {
    let keys = KeySet { keys: Vec::new() };
    let good = encode(b"x");
    for header in [&b"not json"[..], br#"{"alg":"EdDSA"}"#, br#"{"kid":5}"#] {
        let token = format!("{}.{}.{}", encode(header), good, good);
        let err = verify(&token, &keys.keys).unwrap_err();
        assert!(matches!(err, VerifyError::InvalidHeaderJson { .. }));
    }
}

#[test]
fn verify_rejects_unsupported_key_types() {
    let docs = [
        // Unknown key type.
        r#"{"keys":[{"kid":"k1","kty":"EC"}]}"#.to_string(),
        // Known key type, unknown algorithm tag.
        format!(
            r#"{{"keys":[{{"kid":"k1","kty":"OKP","alg":"ES256","crv":"Ed25519","x":"{}"}}]}}"#,
            encode(&[0u8; 32])
        ),
        // Known algorithm, unknown curve.
        format!(
            r#"{{"keys":[{{"kid":"k1","kty":"OKP","alg":"EdDSA","crv":"Ed448","x":"{}"}}]}}"#,
            encode(&[0u8; 57])
        ),
        // RSA with an unknown algorithm tag.
        format!(
            r#"{{"keys":[{{"kid":"k1","kty":"RSA","alg":"RS512","n":"{}","e":"{}"}}]}}"#,
            encode(&[1u8; 256]),
            encode(&[1, 0, 1])
        ),
    ];
    for doc in docs {
        let keys = KeySet::parse(doc.as_bytes()).unwrap();
        let token = format!(
            "{}.{}.{}",
            encode(br#"{"kid":"k1"}"#),
            encode(b"p"),
            encode(b"s")
        );
        let err = verify(&token, &keys.keys).unwrap_err();
        assert!(matches!(err, VerifyError::UnsupportedKeyType), "doc {}", doc);
    }
}

#[test]
fn verify_rejects_garbage_rsa_signature() {
    // A syntactically valid RSA key that cannot possibly validate the
    // signature: the engine dispatches to RSA verification and reports a
    // plain signature failure.
    let doc = format!(
        r#"{{"keys":[{{"kid":"k1","kty":"RSA","alg":"RS256","n":"{}","e":"{}"}}]}}"#,
        encode(&[0xabu8; 256]),
        encode(&[1, 0, 1])
    );
    let keys = KeySet::parse(doc.as_bytes()).unwrap();
    let token = format!(
        "{}.{}.{}",
        encode(br#"{"kid":"k1"}"#),
        encode(b"p"),
        encode(&[0u8; 256])
    );
    let err = verify(&token, &keys.keys).unwrap_err();
    assert!(matches!(err, VerifyError::BadSignature));
}

#[test]
fn keyset_parse_models_keys() {
    let doc = format!(
        r#"{{"keys":[
            {{"kid":"a","kty":"RSA","alg":"RS256","n":"{}","e":"{}"}},
            {{"kid":"b","kty":"OKP","alg":"EdDSA","crv":"Ed25519","x":"{}"}},
            {{"kid":"c","kty":"Mystery","extra":[1,2,3]}}
        ]}}"#,
        encode(&[7u8; 4]),
        encode(&[1, 0, 1]),
        encode(&[9u8; 32])
    );
    let keys = KeySet::parse(doc.as_bytes()).unwrap();
    assert_eq!(keys.keys.len(), 3);
    assert_eq!(keys.keys[0].kid, "a");
    match &keys.keys[0].data {
        KeyData::Rsa(k) => {
            assert!(matches!(k.alg, RsaAlg::Rs256));
            assert_eq!(k.n.0, vec![7u8; 4]);
            assert_eq!(k.e.0, vec![1, 0, 1]);
        }
        _ => panic!("expected RSA key"),
    }
    match &keys.keys[1].data {
        KeyData::Okp(k) => {
            assert!(matches!(k.alg, OkpAlg::EdDsa));
            assert!(matches!(k.crv, OkpCurve::Ed25519));
            assert_eq!(k.x.0, vec![9u8; 32]);
        }
        _ => panic!("expected OKP key"),
    }
    assert!(matches!(keys.keys[2].data, KeyData::Unknown));
}

#[test]
fn keyset_parse_reports_field_context() {
    // Malformed base64 in a binary field names the offending field.
    let doc = r#"{"keys":[{"kid":"a","kty":"RSA","alg":"RS256","n":"!!","e":"AQAB"}]}"#;
    let err = KeySet::parse(doc.as_bytes()).unwrap_err();
    assert!(err.contains("`n`"), "message was {:?}", err);
    // A missing required field fails the document.
    let doc = r#"{"keys":[{"kid":"a","kty":"RSA","n":"AQAB","e":"AQAB"}]}"#;
    let err = KeySet::parse(doc.as_bytes()).unwrap_err();
    assert!(err.contains("`alg`"), "message was {:?}", err);
    // A key without a kid fails the document even for unknown types.
    let doc = r#"{"keys":[{"kty":"Mystery"}]}"#;
    assert!(KeySet::parse(doc.as_bytes()).is_err());
    // No keys member at all.
    assert!(KeySet::parse(b"{}").is_err());
    assert!(KeySet::parse(b"not json").is_err());
}
