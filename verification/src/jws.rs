//! The signature verification engine for compact signed tokens.
//!
//! A compact token is three dot-separated, URL-safe base64 segments:
//! header, payload and signature. `verify` splits the token, decodes the
//! segments, selects the key named by the header's `kid`, dispatches on the
//! key's algorithm and checks the cryptographic signature over the exact
//! `header.payload` substring of the input.

use vstd::prelude::*;
use vstd::string::*;

use crate::jwk::{Key, KeyData, OkpAlg, OkpCurve, RsaAlg};
use crate::misc::{b64_decode_of, decode};

verus! {

/// Errors that can result from `verify`.
#[derive(Debug, PartialEq, Eq)]
pub enum VerifyError {
    /// The token does not consist of three non-empty dot-separated parts.
    IncorrectFormat,
    /// Token part `index` (1, 2 or 3) contained invalid base64.
    InvalidPartBase64 { index: usize, reason: String },
    /// The token header is not a JSON object with a string `kid` member.
    InvalidHeaderJson { reason: String },
    /// The header's `kid` matched zero or several keys of the key set.
    KidNotMatched { kid: String },
    /// The matching key is of an unsupported type.
    UnsupportedKeyType,
    /// The token signature did not validate using the matching key.
    BadSignature,
}

/// The positions `i < j` are the only two dots of `s`, and they cut `s`
/// into three non-empty segments.
pub open spec fn is_dot_pair(s: Seq<u8>, i: int, j: int) -> bool {
    &&& 0 < i
    &&& i + 1 < j
    &&& j + 1 < s.len()
    &&& s[i] == 46u8
    &&& s[j] == 46u8
    &&& forall|k: int| 0 <= k < s.len() && s[k] == 46u8 ==> k == i || k == j
}

/// The token has the compact form: exactly three non-empty dot-separated
/// segments.
pub open spec fn token_wf(s: Seq<u8>) -> bool {
    exists|i: int, j: int| is_dot_pair(s, i, j)
}

/// The two dot positions of a well-formed token.
pub open spec fn token_dots(s: Seq<u8>) -> (int, int)
    recommends
        token_wf(s),
{
    choose|i: int, j: int| is_dot_pair(s, i, j)
}

/// A well-formed token has a single pair of dot positions.
pub proof fn lemma_dot_pair_unique(s: Seq<u8>, i1: int, j1: int, i2: int, j2: int)
    requires
        is_dot_pair(s, i1, j1),
        is_dot_pair(s, i2, j2),
    ensures
        i1 == i2,
        j1 == j2,
{
    assert(i1 == i2 || i1 == j2);
    assert(j1 == i2 || j1 == j2);
    assert(i2 == i1 || i2 == j1);
}

/// The header segment of a well-formed token.
pub open spec fn token_header(s: Seq<u8>) -> Seq<u8> {
    s.subrange(0, token_dots(s).0)
}

/// The payload segment of a well-formed token.
pub open spec fn token_payload(s: Seq<u8>) -> Seq<u8> {
    s.subrange(token_dots(s).0 + 1, token_dots(s).1)
}

/// The signature segment of a well-formed token.
pub open spec fn token_sig(s: Seq<u8>) -> Seq<u8> {
    s.subrange(token_dots(s).1 + 1, s.len() as int)
}

/// The signed message: the exact `header + "." + payload` prefix of the
/// token, byte for byte, before any base64 decoding.
pub open spec fn token_message(s: Seq<u8>) -> Seq<u8> {
    s.subrange(0, token_dots(s).1)
}

/// The key has the given identifier.
pub open spec fn key_matches(k: Key, kid: Seq<char>) -> bool {
    k.kid@ == kid
}

/// How many keys of the set carry the given identifier.
pub open spec fn count_kid(keys: Seq<Key>, kid: Seq<char>) -> nat
    decreases keys.len(),
{
    if keys.len() == 0 {
        0
    } else {
        (if key_matches(keys[0], kid) {
            1nat
        } else {
            0nat
        }) + count_kid(keys.drop_first(), kid)
    }
}

/// The first key of the set carrying the given identifier.
pub open spec fn find_kid(keys: Seq<Key>, kid: Seq<char>) -> Option<Key>
    decreases keys.len(),
{
    if keys.len() == 0 {
        None
    } else if key_matches(keys[0], kid) {
        Some(keys[0])
    } else {
        find_kid(keys.drop_first(), kid)
    }
}

/// Whether ring's Ed25519 verification accepts the signature over the
/// message under the raw public key; a pure function of its arguments.
pub uninterp spec fn ed25519_ok(pk: Seq<u8>, msg: Seq<u8>, sig: Seq<u8>) -> bool;

/// Whether ring's RSASSA-PKCS1-v1_5/SHA-256 verification (2048–8192 bit
/// moduli) accepts the signature over the message under the public key given
/// as raw modulus and exponent; a pure function of its arguments.
pub uninterp spec fn rsa256_ok(n: Seq<u8>, e: Seq<u8>, msg: Seq<u8>, sig: Seq<u8>) -> bool;

/// The `kid` member of the token header, if the header bytes are a JSON
/// object with a string `kid`; a pure function of the header bytes.
pub uninterp spec fn header_kid_of(h: Seq<u8>) -> Option<Seq<char>>;

/// The abstract outcome of signature verification: the error kinds of
/// `VerifyError`, with only the fields the engine pins down.
pub enum JwsErrorKind {
    IncorrectFormat,
    InvalidPartBase64 { index: int },
    InvalidHeaderJson,
    KidNotMatched { kid: Seq<char> },
    UnsupportedKeyType,
    BadSignature,
}

/// What `verify` returns, as a function of the token bytes and the key set,
/// in terms of the named results of base64 decoding, header parsing and the
/// two signature schemes.
pub open spec fn spec_verify(s: Seq<u8>, keys: Seq<Key>) -> Result<Seq<u8>, JwsErrorKind> {
    if !token_wf(s) {
        Err(JwsErrorKind::IncorrectFormat)
    } else {
        match b64_decode_of(token_header(s)) {
            None => Err(JwsErrorKind::InvalidPartBase64 { index: 1 }),
            Some(header) => match b64_decode_of(token_payload(s)) {
                None => Err(JwsErrorKind::InvalidPartBase64 { index: 2 }),
                Some(payload) => match b64_decode_of(token_sig(s)) {
                    None => Err(JwsErrorKind::InvalidPartBase64 { index: 3 }),
                    Some(sig) => match header_kid_of(header) {
                        None => Err(JwsErrorKind::InvalidHeaderJson),
                        Some(kid) => if count_kid(keys, kid) != 1 {
                            Err(JwsErrorKind::KidNotMatched { kid })
                        } else {
                            spec_verify_key(
                                find_kid(keys, kid).unwrap(),
                                token_message(s),
                                payload,
                                sig,
                            )
                        },
                    },
                },
            },
        }
    }
}

/// The algorithm dispatch of `spec_verify`, once a single key has matched.
pub open spec fn spec_verify_key(key: Key, msg: Seq<u8>, payload: Seq<u8>, sig: Seq<u8>) -> Result<
    Seq<u8>,
    JwsErrorKind,
> {
    match key.data {
        KeyData::Okp(k) => if k.alg is EdDsa && k.crv is Ed25519 {
            if ed25519_ok(k.x.0@, msg, sig) {
                Ok(payload)
            } else {
                Err(JwsErrorKind::BadSignature)
            }
        } else {
            Err(JwsErrorKind::UnsupportedKeyType)
        },
        KeyData::Rsa(k) => if k.alg is Rs256 {
            if rsa256_ok(k.n.0@, k.e.0@, msg, sig) {
                Ok(payload)
            } else {
                Err(JwsErrorKind::BadSignature)
            }
        } else {
            Err(JwsErrorKind::UnsupportedKeyType)
        },
        KeyData::Unknown => Err(JwsErrorKind::UnsupportedKeyType),
    }
}

/// The returned error is of the abstract kind, with the pinned fields equal.
pub open spec fn err_matches(e: VerifyError, k: JwsErrorKind) -> bool {
    match (e, k) {
        (VerifyError::IncorrectFormat, JwsErrorKind::IncorrectFormat) => true,
        (
            VerifyError::InvalidPartBase64 { index, reason: _ },
            JwsErrorKind::InvalidPartBase64 { index: i2 },
        ) => index as int == i2,
        (VerifyError::InvalidHeaderJson { reason: _ }, JwsErrorKind::InvalidHeaderJson) => true,
        (VerifyError::KidNotMatched { kid }, JwsErrorKind::KidNotMatched { kid: k2 }) => kid@ == k2,
        (VerifyError::UnsupportedKeyType, JwsErrorKind::UnsupportedKeyType) => true,
        (VerifyError::BadSignature, JwsErrorKind::BadSignature) => true,
        _ => false,
    }
}

/// The executable result agrees with the abstract one.
pub open spec fn result_matches(
    r: Result<Vec<u8>, VerifyError>,
    s: Result<Seq<u8>, JwsErrorKind>,
) -> bool {
    match (r, s) {
        (Ok(v), Ok(p)) => v@ == p,
        (Err(e), Err(k)) => err_matches(e, k),
        _ => false,
    }
}

/// A header `kid` that matches zero or several keys of the set is a
/// verification failure: whenever a token reaches key selection and its
/// `kid` does not match exactly one key, the engine reports
/// `KidNotMatched` — it never succeeds, and ambiguity is not resolved by
/// picking a key.
pub proof fn lemma_kid_ambiguity(s: Seq<u8>, keys: Seq<Key>, kid: Seq<char>)
    requires
        token_wf(s),
        b64_decode_of(token_header(s)) matches Some(h) && header_kid_of(h) == Some(kid),
        b64_decode_of(token_payload(s)) is Some,
        b64_decode_of(token_sig(s)) is Some,
        count_kid(keys, kid) != 1,
    ensures
        spec_verify(s, keys) == Err::<Seq<u8>, JwsErrorKind>(JwsErrorKind::KidNotMatched { kid }),
{
}

/// Copy the bytes `from..to` out of a byte vector.
fn subvec(b: &Vec<u8>, from: usize, to: usize) -> (r: Vec<u8>)
    requires
        from <= to <= b.len(),
    ensures
        r@ == b@.subrange(from as int, to as int),
{
    let mut r: Vec<u8> = Vec::new();
    let mut i: usize = from;
    while i < to
        invariant
            from <= i <= to <= b.len(),
            r@ == b@.subrange(from as int, i as int),
        decreases to - i,
    {
        r.push(b[i]);
        assert(b@.subrange(from as int, i + 1 as int) =~= b@.subrange(
            from as int,
            i as int,
        ).push(b@[i as int]));
        i = i + 1;
    }
    r
}

/// Relies on ring's `ED25519` `UnparsedPublicKey::verify`: acceptance is a
/// pure function of raw public key, message and signature bytes.
#[verifier::external_body]
fn ed25519_verify(pk: &[u8], msg: &[u8], sig: &[u8]) -> (r: bool)
    ensures
        r == ed25519_ok(pk@, msg@, sig@),
{
    ring::signature::UnparsedPublicKey::new(&ring::signature::ED25519, pk).verify(msg, sig).is_ok()
}

/// Relies on ring's `RsaPublicKeyComponents::verify` with
/// `RSA_PKCS1_2048_8192_SHA256`: acceptance is a pure function of modulus,
/// exponent, message and signature bytes.
#[verifier::external_body]
fn rsa256_verify(n: &[u8], e: &[u8], msg: &[u8], sig: &[u8]) -> (r: bool)
    ensures
        r == rsa256_ok(n@, e@, msg@, sig@),
{
    ring::signature::RsaPublicKeyComponents { n, e }
        .verify(&ring::signature::RSA_PKCS1_2048_8192_SHA256, msg, sig)
        .is_ok()
}

/// Relies on serde_json: parses the decoded header bytes as JSON and
/// extracts the string `kid` member, a pure function of the header bytes;
/// `None` exactly when the bytes are not a JSON object with a string `kid`.
#[verifier::external_body]
fn header_kid(h: &[u8]) -> (r: Option<String>)
    ensures
        match r {
            Some(s) => header_kid_of(h@) == Some(s@),
            None => header_kid_of(h@) is None,
        },
{
    let v: serde_json::Value = serde_json::from_slice(h).ok()?;
    Some(v.get("kid")?.as_str()?.to_owned())
}

/// Verify a compact signed token against a key set, returning the decoded
/// payload bytes if the signature validates.
pub fn verify(input: &str, keys: &Vec<Key>) -> (r: Result<Vec<u8>, VerifyError>)
    ensures
        result_matches(r, spec_verify(input.spec_bytes(), keys@)),
{
    let bytes: Vec<u8> = input.as_bytes_vec();
    let ghost s: Seq<u8> = input.spec_bytes();
    let n = bytes.len();

    // Find the dot positions; keep the first three to tell "two dots"
    // apart from "more than two".
    let mut ndots: usize = 0;
    let mut dot1: usize = 0;
    let mut dot2: usize = 0;
    let mut dot3: usize = 0;
    let mut i: usize = 0;
    while i < n
        invariant
            i <= n == bytes.len(),
            bytes@ == s,
            ndots <= i,
            ndots >= 1 ==> dot1 < i && s[dot1 as int] == 46u8,
            ndots >= 2 ==> dot1 < dot2 < i && s[dot2 as int] == 46u8,
            ndots >= 3 ==> dot2 < dot3 < i && s[dot3 as int] == 46u8,
            ndots == 0 ==> forall|k: int| 0 <= k < i ==> s[k] != 46u8,
            ndots == 1 ==> forall|k: int| 0 <= k < i && s[k] == 46u8 ==> k == dot1,
            ndots >= 2 ==> forall|k: int|
                0 <= k < i && s[k] == 46u8 ==> k == dot1 || k == dot2 || (ndots >= 3 && k
                    >= dot3),
        decreases n - i,
    {
        if bytes[i] == 46u8 {
            if ndots == 0 {
                dot1 = i;
            } else if ndots == 1 {
                dot2 = i;
            } else if ndots == 2 {
                dot3 = i;
            }
            ndots = ndots + 1;
        }
        i = i + 1;
    }

    // Exactly two dots cutting three non-empty segments, or the format is
    // wrong.
    if !(ndots == 2 && 0 < dot1 && dot1 + 1 < dot2 && dot2 + 1 < n) {
        proof {
            if token_wf(s) {
                let (wi, wj) = token_dots(s);
                assert(is_dot_pair(s, wi, wj));
                if ndots == 2 {
                    assert(wi == dot1 && wj == dot2);
                } else if ndots >= 3 {
                    assert(dot1 as int == wi || dot1 as int == wj);
                    assert(dot2 as int == wi || dot2 as int == wj);
                    assert(dot3 as int == wi || dot3 as int == wj);
                    assert(false);
                }
            }
        }
        return Err(VerifyError::IncorrectFormat);
    }
    proof {
        assert(is_dot_pair(s, dot1 as int, dot2 as int));
        let (wi, wj) = token_dots(s);
        assert(is_dot_pair(s, wi, wj));
        lemma_dot_pair_unique(s, dot1 as int, dot2 as int, wi, wj);
    }

    // Slice the signed part of the message before decoding anything.
    let message = subvec(&bytes, 0, dot2);
    assert(message@ == token_message(s));

    // Decode the three segments independently.
    let header_seg = subvec(&bytes, 0, dot1);
    let payload_seg = subvec(&bytes, dot1 + 1, dot2);
    let sig_seg = subvec(&bytes, dot2 + 1, n);
    assert(header_seg@ == token_header(s));
    assert(payload_seg@ == token_payload(s));
    assert(sig_seg@ == token_sig(s));

    let header = match decode(header_seg.as_slice()) {
        Ok(v) => v,
        Err(reason) => {
            return Err(VerifyError::InvalidPartBase64 { index: 1, reason });
        },
    };
    let payload = match decode(payload_seg.as_slice()) {
        Ok(v) => v,
        Err(reason) => {
            return Err(VerifyError::InvalidPartBase64 { index: 2, reason });
        },
    };
    let sig = match decode(sig_seg.as_slice()) {
        Ok(v) => v,
        Err(reason) => {
            return Err(VerifyError::InvalidPartBase64 { index: 3, reason });
        },
    };

    // Parse the header and find the key identifier.
    let kid = match header_kid(header.as_slice()) {
        Some(kid) => kid,
        None => {
            return Err(
                VerifyError::InvalidHeaderJson {
                    reason: String::from_str("the header is not a JSON object with a string `kid`"),
                },
            );
        },
    };

    // Count the keys matching the identifier; exactly one is required.
    proof {
        assert(keys@.skip(0) =~= keys@);
    }
    let mut count: usize = 0;
    let mut found: Option<usize> = None;
    let mut ki: usize = 0;
    while ki < keys.len()
        invariant
            ki <= keys.len(),
            count <= ki,
            count_kid(keys@, kid@) == count + count_kid(keys@.skip(ki as int), kid@),
            found matches Some(fi) ==> fi < ki && key_matches(keys@[fi as int], kid@)
                && find_kid(keys@, kid@) == Some(keys@[fi as int]),
            found is Some <==> count > 0,
            found is None ==> find_kid(keys@, kid@) == find_kid(keys@.skip(ki as int), kid@),
        decreases keys.len() - ki,
    {
        proof {
            assert(keys@.skip(ki as int).drop_first() =~= keys@.skip(ki + 1));
            assert(keys@.skip(ki as int)[0] == keys@[ki as int]);
        }
        if keys[ki].kid == kid {
            if count == 0 {
                found = Some(ki);
            }
            count = count + 1;
        }
        ki = ki + 1;
    }
    proof {
        assert(keys@.skip(keys@.len() as int) =~= Seq::<Key>::empty());
    }

    if count != 1 {
        return Err(VerifyError::KidNotMatched { kid });
    }
    let fi = match found {
        Some(fi) => fi,
        None => vstd::pervasive::unreached(),
    };
    let key = &keys[fi];

    // Dispatch on the matched key's algorithm and verify the signature.
    match &key.data {
        KeyData::Okp(k) => match (k.alg, k.crv) {
            (OkpAlg::EdDsa, OkpCurve::Ed25519) => {
                if ed25519_verify(k.x.0.as_slice(), message.as_slice(), sig.as_slice()) {
                    Ok(payload)
                } else {
                    Err(VerifyError::BadSignature)
                }
            },
            _ => Err(VerifyError::UnsupportedKeyType),
        },
        KeyData::Rsa(k) => match k.alg {
            RsaAlg::Rs256 => {
                if rsa256_verify(
                    k.n.0.as_slice(),
                    k.e.0.as_slice(),
                    message.as_slice(),
                    sig.as_slice(),
                ) {
                    Ok(payload)
                } else {
                    Err(VerifyError::BadSignature)
                }
            },
            _ => Err(VerifyError::UnsupportedKeyType),
        },
        KeyData::Unknown => Err(VerifyError::UnsupportedKeyType),
    }
}

} // verus!
