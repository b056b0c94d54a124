//! The key material model: a typed view of a set of public-key descriptors.
//!
//! Unknown key types, algorithm tags and curve names become explicit
//! `Unknown` variants instead of failing the whole document, so that
//! forward-compatible documents still parse; selecting such a key fails
//! later, at verification time.

use vstd::prelude::*;
use vstd::string::*;

use crate::json::{arr_len_member_of, elem_str_member_of, json_arr_len, json_check,
    json_elem_str_member};
use crate::misc::{b64_decode_of, decode, str_eq};

verus! {

/// Document containing a set of keys.
#[derive(Debug)]
pub struct KeySet {
    pub keys: Vec<Key>,
}

/// A single key: a string identifier and typed key data.
#[derive(Debug)]
pub struct Key {
    pub kid: String,
    pub data: KeyData,
}

/// The type of key and inner data, based on the key-type tag.
#[derive(Debug)]
pub enum KeyData {
    Rsa(RsaKey),
    Okp(OkpKey),
    Unknown,
}

/// Raw bytes of a binary key field, decoded from URL-safe base64.
#[derive(Debug)]
pub struct Binary(pub Vec<u8>);

/// RSA-specific fields of a key.
#[derive(Debug)]
pub struct RsaKey {
    pub alg: RsaAlg,
    pub n: Binary,
    pub e: Binary,
}

/// Signature algorithm tags for RSA keys.
#[derive(Clone, Copy, Debug, PartialEq, Eq, Structural)]
pub enum RsaAlg {
    Rs256,
    Unknown,
}

/// Octet Key Pair (OKP) specific fields of a key, used by Edwards curves.
#[derive(Debug)]
pub struct OkpKey {
    pub alg: OkpAlg,
    pub crv: OkpCurve,
    pub x: Binary,
}

/// Signature algorithm tags for OKP keys.
#[derive(Clone, Copy, Debug, PartialEq, Eq, Structural)]
pub enum OkpAlg {
    EdDsa,
    Unknown,
}

/// OKP curve types.
#[derive(Clone, Copy, Debug, PartialEq, Eq, Structural)]
pub enum OkpCurve {
    Ed25519,
    Unknown,
}

/// The RSA algorithm tag a string names: only `RS256` is recognized.
pub open spec fn spec_rsa_alg(s: Seq<char>) -> RsaAlg {
    if s == "RS256"@ {
        RsaAlg::Rs256
    } else {
        RsaAlg::Unknown
    }
}

/// The OKP algorithm tag a string names: only `EdDSA` is recognized.
pub open spec fn spec_okp_alg(s: Seq<char>) -> OkpAlg {
    if s == "EdDSA"@ {
        OkpAlg::EdDsa
    } else {
        OkpAlg::Unknown
    }
}

/// The OKP curve a string names: only `Ed25519` is recognized.
pub open spec fn spec_okp_curve(s: Seq<char>) -> OkpCurve {
    if s == "Ed25519"@ {
        OkpCurve::Ed25519
    } else {
        OkpCurve::Unknown
    }
}

/// Map an algorithm tag to the typed RSA algorithm.
pub fn rsa_alg_from(s: &str) -> (a: RsaAlg)
    ensures
        a == spec_rsa_alg(s@),
{
    if str_eq(s, "RS256") {
        RsaAlg::Rs256
    } else {
        RsaAlg::Unknown
    }
}

/// Map an algorithm tag to the typed OKP algorithm.
pub fn okp_alg_from(s: &str) -> (a: OkpAlg)
    ensures
        a == spec_okp_alg(s@),
{
    if str_eq(s, "EdDSA") {
        OkpAlg::EdDsa
    } else {
        OkpAlg::Unknown
    }
}

/// Map a curve name to the typed OKP curve.
pub fn okp_curve_from(s: &str) -> (c: OkpCurve)
    ensures
        c == spec_okp_curve(s@),
{
    if str_eq(s, "Ed25519") {
        OkpCurve::Ed25519
    } else {
        OkpCurve::Unknown
    }
}

/// The mathematical view of a key: its identifier and typed data over
/// plain sequences.
#[verifier::ext_equal]
pub struct KeyV {
    pub kid: Seq<char>,
    pub data: KeyDataV,
}

/// The mathematical view of a key's typed data.
#[verifier::ext_equal]
pub enum KeyDataV {
    Rsa { alg: RsaAlg, n: Seq<u8>, e: Seq<u8> },
    Okp { alg: OkpAlg, crv: OkpCurve, x: Seq<u8> },
    Unknown,
}

/// The view of a parsed key.
pub open spec fn key_view(k: Key) -> KeyV {
    KeyV {
        kid: k.kid@,
        data: match k.data {
            KeyData::Rsa(rk) => KeyDataV::Rsa { alg: rk.alg, n: rk.n.0@, e: rk.e.0@ },
            KeyData::Okp(ok) => KeyDataV::Okp { alg: ok.alg, crv: ok.crv, x: ok.x.0@ },
            KeyData::Unknown => KeyDataV::Unknown,
        },
    }
}

/// The decoded binary member `name` of the `i`-th key of the document: a
/// string member holding valid URL-safe unpadded base64.
pub open spec fn spec_bin_at(b: Seq<u8>, i: int, name: Seq<char>) -> Option<Seq<u8>> {
    match elem_str_member_of(b, "keys"@, i, name) {
        Some(s) => b64_decode_of(vstd::utf8::encode_utf8(s)),
        None => None,
    }
}

/// What the `i`-th element of the document's `keys` array denotes: its
/// identifier and the typed fields its key-type tag calls for, with
/// unknown key types, algorithm tags and curve names becoming the
/// `Unknown` variant of their axis; `None` when a required member is
/// missing, mistyped or holds malformed base64, which fails the document.
pub open spec fn spec_key_at(b: Seq<u8>, i: int) -> Option<KeyV> {
    match elem_str_member_of(b, "keys"@, i, "kid"@) {
        None => None,
        Some(kid) => match elem_str_member_of(b, "keys"@, i, "kty"@) {
            None => None,
            Some(kty) => if kty == "RSA"@ {
                match elem_str_member_of(b, "keys"@, i, "alg"@) {
                    None => None,
                    Some(alg) => match spec_bin_at(b, i, "n"@) {
                        None => None,
                        Some(n) => match spec_bin_at(b, i, "e"@) {
                            None => None,
                            Some(e) => Some(
                                KeyV { kid, data: KeyDataV::Rsa { alg: spec_rsa_alg(alg), n, e } },
                            ),
                        },
                    },
                }
            } else if kty == "OKP"@ {
                match elem_str_member_of(b, "keys"@, i, "alg"@) {
                    None => None,
                    Some(alg) => match elem_str_member_of(b, "keys"@, i, "crv"@) {
                        None => None,
                        Some(crv) => match spec_bin_at(b, i, "x"@) {
                            None => None,
                            Some(x) => Some(
                                KeyV {
                                    kid,
                                    data: KeyDataV::Okp {
                                        alg: spec_okp_alg(alg),
                                        crv: spec_okp_curve(crv),
                                        x,
                                    },
                                },
                            ),
                        },
                    },
                }
            } else {
                Some(KeyV { kid, data: KeyDataV::Unknown })
            },
        },
    }
}

/// An error message naming the offending field.
fn field_err(name: &str, what: &str) -> String {
    String::from_str("key field `").concat(name).concat("` ").concat(what)
}

/// Read a required string member of the `i`-th key object.
fn string_field(b: &[u8], i: usize, name: &str) -> (r: Result<String, String>)
    ensures
        match r {
            Ok(s) => elem_str_member_of(b@, "keys"@, i as int, name@) == Some(s@),
            Err(_) => elem_str_member_of(b@, "keys"@, i as int, name@) is None,
        },
{
    match json_elem_str_member(b, "keys", i, name) {
        Some(s) => Ok(s),
        None => Err(field_err(name, "is missing or not a string")),
    }
}

/// Read a required binary member of the `i`-th key object: a string
/// member holding URL-safe unpadded base64, reported with the field's
/// context when the base64 is malformed.
fn binary_field(b: &[u8], i: usize, name: &str) -> (r: Result<Binary, String>)
    ensures
        match spec_bin_at(b@, i as int, name@) {
            Some(d) => r matches Ok(bin) && bin.0@ == d,
            None => r is Err,
        },
{
    let s = string_field(b, i, name)?;
    match decode(s.as_str().as_bytes()) {
        Ok(bytes) => Ok(Binary(bytes)),
        Err(e) => Err(field_err(name, "held invalid base64: ").concat(e.as_str())),
    }
}

/// Parse the `i`-th key object: its identifier, the key-type tag, and the
/// typed fields that tag calls for. Unknown key types parse into
/// `KeyData::Unknown`; unknown algorithm tags and curve names parse into
/// the `Unknown` variant of their axis.
fn parse_key_at(b: &[u8], i: usize) -> (r: Result<Key, String>)
    ensures
        match spec_key_at(b@, i as int) {
            Some(kv) => r matches Ok(k) && key_view(k) == kv,
            None => r is Err,
        },
{
    let kid = string_field(b, i, "kid")?;
    let kty = string_field(b, i, "kty")?;
    let data = if str_eq(kty.as_str(), "RSA") {
        let alg = rsa_alg_from(string_field(b, i, "alg")?.as_str());
        let n = binary_field(b, i, "n")?;
        let e = binary_field(b, i, "e")?;
        KeyData::Rsa(RsaKey { alg, n, e })
    } else if str_eq(kty.as_str(), "OKP") {
        let alg = okp_alg_from(string_field(b, i, "alg")?.as_str());
        let crv = okp_curve_from(string_field(b, i, "crv")?.as_str());
        let x = binary_field(b, i, "x")?;
        KeyData::Okp(OkpKey { alg, crv, x })
    } else {
        KeyData::Unknown
    };
    let k = Key { kid, data };
    proof {
        assert(key_view(k) =~= spec_key_at(b@, i as int).unwrap());
    }
    Ok(k)
}

impl KeySet {
    /// Parse a key-set document: a JSON object with a `keys` array of key
    /// objects. Succeeds exactly when the bytes hold such an array, every
    /// element of which denotes a key; the parsed keys are the denoted
    /// ones, in order.
    pub fn parse(b: &[u8]) -> (r: Result<KeySet, String>)
        ensures
            r matches Ok(ks) ==> (arr_len_member_of(b@, "keys"@) matches Some(n)
                && ks.keys@.len() == n && forall|i: int|
                0 <= i < n ==> #[trigger] spec_key_at(b@, i) == Some(key_view(ks.keys@[i]))),
            r is Err ==> arr_len_member_of(b@, "keys"@) is None || exists|i: int|
                0 <= i < arr_len_member_of(b@, "keys"@).unwrap() && #[trigger] spec_key_at(b@, i)
                    is None,
    {
        match json_check(b) {
            Ok(u) => u,
            Err(e) => {
                return Err(e);
            },
        };
        let n = match json_arr_len(b, "keys") {
            Some(n) => n,
            None => {
                return Err(String::from_str("the document has no `keys` array"));
            },
        };
        let mut keys: Vec<Key> = Vec::new();
        let mut i: usize = 0;
        while i < n
            invariant
                i <= n,
                arr_len_member_of(b@, "keys"@) == Some(n as int),
                keys@.len() == i,
                forall|k: int|
                    0 <= k < i ==> #[trigger] spec_key_at(b@, k) == Some(key_view(keys@[k])),
            decreases n - i,
        {
            let key = match parse_key_at(b, i) {
                Ok(k) => k,
                Err(e) => {
                    proof {
                        assert(spec_key_at(b@, i as int) is None);
                    }
                    return Err(e);
                },
            };
            keys.push(key);
            i = i + 1;
        }
        Ok(KeySet { keys })
    }
}

} // verus!
