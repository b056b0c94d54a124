//! Shared utilities: response modes and URL-safe base64 without padding.

use vstd::prelude::*;
use vstd::string::*;

use crate::json::{json_check, json_str_member, str_member_of};

verus! {

/// Supported response modes.
///
/// The response mode specifies how the server instructs the user agent to
/// return a response to the `redirect_uri` of the client.
#[derive(Clone, Copy, Debug, PartialEq, Eq, Structural)]
pub enum ResponseMode {
    /// Send the response data in the URL fragment.
    ///
    /// Additional client-side JavaScript is required to use this mode,
    /// because the URL fragment is not sent to the server.
    Fragment,
    /// Send the response data in a POST request with an
    /// `application/x-www-form-urlencoded` body.
    FormPost,
}

impl ResponseMode {
    /// The `response_mode` query string value this mode stands for.
    pub open spec fn spec_str(self) -> Seq<char> {
        match self {
            ResponseMode::Fragment => "fragment"@,
            ResponseMode::FormPost => "form_post"@,
        }
    }

    /// Convert to the `response_mode` query string value.
    pub fn as_str(&self) -> (s: &'static str)
        ensures
            s@ == self.spec_str(),
    {
        match self {
            ResponseMode::Fragment => "fragment",
            ResponseMode::FormPost => "form_post",
        }
    }
}

impl Default for ResponseMode {
    /// The default response mode is `FormPost`.
    fn default() -> (r: Self)
        ensures
            r == ResponseMode::FormPost,
    {
        ResponseMode::FormPost
    }
}

/// What URL-safe unpadded base64 decoding yields on a given input, if it is
/// valid base64; decoding is a pure function of the input bytes.
pub uninterp spec fn b64_decode_of(s: Seq<u8>) -> Option<Seq<u8>>;

/// The URL-safe unpadded base64 encoding of a byte string; encoding is a
/// pure function of the input bytes.
pub uninterp spec fn b64_encode_of(b: Seq<u8>) -> Seq<char>;

/// A character of the URL-safe base64 alphabet.
pub open spec fn is_b64url_char(c: char) -> bool {
    ||| 'A' as int <= c as int <= 'Z' as int
    ||| 'a' as int <= c as int <= 'z' as int
    ||| '0' as int <= c as int <= '9' as int
    ||| c == '-'
    ||| c == '_'
}

/// Encode bytes as URL-safe base64 without padding.
///
/// Relies on base64's `URL_SAFE_NO_PAD` engine: the encoding is a pure
/// function of the input, uses only the URL-safe alphabet, emits no padding,
/// emits four characters for every three bytes rounded up, and decoding the
/// encoded text yields the input again.
#[verifier::external_body]
pub fn encode(data: &[u8]) -> (r: String)
    ensures
        r@ == b64_encode_of(data@),
        r@.len() == (data@.len() * 4 + 2) / 3,
        forall|i: int| 0 <= i < r@.len() ==> is_b64url_char(#[trigger] r@[i]),
        b64_decode_of(vstd::utf8::encode_utf8(r@)) == Some(data@),
{
    base64::Engine::encode(&base64::engine::general_purpose::URL_SAFE_NO_PAD, data)
}

/// Decode URL-safe unpadded base64, with the decoder's message on failure.
///
/// Relies on base64's `URL_SAFE_NO_PAD` engine: decoding is a pure function
/// of the input and fails exactly on inputs that are not valid URL-safe
/// unpadded base64.
#[verifier::external_body]
pub fn decode(data: &[u8]) -> (r: Result<Vec<u8>, String>)
    ensures
        match r {
            Ok(v) => b64_decode_of(data@) == Some(v@),
            Err(_) => b64_decode_of(data@) is None,
        },
{
    base64::Engine::decode(&base64::engine::general_purpose::URL_SAFE_NO_PAD, data)
        .map_err(|e| format!("{}", e))
}

/// Character-by-character string equality.
pub fn str_eq(a: &str, b: &str) -> (r: bool)
    ensures
        r == (a@ == b@),
{
    let alen = a.unicode_len();
    let blen = b.unicode_len();
    if alen != blen {
        proof {
            assert(a@.len() != b@.len());
        }
        return false;
    }
    let mut i: usize = 0;
    while i < alen
        invariant
            i <= alen,
            alen == a@.len() && alen == b@.len(),
            forall|k: int| 0 <= k < i ==> a@[k] == b@[k],
        decreases alen - i,
    {
        if a.get_char(i) != b.get_char(i) {
            return false;
        }
        i = i + 1;
    }
    proof {
        assert(a@ =~= b@);
    }
    true
}

/// OpenID Connect discovery document: where the keys document lives and
/// where login redirects go. Both fields hold the normalized serialization
/// of a well-formed absolute URL.
#[derive(Debug)]
pub struct DiscoveryDoc {
    pub jwks_uri: String,
    pub authorization_endpoint: String,
}

/// What a discovery document's bytes denote, if they are valid: the
/// normalized serializations of the `jwks_uri` and `authorization_endpoint`
/// members, which must both be strings parsing as absolute URLs.
pub open spec fn spec_discovery(b: Seq<u8>) -> Option<(Seq<char>, Seq<char>)> {
    match str_member_of(b, "jwks_uri"@) {
        None => None,
        Some(s1) => match url_parse_of(s1) {
            None => None,
            Some(p1) => match str_member_of(b, "authorization_endpoint"@) {
                None => None,
                Some(s2) => match url_parse_of(s2) {
                    None => None,
                    Some(p2) => Some((p1.0, p2.0)),
                },
            },
        },
    }
}

/// Read a member of the discovery document that must be a string holding a
/// well-formed absolute URL, and return its normalized serialization.
fn url_field(b: &[u8], name: &str) -> (r: Result<String, String>)
    ensures
        match str_member_of(b@, name@) {
            Some(s) => match url_parse_of(s) {
                Some(p) => r matches Ok(u) && u@ == p.0,
                None => r is Err,
            },
            None => r is Err,
        },
{
    let s = match json_str_member(b, name) {
        Some(s) => s,
        None => {
            return Err(
                String::from_str("discovery field `").concat(name).concat(
                    "` is missing or not a string",
                ),
            );
        },
    };
    match parse_url_parts(s.as_str()) {
        Some(p) => Ok(p.serialization),
        None => Err(
            String::from_str("discovery field `").concat(name).concat("` is not a valid URL"),
        ),
    }
}

impl DiscoveryDoc {
    /// Parse a discovery document: a JSON object whose `jwks_uri` and
    /// `authorization_endpoint` members are well-formed absolute URLs,
    /// stored in normalized form. Succeeds exactly when the bytes denote
    /// such a document.
    pub fn parse(b: &[u8]) -> (r: Result<DiscoveryDoc, String>)
        ensures
            match spec_discovery(b@) {
                Some(d2) => r matches Ok(d) && d.jwks_uri@ == d2.0 && d.authorization_endpoint@
                    == d2.1,
                None => r is Err,
            },
    {
        match json_check(b) {
            Ok(u) => u,
            Err(e) => {
                return Err(e);
            },
        };
        let jwks_uri = url_field(b, "jwks_uri")?;
        let authorization_endpoint = url_field(b, "authorization_endpoint")?;
        Ok(DiscoveryDoc { jwks_uri, authorization_endpoint })
    }
}

/// An ASCII decimal digit.
pub open spec fn is_digit(c: char) -> bool {
    48 <= c as int <= 57
}

/// The numeric value of an ASCII decimal digit.
pub open spec fn digit_val(c: char) -> int {
    c as int - 48
}

/// Every character of the string is an ASCII decimal digit.
pub open spec fn all_digits(s: Seq<char>) -> bool {
    forall|i: int| 0 <= i < s.len() ==> is_digit(#[trigger] s[i])
}

/// The value of a digit string, most significant digit first.
pub open spec fn digits_val(s: Seq<char>) -> int
    decreases s.len(),
{
    if s.len() == 0 {
        0
    } else {
        digits_val(s.drop_last()) * 10 + digit_val(s.last())
    }
}

/// A plain non-negative integer literal.
pub open spec fn valid_int(s: Seq<char>) -> bool {
    s.len() > 0 && all_digits(s)
}

/// A literal with a fraction: digits, one dot at position `d`, digits, with
/// both digit runs non-empty.
pub open spec fn valid_frac_at(s: Seq<char>, d: int) -> bool {
    &&& 1 <= d
    &&& d + 1 < s.len()
    &&& s[d] == '.'
    &&& forall|i: int| 0 <= i < s.len() && i != d ==> is_digit(#[trigger] s[i])
}

/// Clamp a non-negative value into `u64`.
pub open spec fn sat_u64(v: int) -> u64
    recommends
        v >= 0,
{
    if v > u64::MAX {
        u64::MAX
    } else {
        v as u64
    }
}

/// The Unix timestamp a JSON number literal denotes: the integer part of
/// the literal, saturated to `u64::MAX`. A fractional part is tolerated and
/// floored away, since some token issuers emit floating-point timestamps;
/// anything else — an empty string, a sign, an exponent, a stray
/// character — is rejected.
pub open spec fn timestamp_of(s: Seq<char>) -> Option<u64> {
    if valid_int(s) {
        Some(sat_u64(digits_val(s)))
    } else if exists|d: int| valid_frac_at(s, d) {
        Some(sat_u64(digits_val(s.take(choose|d: int| valid_frac_at(s, d)))))
    } else {
        None
    }
}

/// A digit string has a non-negative value.
pub proof fn lemma_digits_val_nonneg(s: Seq<char>)
    requires
        all_digits(s),
    ensures
        digits_val(s) >= 0,
    decreases s.len(),
{
    if s.len() > 0 {
        assert(all_digits(s.drop_last()));
        lemma_digits_val_nonneg(s.drop_last());
    }
}

/// Compute the value of the digit prefix `s[..end]`, saturating to
/// `u64::MAX`.
fn digits_to_u64(s: &str, end: usize) -> (r: u64)
    requires
        end <= s@.len(),
        forall|i: int| 0 <= i < end ==> is_digit(#[trigger] s@[i]),
    ensures
        r == sat_u64(digits_val(s@.take(end as int))),
{
    let mut acc: u64 = 0;
    let mut saturated: bool = false;
    let mut i: usize = 0;
    while i < end
        invariant
            i <= end <= s@.len(),
            forall|k: int| 0 <= k < end ==> is_digit(#[trigger] s@[k]),
            !saturated ==> acc == digits_val(s@.take(i as int)) && digits_val(s@.take(i as int))
                <= u64::MAX,
            saturated ==> digits_val(s@.take(i as int)) > u64::MAX && acc == u64::MAX,
        decreases end - i,
    {
        let c = s.get_char(i);
        let cv = c as u32;
        assert(is_digit(s@[i as int]));
        let dv: u64 = (cv - 48) as u64;
        proof {
            assert(s@.take(i + 1 as int).drop_last() =~= s@.take(i as int));
            assert(s@.take(i + 1 as int).last() == s@[i as int]);
            assert(all_digits(s@.take(i as int)));
            lemma_digits_val_nonneg(s@.take(i as int));
        }
        if saturated {
            proof {
                assert(digits_val(s@.take(i + 1 as int)) == digits_val(s@.take(i as int)) * 10
                    + dv);
            }
        } else {
            match acc.checked_mul(10) {
                Some(m) => match m.checked_add(dv) {
                    Some(a) => {
                        acc = a;
                    },
                    None => {
                        saturated = true;
                        acc = u64::MAX;
                    },
                },
                None => {
                    saturated = true;
                    acc = u64::MAX;
                },
            }
        }
        i = i + 1;
    }
    proof {
        assert(s@.take(end as int) == s@.take(i as int));
    }
    acc
}

/// Parse a Unix timestamp from the decimal literal of a JSON number.
///
/// Integer literals give their value; literals with a fractional part are
/// floored. Values beyond `u64::MAX` saturate. Signs, exponents and any
/// other character are rejected.
pub fn deserialize_timestamp(s: &str) -> (r: Option<u64>)
    ensures
        r == timestamp_of(s@),
{
    let len = s.unicode_len();
    let mut dot: Option<usize> = None;
    let mut i: usize = 0;
    while i < len
        invariant
            i <= len == s@.len(),
            match dot {
                Some(d) => d < i && 1 <= d && s@[d as int] == '.' && forall|k: int|
                    0 <= k < i && k != d ==> is_digit(#[trigger] s@[k]),
                None => forall|k: int| 0 <= k < i ==> is_digit(#[trigger] s@[k]),
            },
        decreases len - i,
    {
        let c = s.get_char(i);
        let cv = c as u32;
        if 48 <= cv && cv <= 57 {
            assert(is_digit(s@[i as int]));
        } else if c == '.' {
            match dot {
                None => {
                    if i == 0 {
                        proof {
                            assert(!is_digit(s@[0]));
                            assert(!valid_int(s@));
                            assert(forall|d2: int| !valid_frac_at(s@, d2)) by {
                                assert forall|d2: int| !valid_frac_at(s@, d2) by {
                                    if valid_frac_at(s@, d2) {
                                        assert(is_digit(s@[0]));
                                    }
                                }
                            }
                        }
                        return None;
                    }
                    dot = Some(i);
                },
                Some(d) => {
                    proof {
                        assert(!is_digit(s@[d as int]));
                        assert(!valid_int(s@));
                        assert(forall|d2: int| !valid_frac_at(s@, d2)) by {
                            assert forall|d2: int| !valid_frac_at(s@, d2) by {
                                if valid_frac_at(s@, d2) {
                                    if d2 != d {
                                        assert(is_digit(s@[d as int]));
                                    } else {
                                        assert(is_digit(s@[i as int]));
                                    }
                                }
                            }
                        }
                    }
                    return None;
                },
            }
        } else {
            proof {
                assert(!is_digit(s@[i as int]));
                assert(!valid_int(s@));
                assert(forall|d2: int| !valid_frac_at(s@, d2)) by {
                    assert forall|d2: int| !valid_frac_at(s@, d2) by {
                        if valid_frac_at(s@, d2) {
                            if d2 != i {
                                assert(is_digit(s@[i as int]));
                            } else {
                                assert(s@[i as int] == '.');
                            }
                        }
                    }
                }
            }
            return None;
        }
        i = i + 1;
    }
    if len == 0 {
        proof {
            assert(!valid_int(s@));
            assert(forall|d2: int| !valid_frac_at(s@, d2));
        }
        return None;
    }
    match dot {
        None => {
            assert(valid_int(s@));
            let v = digits_to_u64(s, len);
            proof {
                assert(s@.take(len as int) == s@);
            }
            Some(v)
        },
        Some(d) => {
            if d + 1 == len {
                proof {
                    assert(!is_digit(s@[d as int]));
                    assert(!valid_int(s@));
                    assert(forall|d2: int| !valid_frac_at(s@, d2)) by {
                        assert forall|d2: int| !valid_frac_at(s@, d2) by {
                            if valid_frac_at(s@, d2) {
                                if d2 != d {
                                    assert(is_digit(s@[d as int]));
                                }
                            }
                        }
                    }
                }
                return None;
            }
            proof {
                assert(valid_frac_at(s@, d as int));
                assert(!is_digit(s@[d as int]));
                assert(!valid_int(s@));
                let dc = choose|d2: int| valid_frac_at(s@, d2);
                assert(valid_frac_at(s@, dc));
                if dc != d {
                    assert(is_digit(s@[d as int]));
                }
                assert(dc == d);
            }
            let v = digits_to_u64(s, d);
            Some(v)
        },
    }
}

/// The components URL parsing yields: the normalized serialization of the
/// URL, the ASCII serialization of its origin, and whether that origin is a
/// real tuple origin (scheme, host and optionally port).
#[derive(Debug)]
pub struct UrlParts {
    pub serialization: String,
    pub origin: String,
    pub origin_is_tuple: bool,
}

/// What the url crate's parser yields on a string, if it is a valid
/// absolute URL: the normalized serialization, the ASCII serialization of
/// the origin, and whether the origin is a tuple origin; a pure function of
/// the input string.
pub uninterp spec fn url_parse_of(s: Seq<char>) -> Option<(Seq<char>, Seq<char>, bool)>;

/// Relies on url's `Url::parse`, `Url::as_str`, `Url::origin`,
/// `Origin::ascii_serialization` and `Origin::is_tuple`: parsing and the
/// origin computation are pure functions of the input string.
#[verifier::external_body]
pub fn parse_url_parts(s: &str) -> (r: Option<UrlParts>)
    ensures
        match r {
            Some(p) => url_parse_of(s@) == Some((p.serialization@, p.origin@, p.origin_is_tuple)),
            None => url_parse_of(s@) is None,
        },
{
    match url::Url::parse(s) {
        Ok(u) => {
            let o = u.origin();
            Some(
                UrlParts {
                    serialization: u.as_str().to_owned(),
                    origin: o.ascii_serialization(),
                    origin_is_tuple: o.is_tuple(),
                },
            )
        },
        Err(_) => None,
    }
}

/// A byte the form-urlencoded serializer leaves unchanged: ASCII
/// alphanumerics and `*`, `-`, `.`, `_`.
pub open spec fn urlenc_unchanged(b: u8) -> bool {
    ||| 48 <= b <= 57
    ||| 65 <= b <= 90
    ||| 97 <= b <= 122
    ||| b == 42
    ||| b == 45
    ||| b == 46
    ||| b == 95
}

/// The uppercase hexadecimal digit of a nibble.
pub open spec fn hex_digit(n: u8) -> char
    recommends
        n < 16,
{
    if n < 10 {
        ((48 + n) as u8) as char
    } else {
        ((55 + n) as u8) as char
    }
}

/// The form-urlencoded serialization of one byte: unchanged bytes pass
/// through, a space becomes `+`, anything else a percent sign and two
/// uppercase hexadecimal digits.
pub open spec fn enc_byte(b: u8) -> Seq<char> {
    if urlenc_unchanged(b) {
        seq![b as char]
    } else if b == 32 {
        seq!['+']
    } else {
        seq!['%', hex_digit(b / 16), hex_digit(b % 16)]
    }
}

/// The `application/x-www-form-urlencoded` serialization of a byte string.
pub open spec fn urlencode_bytes(s: Seq<u8>) -> Seq<char>
    decreases s.len(),
{
    if s.len() == 0 {
        Seq::empty()
    } else {
        urlencode_bytes(s.drop_last()) + enc_byte(s.last())
    }
}

/// The uppercase hexadecimal digit of a nibble.
fn hex_char(n: u8) -> (c: char)
    requires
        n < 16,
    ensures
        c == hex_digit(n),
{
    if n < 10 {
        (48 + n) as char
    } else {
        (55 + n) as char
    }
}

/// Form-urlencode the UTF-8 bytes of a string.
pub fn urlencode(s: &str) -> (r: String)
    ensures
        r@ == urlencode_bytes(s.spec_bytes()),
{
    let bytes = s.as_bytes_vec();
    let mut out = String::new();
    let mut i: usize = 0;
    while i < bytes.len()
        invariant
            bytes@ == s.spec_bytes(),
            i <= bytes.len(),
            out@ == urlencode_bytes(bytes@.take(i as int)),
        decreases bytes.len() - i,
    {
        let b = bytes[i];
        proof {
            assert(bytes@.take(i + 1 as int).drop_last() =~= bytes@.take(i as int));
            assert(bytes@.take(i + 1 as int).last() == b);
        }
        if (48 <= b && b <= 57) || (65 <= b && b <= 90) || (97 <= b && b <= 122) || b == 42 || b
            == 45 || b == 46 || b == 95 {
            push_char(&mut out, b as char);
            assert(out@ =~= urlencode_bytes(bytes@.take(i + 1 as int)));
        } else if b == 32 {
            push_char(&mut out, '+');
            assert(out@ =~= urlencode_bytes(bytes@.take(i + 1 as int)));
        } else {
            push_char(&mut out, '%');
            push_char(&mut out, hex_char(b / 16));
            push_char(&mut out, hex_char(b % 16));
            assert(out@ =~= urlencode_bytes(bytes@.take(i + 1 as int)));
        }
        i = i + 1;
    }
    proof {
        assert(bytes@.take(bytes@.len() as int) == bytes@);
    }
    out
}

/// Whether the string contains the character.
pub fn contains_char(s: &str, c: char) -> (r: bool)
    ensures
        r == s@.contains(c),
{
    let len = s.unicode_len();
    let mut i: usize = 0;
    while i < len
        invariant
            i <= len == s@.len(),
            forall|k: int| 0 <= k < i ==> s@[k] != c,
        decreases len - i,
    {
        if s.get_char(i) == c {
            return true;
        }
        i = i + 1;
    }
    false
}

/// Relies on std's `String::push` appending exactly one character.
#[verifier::external_body]
pub(crate) fn push_char(s: &mut String, c: char)
    ensures
        final(s)@ == old(s)@.push(c),
{
    s.push(c);
}

} // verus!
