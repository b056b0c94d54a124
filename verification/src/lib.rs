//! A relying-party client for a federated, passwordless email-authentication
//! protocol built on OpenID Connect discovery and compact signed tokens.
//!
//! The heart of the crate is the [`Client`]: it builds the redirect URL that
//! starts a login and verifies the signed token that the authentication
//! server later returns, yielding a confirmed email address. All protocol
//! decisions — token parsing, key selection, signature dispatch, claim
//! validation, cache and nonce policy — are verified; network transport and
//! the asynchronous glue around it live outside this library and feed the
//! fetched documents in as plain bytes.

use vstd::prelude::*;
use vstd::string::*;

pub mod json;
pub mod jwk;
pub mod jws;
pub mod misc;
pub mod store;

pub use misc::DiscoveryDoc;
pub use misc::ResponseMode;
pub use store::FetchError;

use crate::json::{
    json_check, json_member_missing, json_num_member, json_str_member, missing_member_of,
    num_lit_member_of, str_member_of,
};
use crate::jwk::KeySet;
use crate::misc::{
    contains_char, deserialize_timestamp, parse_url_parts, spec_discovery, str_eq, timestamp_of,
    url_parse_of, urlencode, urlencode_bytes,
};

verus! {

/// Errors that can result from `Builder::build`.
#[derive(Debug, Clone, Copy, PartialEq, Eq, Structural)]
pub enum BuildError {
    /// The configured server URL cannot be used.
    InvalidServer,
    /// The configured redirect URI cannot be used.
    InvalidRedirectUri,
    /// The configured server is not an origin (contains additional
    /// components).
    ServerNotAnOrigin,
}

/// Errors that can result from starting an authentication.
#[derive(Debug, PartialEq, Eq)]
pub enum StartAuthError {
    /// The discovery document could not be fetched.
    FetchDiscovery(FetchError),
    /// The discovery document could not be parsed.
    ParseDiscovery(String),
    /// A nonce could not be generated.
    GenerateNonce(String),
}

/// Errors that can result from verifying a token.
#[derive(Debug, PartialEq, Eq)]
pub enum VerifyError {
    /// The discovery document could not be fetched.
    FetchDiscovery(FetchError),
    /// The discovery document could not be parsed.
    ParseDiscovery(String),
    /// The keys document could not be fetched.
    FetchJwks(FetchError),
    /// The keys document could not be parsed.
    ParseJwks(String),
    /// The token signature could not be verified.
    Signature(jws::VerifyError),
    /// The token payload is not a valid claims document.
    InvalidPayload(String),
    /// The token issuer did not match the configured server.
    IssuerInvalid,
    /// The token audience did not match this client.
    AudienceInvalid,
    /// The token has expired.
    TokenExpired,
    /// The token issue time is in the future.
    IssuedInTheFuture,
    /// The server changed the email address, but is not trusted.
    UntrustedServerChangedEmail,
    /// The session could not be verified against the store.
    VerifySession(String),
    /// The session is invalid or has expired.
    InvalidSession,
}

/// The claims carried by a verified token payload.
#[derive(Debug)]
pub struct Claims {
    pub iss: String,
    pub aud: String,
    pub email: String,
    pub email_original: Option<String>,
    pub iat: u64,
    pub exp: u64,
    pub nonce: String,
}

/// The mathematical view of a claims record, over plain sequences.
#[verifier::ext_equal]
pub struct ClaimsV {
    pub iss: Seq<char>,
    pub aud: Seq<char>,
    pub email: Seq<char>,
    pub email_original: Option<Seq<char>>,
    pub iat: u64,
    pub exp: u64,
    pub nonce: Seq<char>,
}

/// The view of a parsed claims record.
pub open spec fn claims_view(c: Claims) -> ClaimsV {
    ClaimsV {
        iss: c.iss@,
        aud: c.aud@,
        email: c.email@,
        email_original: match c.email_original {
            Some(s) => Some(s@),
            None => None,
        },
        iat: c.iat,
        exp: c.exp,
        nonce: c.nonce@,
    }
}

/// The original email the claims bytes denote: a string member gives its
/// value, an absent or null member gives none, anything else fails the
/// document.
pub open spec fn spec_email_original(b: Seq<u8>) -> Option<Option<Seq<char>>> {
    match str_member_of(b, "email_original"@) {
        Some(s) => Some(Some(s)),
        None => if missing_member_of(b, "email_original"@) {
            Some(None)
        } else {
            None
        },
    }
}

/// The timestamp a number member of the claims bytes denotes, through its
/// decimal literal.
pub open spec fn spec_timestamp_member(b: Seq<u8>, name: Seq<char>) -> Option<u64> {
    match num_lit_member_of(b, name) {
        Some(lit) => timestamp_of(lit),
        None => None,
    }
}

/// What a claims document's bytes denote, if they are valid: string
/// members `iss`, `aud`, `email` and `nonce`, number members `iat` and
/// `exp` (tolerating both integer and floating-point encodings), and an
/// optional string member `email_original`.
pub open spec fn spec_claims(b: Seq<u8>) -> Option<ClaimsV> {
    match str_member_of(b, "iss"@) {
        None => None,
        Some(iss) => match str_member_of(b, "aud"@) {
            None => None,
            Some(aud) => match str_member_of(b, "email"@) {
                None => None,
                Some(email) => match spec_email_original(b) {
                    None => None,
                    Some(email_original) => match spec_timestamp_member(b, "iat"@) {
                        None => None,
                        Some(iat) => match spec_timestamp_member(b, "exp"@) {
                            None => None,
                            Some(exp) => match str_member_of(b, "nonce"@) {
                                None => None,
                                Some(nonce) => Some(
                                    ClaimsV { iss, aud, email, email_original, iat, exp, nonce },
                                ),
                            },
                        },
                    },
                },
            },
        },
    }
}

/// An error message naming the offending claim.
fn claim_err(name: &str, what: &str) -> String {
    String::from_str("claim `").concat(name).concat("` ").concat(what)
}

/// Read a required string claim.
fn claim_string(b: &[u8], name: &str) -> (r: Result<String, String>)
    ensures
        match r {
            Ok(s) => str_member_of(b@, name@) == Some(s@),
            Err(_) => str_member_of(b@, name@) is None,
        },
{
    match json_str_member(b, name) {
        Some(s) => Ok(s),
        None => Err(claim_err(name, "is missing or not a string")),
    }
}

/// Read a required timestamp claim: a JSON number, tolerating both
/// integer and floating-point encodings. A negative or exponent-form
/// literal is rejected — the check fails closed on it rather than
/// clamping it into range.
fn claim_timestamp(b: &[u8], name: &str) -> (r: Result<u64, String>)
    ensures
        match r {
            Ok(t) => spec_timestamp_member(b@, name@) == Some(t),
            Err(_) => spec_timestamp_member(b@, name@) is None,
        },
{
    match json_num_member(b, name) {
        None => Err(claim_err(name, "is missing or not a number")),
        Some(lit) => match deserialize_timestamp(lit.as_str()) {
            Some(t) => Ok(t),
            None => Err(claim_err(name, "is not a valid timestamp")),
        },
    }
}

/// Parse a claims document from decoded payload bytes. Succeeds exactly
/// when the bytes denote a claims record, and then yields that record.
pub fn parse_claims(b: &[u8]) -> (r: Result<Claims, String>)
    ensures
        match spec_claims(b@) {
            Some(cv) => r matches Ok(c) && claims_view(c) == cv,
            None => r is Err,
        },
{
    match json_check(b) {
        Ok(u) => u,
        Err(e) => {
            return Err(e);
        },
    };
    let iss = claim_string(b, "iss")?;
    let aud = claim_string(b, "aud")?;
    let email = claim_string(b, "email")?;
    let email_original = match json_str_member(b, "email_original") {
        Some(s) => Some(s),
        None => {
            if json_member_missing(b, "email_original") {
                None
            } else {
                return Err(claim_err("email_original", "is not a string"));
            }
        },
    };
    let iat = claim_timestamp(b, "iat")?;
    let exp = claim_timestamp(b, "exp")?;
    let nonce = claim_string(b, "nonce")?;
    let c = Claims { iss, aud, email, email_original, iat, exp, nonce };
    proof {
        assert(claims_view(c) =~= spec_claims(b@).unwrap());
    }
    Ok(c)
}

/// A builder to configure a `Client`.
#[derive(Debug, Clone)]
pub struct Builder {
    pub server: Option<String>,
    pub trusted: bool,
    pub redirect_uri: String,
    pub response_mode: ResponseMode,
    pub leeway: u64,
}

/// The server URL a builder resolves to: the configured one, or the
/// default broker.
pub open spec fn spec_server(b: Builder) -> Seq<char> {
    match b.server {
        Some(s) => s@,
        None => "https://broker.portier.io"@,
    }
}

/// What `Builder::build` yields, as a function of the builder and of URL
/// parsing: on success, the tuple (server identity, client identity,
/// normalized redirect URI, discovery URL).
pub open spec fn spec_build(b: Builder) -> Result<
    (Seq<char>, Seq<char>, Seq<char>, Seq<char>),
    BuildError,
> {
    match url_parse_of(spec_server(b)) {
        None => Err(BuildError::InvalidServer),
        Some(sp) => if !sp.2 {
            Err(BuildError::InvalidServer)
        } else {
            match url_parse_of(b.redirect_uri@) {
                None => Err(BuildError::InvalidRedirectUri),
                Some(rp) => if !rp.2 {
                    Err(BuildError::InvalidRedirectUri)
                } else if sp.0 != sp.1 && sp.0 != sp.1 + "/"@ {
                    Err(BuildError::ServerNotAnOrigin)
                } else {
                    Ok((sp.1, rp.1, rp.0, sp.1 + "/.well-known/openid-configuration"@))
                },
            }
        },
    }
}

/// The builder `Client::builder` starts from.
pub open spec fn spec_new_builder(redirect_uri: String) -> Builder {
    Builder {
        server: None,
        trusted: true,
        redirect_uri,
        response_mode: ResponseMode::FormPost,
        leeway: 180,
    }
}

impl Builder {
    /// Configure the client to use a trusted broker.
    ///
    /// The `url` must be an origin only: scheme, host and optionally port;
    /// no path, query string or fragment.
    pub fn broker(self, url: String) -> (r: Self)
        ensures
            r.server == Some(url),
            r.trusted == true,
            r.redirect_uri == self.redirect_uri,
            r.response_mode == self.response_mode,
            r.leeway == self.leeway,
    {
        Builder { server: Some(url), trusted: true, ..self }
    }

    /// Configure the client to use an untrusted identity provider.
    ///
    /// This is usually only used when implementing a broker; an untrusted
    /// server may not rewrite email addresses.
    pub fn idp(self, url: String) -> (r: Self)
        ensures
            r.server == Some(url),
            r.trusted == false,
            r.redirect_uri == self.redirect_uri,
            r.response_mode == self.response_mode,
            r.leeway == self.leeway,
    {
        Builder { server: Some(url), trusted: false, ..self }
    }

    /// Configure the response mode to use. The default is `FormPost`.
    pub fn response_mode(self, mode: ResponseMode) -> (r: Self)
        ensures
            r.response_mode == mode,
            r.server == self.server,
            r.trusted == self.trusted,
            r.redirect_uri == self.redirect_uri,
            r.leeway == self.leeway,
    {
        Builder { response_mode: mode, ..self }
    }

    /// Configure the leeway, in seconds, to allow for timestamps in
    /// tokens. The default is 3 minutes.
    pub fn leeway(self, secs: u64) -> (r: Self)
        ensures
            r.leeway == secs,
            r.server == self.server,
            r.trusted == self.trusted,
            r.redirect_uri == self.redirect_uri,
            r.response_mode == self.response_mode,
    {
        Builder { leeway: secs, ..self }
    }

    /// Verify the configuration and build the client.
    ///
    /// The server URL's origin and the redirect URI's origin must both be
    /// real tuple origins, and the server URL must be a bare origin: its
    /// serialization equals its origin's, up to one trailing slash. The
    /// discovery URL is the origin with the well-known discovery path.
    pub fn build(self) -> (r: Result<Client, BuildError>)
        ensures
            match r {
                Ok(c) => spec_build(self) matches Ok(t) && c.server_id@ == t.0 && c.client_id@
                    == t.1 && c.redirect_uri@ == t.2 && c.discovery_url@ == t.3 && c.trusted
                    == self.trusted && c.response_mode == self.response_mode && c.leeway
                    == self.leeway,
                Err(e) => spec_build(self) == Err::<
                    (Seq<char>, Seq<char>, Seq<char>, Seq<char>),
                    BuildError,
                >(e),
            },
    {
        let Builder { server, trusted, redirect_uri, response_mode, leeway } = self;
        let server_str: String = match server {
            Some(s) => s,
            None => String::from_str("https://broker.portier.io"),
        };
        assert(server_str@ == spec_server(self));
        let sp = match parse_url_parts(server_str.as_str()) {
            Some(p) => p,
            None => {
                return Err(BuildError::InvalidServer);
            },
        };
        if !sp.origin_is_tuple {
            return Err(BuildError::InvalidServer);
        }
        let rp = match parse_url_parts(redirect_uri.as_str()) {
            Some(p) => p,
            None => {
                return Err(BuildError::InvalidRedirectUri);
            },
        };
        if !rp.origin_is_tuple {
            return Err(BuildError::InvalidRedirectUri);
        }
        // The server URL must be a bare origin: equal to its origin's
        // serialization, or to that with one trailing slash.
        let with_slash = sp.origin.clone().concat("/");
        if !(str_eq(sp.serialization.as_str(), sp.origin.as_str()) || str_eq(
            sp.serialization.as_str(),
            with_slash.as_str(),
        )) {
            return Err(BuildError::ServerNotAnOrigin);
        }
        let discovery_url = sp.origin.clone().concat("/.well-known/openid-configuration");
        Ok(
            Client {
                server_id: sp.origin,
                discovery_url,
                trusted,
                redirect_uri: rp.serialization,
                client_id: rp.origin,
                response_mode,
                leeway,
            },
        )
    }
}

/// A client for performing the authentication protocol.
///
/// Create a client using either `Client::builder` or `Client::new`. The
/// client is immutable configuration; it performs no I/O itself. The
/// embedding application fetches the discovery and keys documents (through
/// a store such as `MemoryStore`) and hands their bytes to the pipeline
/// functions here, in the order the protocol fixes: parse discovery, parse
/// keys, `verify_token`, consume the nonce, `finish_verify`.
#[derive(Debug, Clone)]
pub struct Client {
    pub server_id: String,
    pub discovery_url: String,
    pub trusted: bool,
    pub redirect_uri: String,
    pub client_id: String,
    pub response_mode: ResponseMode,
    pub leeway: u64,
}

/// The form-urlencoded encoding of a query-parameter value.
pub open spec fn spec_query_value(s: Seq<char>) -> Seq<char> {
    urlencode_bytes(vstd::utf8::encode_utf8(s))
}

/// What separates the endpoint from the first appended parameter: nothing
/// after a trailing `?` (an empty query), `&` after an existing query,
/// else `?`.
pub open spec fn spec_query_sep(endpoint: Seq<char>) -> Seq<char> {
    if endpoint.len() > 0 && endpoint.last() == '?' {
        Seq::empty()
    } else if endpoint.contains('?') {
        "&"@
    } else {
        "?"@
    }
}

/// The authorization redirect URL: the endpoint with the protocol's seven
/// query parameters appended, each value form-urlencoded.
pub open spec fn spec_auth_url(
    endpoint: Seq<char>,
    email: Seq<char>,
    nonce: Seq<char>,
    mode: ResponseMode,
    client_id: Seq<char>,
    redirect_uri: Seq<char>,
) -> Seq<char> {
    endpoint + spec_query_sep(endpoint) + "login_hint="@ + spec_query_value(email)
        + "&scope=openid+email&nonce="@
        + spec_query_value(nonce) + "&response_type=id_token&response_mode="@ + mode.spec_str()
        + "&client_id="@ + spec_query_value(client_id) + "&redirect_uri="@ + spec_query_value(
        redirect_uri,
    )
}

/// The cutoff for the expiry check: `exp + leeway`, saturating to the
/// numeric minimum on overflow, never wrapping.
pub open spec fn spec_exp_cutoff(exp: u64, leeway: u64) -> u64 {
    if exp + leeway > u64::MAX {
        0
    } else {
        (exp + leeway) as u64
    }
}

/// The cutoff for the issued-at check: `iat - leeway`, saturating to the
/// numeric maximum on underflow, never wrapping.
pub open spec fn spec_iat_cutoff(iat: u64, leeway: u64) -> u64 {
    if iat - leeway < 0 {
        u64::MAX
    } else {
        (iat - leeway) as u64
    }
}

/// The email the nonce was bound to: the original email if the token
/// carries one, else the token's email.
pub open spec fn spec_session_email(cv: ClaimsV) -> Seq<char> {
    match cv.email_original {
        Some(o) => o,
        None => cv.email,
    }
}

/// What claim validation yields, as a function of configuration, claims
/// and the current Unix time, in the order the protocol fixes: issuer,
/// audience, expiry, issue time, then the trust policy on rewritten email
/// addresses.
pub open spec fn spec_validate(c: Client, cv: ClaimsV, now: u64) -> Result<(), VerifyError> {
    if cv.iss != c.server_id@ {
        Err(VerifyError::IssuerInvalid)
    } else if cv.aud != c.client_id@ {
        Err(VerifyError::AudienceInvalid)
    } else if spec_exp_cutoff(cv.exp, c.leeway) < now {
        Err(VerifyError::TokenExpired)
    } else if now < spec_iat_cutoff(cv.iat, c.leeway) {
        Err(VerifyError::IssuedInTheFuture)
    } else if !c.trusted && (cv.email_original matches Some(o) && o != cv.email) {
        Err(VerifyError::UntrustedServerChangedEmail)
    } else {
        Ok(())
    }
}

/// A token that passed signature verification and claim validation, and
/// now only awaits consumption of its nonce.
#[derive(Debug)]
pub struct PendingVerification {
    /// The verified email address the token asserts.
    pub email: String,
    /// The email the nonce was bound to: the original email if present,
    /// else `email`.
    pub session_email: String,
    /// The single-use nonce to consume, together with `session_email`.
    pub nonce: String,
}

impl Client {
    /// Create a builder-style struct to configure a `Client`.
    pub fn builder(redirect_uri: String) -> (b: Builder)
        ensures
            b == spec_new_builder(redirect_uri),
    {
        Builder {
            server: None,
            trusted: true,
            redirect_uri,
            response_mode: ResponseMode::FormPost,
            leeway: 180,
        }
    }

    /// Create a client with default settings: the default broker, trusted,
    /// form-post responses, three minutes of leeway.
    ///
    /// The redirect URI must be a well-formed URL with a tuple origin.
    pub fn new(redirect_uri: String) -> (c: Self)
        requires
            spec_build(spec_new_builder(redirect_uri)) is Ok,
        ensures
            spec_build(spec_new_builder(redirect_uri)) matches Ok(t) && c.server_id@ == t.0
                && c.client_id@ == t.1 && c.redirect_uri@ == t.2 && c.discovery_url@ == t.3
                && c.trusted == true && c.response_mode == ResponseMode::FormPost && c.leeway
                == 180,
    {
        match Client::builder(redirect_uri).build() {
            Ok(c) => c,
            Err(_) => vstd::pervasive::unreached(),
        }
    }

    /// Construct the authorization redirect URL for a login attempt:
    /// endpoint plus `login_hint`, `scope`, `nonce`, `response_type`,
    /// `response_mode`, `client_id` and `redirect_uri` query parameters.
    pub fn auth_url(&self, authorization_endpoint: &str, email: &str, nonce: &str) -> (r: String)
        ensures
            r@ == spec_auth_url(
                authorization_endpoint@,
                email@,
                nonce@,
                self.response_mode,
                self.client_id@,
                self.redirect_uri@,
            ),
    {
        let mut out = String::from_str(authorization_endpoint);
        let elen = authorization_endpoint.unicode_len();
        if elen > 0 && authorization_endpoint.get_char(elen - 1) == '?' {
            // The endpoint already ends in an empty query: append directly.
        } else if contains_char(authorization_endpoint, '?') {
            out.append("&");
        } else {
            out.append("?");
        }
        out.append("login_hint=");
        let e1 = urlencode(email);
        out.append(e1.as_str());
        out.append("&scope=openid+email&nonce=");
        let e2 = urlencode(nonce);
        out.append(e2.as_str());
        out.append("&response_type=id_token&response_mode=");
        out.append(self.response_mode.as_str());
        out.append("&client_id=");
        let e3 = urlencode(self.client_id.as_str());
        out.append(e3.as_str());
        out.append("&redirect_uri=");
        let e4 = urlencode(self.redirect_uri.as_str());
        out.append(e4.as_str());
        proof {
            assert(out@ =~= spec_auth_url(
                authorization_endpoint@,
                email@,
                nonce@,
                self.response_mode,
                self.client_id@,
                self.redirect_uri@,
            ));
        }
        out
    }

    /// Build the redirect URL that starts a login, from the fetched
    /// discovery document, the email being logged in, and a fresh nonce
    /// bound to that email.
    pub fn start_auth_url(&self, email: &str, discovery: &[u8], nonce: &str) -> (r: Result<
        String,
        StartAuthError,
    >)
        ensures
            match spec_discovery(discovery@) {
                Some(dv) => r matches Ok(u) && u@ == spec_auth_url(
                    dv.1,
                    email@,
                    nonce@,
                    self.response_mode,
                    self.client_id@,
                    self.redirect_uri@,
                ),
                None => r matches Err(StartAuthError::ParseDiscovery(_)),
            },
    {
        let doc = match DiscoveryDoc::parse(discovery) {
            Ok(d) => d,
            Err(e) => {
                return Err(StartAuthError::ParseDiscovery(e));
            },
        };
        Ok(self.auth_url(doc.authorization_endpoint.as_str(), email, nonce))
    }

    /// Validate the claims of a token whose signature already verified, in
    /// the order the protocol fixes.
    pub fn validate_claims(&self, claims: &Claims, now: u64) -> (r: Result<(), VerifyError>)
        ensures
            r == spec_validate(*self, claims_view(*claims), now),
    {
        if !str_eq(claims.iss.as_str(), self.server_id.as_str()) {
            return Err(VerifyError::IssuerInvalid);
        }
        if !str_eq(claims.aud.as_str(), self.client_id.as_str()) {
            return Err(VerifyError::AudienceInvalid);
        }
        let exp_cutoff: u64 = if claims.exp <= u64::MAX - self.leeway {
            claims.exp + self.leeway
        } else {
            0
        };
        if exp_cutoff < now {
            return Err(VerifyError::TokenExpired);
        }
        let iat_cutoff: u64 = if claims.iat >= self.leeway {
            claims.iat - self.leeway
        } else {
            u64::MAX
        };
        if now < iat_cutoff {
            return Err(VerifyError::IssuedInTheFuture);
        }
        // An untrusted identity provider may not rewrite the email
        // address; only a trusted broker performs normalization.
        if !self.trusted {
            match &claims.email_original {
                Some(orig) => {
                    if !str_eq(orig.as_str(), claims.email.as_str()) {
                        return Err(VerifyError::UntrustedServerChangedEmail);
                    }
                },
                None => {},
            }
        }
        Ok(())
    }

    /// Verify a token against the fetched key set at the given Unix time:
    /// signature verification, claims parsing, claim validation. On
    /// success the returned value still awaits its nonce consumption.
    pub fn verify_token(&self, token: &str, keys: &KeySet, now: u64) -> (r: Result<
        PendingVerification,
        VerifyError,
    >)
        ensures
            match jws::spec_verify(token.spec_bytes(), keys.keys@) {
                Err(k) => r matches Err(e2) && e2 matches VerifyError::Signature(e)
                    && jws::err_matches(e, k),
                Ok(payload) => match spec_claims(payload) {
                    None => r matches Err(VerifyError::InvalidPayload(_)),
                    Some(cv) => match spec_validate(*self, cv, now) {
                        Err(e) => r == Err::<PendingVerification, VerifyError>(e),
                        Ok(u) => r matches Ok(p) && p.email@ == cv.email && p.session_email@
                            == spec_session_email(cv) && p.nonce@ == cv.nonce,
                    },
                },
            },
    {
        let payload = match jws::verify(token, &keys.keys) {
            Ok(p) => p,
            Err(e) => {
                return Err(VerifyError::Signature(e));
            },
        };
        let claims = match parse_claims(payload.as_slice()) {
            Ok(c) => c,
            Err(e) => {
                return Err(VerifyError::InvalidPayload(e));
            },
        };
        match self.validate_claims(&claims, now) {
            Ok(u) => u,
            Err(e) => {
                return Err(e);
            },
        };
        let session_email = match &claims.email_original {
            Some(o) => o.clone(),
            None => claims.email.clone(),
        };
        Ok(PendingVerification { email: claims.email, session_email, nonce: claims.nonce })
    }

    /// Conclude a verification: the nonce of a pending verification was
    /// consumed (or not), so the login is confirmed (or the session is
    /// invalid).
    pub fn finish_verify(pending: PendingVerification, consumed: bool) -> (r: Result<
        String,
        VerifyError,
    >)
        ensures
            consumed ==> r == Ok::<String, VerifyError>(pending.email),
            !consumed ==> r == Err::<String, VerifyError>(VerifyError::InvalidSession),
    {
        if consumed {
            Ok(pending.email)
        } else {
            Err(VerifyError::InvalidSession)
        }
    }
}

/// Expiry boundary: with issuer and audience matching, the issue-time
/// check passing and the trust policy satisfied, a token is still valid at
/// `now == exp + leeway` and expired at `now == exp + leeway + 1`.
pub proof fn lemma_expiry_boundary(c: Client, cv: ClaimsV)
    requires
        cv.iss == c.server_id@,
        cv.aud == c.client_id@,
        cv.exp + c.leeway + 1 <= u64::MAX,
        spec_iat_cutoff(cv.iat, c.leeway) <= cv.exp + c.leeway,
        c.trusted || !(cv.email_original matches Some(o) && o != cv.email),
    ensures
        spec_validate(c, cv, (cv.exp + c.leeway) as u64) == Ok::<(), VerifyError>(()),
        spec_validate(c, cv, (cv.exp + c.leeway + 1) as u64) == Err::<(), VerifyError>(
            VerifyError::TokenExpired,
        ),
{
}

/// Issue-time boundary, symmetric to the expiry one: with the other
/// checks passing, a token is valid at `now == iat - leeway` and not yet
/// valid at `now == iat - leeway - 1`.
pub proof fn lemma_issued_at_boundary(c: Client, cv: ClaimsV)
    requires
        cv.iss == c.server_id@,
        cv.aud == c.client_id@,
        c.leeway + 1 <= cv.iat,
        cv.iat - c.leeway <= spec_exp_cutoff(cv.exp, c.leeway),
        c.trusted || !(cv.email_original matches Some(o) && o != cv.email),
    ensures
        spec_validate(c, cv, (cv.iat - c.leeway) as u64) == Ok::<(), VerifyError>(()),
        spec_validate(c, cv, (cv.iat - c.leeway - 1) as u64) == Err::<(), VerifyError>(
            VerifyError::IssuedInTheFuture,
        ),
{
}

/// An untrusted identity provider may not rewrite the email address: with
/// all other checks passing, a token whose original email differs from
/// its final email is rejected, and one whose original email is absent or
/// equal to it passes.
pub proof fn lemma_untrusted_email_policy(c: Client, cv: ClaimsV, now: u64)
    requires
        !c.trusted,
        cv.iss == c.server_id@,
        cv.aud == c.client_id@,
        now <= spec_exp_cutoff(cv.exp, c.leeway),
        spec_iat_cutoff(cv.iat, c.leeway) <= now,
    ensures
        (cv.email_original matches Some(o) && o != cv.email) ==> spec_validate(c, cv, now)
            == Err::<(), VerifyError>(VerifyError::UntrustedServerChangedEmail),
        (cv.email_original is None || (cv.email_original matches Some(o) && o == cv.email))
            ==> spec_validate(c, cv, now) == Ok::<(), VerifyError>(()),
{
}

/// The builder accepts the server URL only as a bare origin: when both
/// origins are real tuple origins but the server URL's serialization has
/// anything beyond its origin and one optional trailing slash, the build
/// fails with `ServerNotAnOrigin`; a bare origin (with or without the
/// trailing slash) builds successfully.
pub proof fn lemma_server_bare_origin(b: Builder)
    requires
        url_parse_of(spec_server(b)) matches Some(sp) && sp.2,
        url_parse_of(b.redirect_uri@) matches Some(rp) && rp.2,
    ensures
        (url_parse_of(spec_server(b)) matches Some(sp) && sp.0 != sp.1 && sp.0 != sp.1 + "/"@)
            ==> spec_build(b) == Err::<(Seq<char>, Seq<char>, Seq<char>, Seq<char>), BuildError>(
            BuildError::ServerNotAnOrigin,
        ),
        (url_parse_of(spec_server(b)) matches Some(sp) && (sp.0 == sp.1 || sp.0 == sp.1 + "/"@))
            ==> spec_build(b) is Ok,
{
}

/// A minimal login page for a demo front-end: always the same fixed
/// markup, a form that posts the email address to `/auth`.
pub fn index() -> (r: String)
    ensures
        r@ == "\n        <p>Enter your email address:</p>\n        <form method=\"post\" action=\"/auth\">\n          <input name=\"email\" type=\"email\">\n          <button type=\"submit\">Login</button>\n        </form>\n        "@,
{
    String::from_str(
        "\n        <p>Enter your email address:</p>\n        <form method=\"post\" action=\"/auth\">\n          <input name=\"email\" type=\"email\">\n          <button type=\"submit\">Login</button>\n        </form>\n        ",
    )
}

} // verus!
