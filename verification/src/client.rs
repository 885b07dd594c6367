//! The request signing and dispatch core: credentials, the client state,
//! canonical signed-URL construction, header assembly, and response
//! classification.
//!
//! Every outgoing request is signed: the URL receives the four query
//! parameters `apikey`, `nonce`, `timestamp` and `signature`, in that
//! order, after any caller-supplied query parameters.  The signature is
//! the lowercase hexadecimal HMAC-SHA256, under the API secret, of
//! `METHOD \0 URL \0 BODY`, where the URL already carries the first three
//! parameters.

use vstd::prelude::*;

use crate::defs::AccessToken;
use crate::encode::{
    append_bytes, encode_query, encode_query_append, hex_encode, hex_lower_byte, hex_of,
    pairs_bytes, qs_encode_append, qs_pair, u64_to_dec, dec_of, AMP, EQUALS, QMARK,
};
use crate::error::Error;
use crate::text::{
    all_ascii, ascii_chars_of, lemma_ascii_bytes_utf8, lossy_of, lossy_utf8_to_string,
    try_utf8_to_string,
};
use crypto::mac::Mac;
use vstd::string::StrSliceExecFns;
use vstd::string::StringExecFns;
use vstd::utf8::encode_utf8;

verus! {

// ---------------------------------------------------------------------------
// Basic request vocabulary
// ---------------------------------------------------------------------------

/// The HTTP methods the client issues.
#[derive(Debug, Clone, Copy, PartialEq, Eq, Structural)]
pub enum Method {
    Get,
    Post,
    Patch,
    Delete,
}

impl Method {
    /// The method name as it enters the signing input, in uppercase.
    pub open spec fn spec_name(self) -> Seq<char> {
        match self {
            Method::Get => "GET"@,
            Method::Post => "POST"@,
            Method::Patch => "PATCH"@,
            Method::Delete => "DELETE"@,
        }
    }

    /// The method name in uppercase.
    pub fn as_str(&self) -> (r: &'static str)
        ensures
            r@ == self.spec_name(),
    {
        match self {
            Method::Get => "GET",
            Method::Post => "POST",
            Method::Patch => "PATCH",
            Method::Delete => "DELETE",
        }
    }
}

/// The content types the client declares on request bodies.
#[derive(Debug, Clone, Copy, PartialEq, Eq, Structural)]
pub enum ContentType {
    Json,
    FormUrlEncoded,
}

impl ContentType {
    /// The header value for this content type.
    pub open spec fn spec_name(self) -> Seq<char> {
        match self {
            ContentType::Json => "application/json"@,
            ContentType::FormUrlEncoded => "application/x-www-form-urlencoded"@,
        }
    }

    /// The header value for this content type.
    pub fn as_str(&self) -> (r: &'static str)
        ensures
            r@ == self.spec_name(),
    {
        match self {
            ContentType::Json => "application/json",
            ContentType::FormUrlEncoded => "application/x-www-form-urlencoded",
        }
    }
}

// ---------------------------------------------------------------------------
// Credentials
// ---------------------------------------------------------------------------

/// An API key/secret pair.  Created explicitly, or assembled from
/// configuration values read once at startup.
#[derive(Debug, Clone)]
pub struct ApiKeyPair {
    api_key: String,
    api_secret: String,
}

impl ApiKeyPair {
    /// The public key, appended to every signed URL.
    pub closed spec fn spec_key(self) -> Seq<char> {
        self.api_key@
    }

    /// The private secret, the HMAC key.
    pub closed spec fn spec_secret(self) -> Seq<char> {
        self.api_secret@
    }

    /// Creates a new pair from the given key and secret.
    pub fn new(api_key: String, api_secret: String) -> (r: Self)
        ensures
            r.spec_key() == api_key@,
            r.spec_secret() == api_secret@,
    {
        Self { api_key, api_secret }
    }

    /// Assembles a pair from two optional configuration values, as read
    /// from the environment by the caller.  Partial configuration counts
    /// as no configuration: both values must be present.
    pub fn from_values(api_key: Option<String>, api_secret: Option<String>) -> (r: Option<Self>)
        ensures
            match r {
                Some(pair) => api_key matches Some(k) && api_secret matches Some(s)
                    && pair.spec_key() == k@ && pair.spec_secret() == s@,
                None => api_key is None || api_secret is None,
            },
    {
        match (api_key, api_secret) {
            (Some(k), Some(s)) => Some(Self::new(k, s)),
            _ => None,
        }
    }

    /// The public key.
    pub fn key(&self) -> (r: &String)
        ensures
            r@ == self.spec_key(),
    {
        &self.api_key
    }
}

// ---------------------------------------------------------------------------
// Reliance on outside code
// ---------------------------------------------------------------------------

/// The HMAC-SHA256 of a message under a key.
pub uninterp spec fn hmac_sha256_of(key: Seq<u8>, message: Seq<u8>) -> Seq<u8>;

/// Relies on `crypto::hmac::Hmac` over `crypto::sha2::Sha256`: the MAC is
/// a function of key and message alone, 32 bytes long (the SHA-256 output
/// size).
#[verifier::external_body]
fn hmac_sha256(key: &[u8], message: &[u8]) -> (r: Vec<u8>)
    ensures
        r@ == hmac_sha256_of(key@, message@),
        r@.len() == 32,
{
    let mut mac = crypto::hmac::Hmac::new(crypto::sha2::Sha256::new(), key);
    mac.input(message);
    mac.result().code().to_vec()
}

/// Relies on `uuid::Uuid::new_v4` and its hyphenated rendering: a fresh
/// random 128-bit identifier, shown as 36 ASCII characters (lowercase hex
/// digits and hyphens).  Nothing else is assumed of the value.
#[verifier::external_body]
fn new_nonce() -> (r: String)
    ensures
        r@.len() == 36,
        vstd::utf8::is_ascii_chars(r@),
{
    uuid::Uuid::new_v4().to_string()
}

/// Relies on `std::time::SystemTime::now`: the current wall-clock time in
/// whole seconds since the Unix epoch, zero when the clock reads earlier
/// than the epoch.  Nothing is assumed of the value.
#[verifier::external_body]
fn now_unix_seconds() -> u64 {
    match std::time::SystemTime::now().duration_since(std::time::UNIX_EPOCH) {
        Ok(d) => d.as_secs(),
        Err(_) => 0,
    }
}

// ---------------------------------------------------------------------------
// The signed URL, in specification form
// ---------------------------------------------------------------------------

/// The input to the keyed hash: method name, URL and body, separated by
/// single null bytes.  The URL here already carries `apikey`, `nonce` and
/// `timestamp`.
pub open spec fn signing_input(method_name: Seq<u8>, url: Seq<u8>, body: Seq<u8>) -> Seq<u8> {
    method_name + seq![0u8] + url + seq![0u8] + body
}

/// The request signature: lowercase hexadecimal HMAC-SHA256 of the
/// signing input under the secret.
pub open spec fn signature_hex(secret: Seq<u8>, method_name: Seq<u8>, url: Seq<u8>, body: Seq<u8>) -> Seq<
    u8,
> {
    hex_of(hmac_sha256_of(secret, signing_input(method_name, url, body)))
}

/// What to place between the URL and an appended query pair: `?` when the
/// URL has no query yet, nothing when it ends right at `?`, and `&`
/// otherwise.
pub open spec fn query_sep(url: Seq<u8>) -> Seq<u8> {
    if !url.contains(QMARK) {
        seq![QMARK]
    } else if url.last() == QMARK {
        Seq::empty()
    } else {
        seq![AMP]
    }
}

/// The three query pairs appended before signing, in their fixed order:
/// `apikey`, `nonce`, `timestamp`.
pub open spec fn signing_pairs(api_key: Seq<char>, nonce: Seq<char>, timestamp: u64) -> Seq<
    (Seq<u8>, Seq<u8>),
> {
    seq![
        (encode_utf8("apikey"@), encode_utf8(api_key)),
        (encode_utf8("nonce"@), encode_utf8(nonce)),
        (encode_utf8("timestamp"@), dec_of(timestamp as nat)),
    ]
}

/// The URL augmented with `apikey`, `nonce` and `timestamp` — the exact
/// string the signature is computed over.
pub open spec fn url_with_signing_params(
    api_key: Seq<char>,
    url: Seq<u8>,
    nonce: Seq<char>,
    timestamp: u64,
) -> Seq<u8> {
    url + query_sep(url) + encode_query(signing_pairs(api_key, nonce, timestamp))
}

/// The fully signed URL: the signature is appended as the fourth and last
/// query parameter.
pub open spec fn signed_url_bytes(
    api_key: Seq<char>,
    secret: Seq<char>,
    method: Method,
    url: Seq<u8>,
    nonce: Seq<char>,
    timestamp: u64,
    body: Seq<u8>,
) -> Seq<u8> {
    let with_params = url_with_signing_params(api_key, url, nonce, timestamp);
    let sig = signature_hex(
        encode_utf8(secret),
        encode_utf8(method.spec_name()),
        with_params,
        body,
    );
    with_params + seq![AMP] + qs_pair(encode_utf8("signature"@), sig)
}

/// The fixed HTTPS origin and versioned path prefix.  Every endpoint path
/// is joined onto it.
pub open spec fn base_url_chars() -> Seq<char> {
    "https://api.letterboxd.com/api/v0/"@
}

/// The request URL before signing: base, endpoint path, and the
/// caller-supplied query pairs (when any), in the order given.
pub open spec fn api_url_bytes(path: Seq<char>, pairs: Seq<(Seq<u8>, Seq<u8>)>) -> Seq<u8> {
    let base = encode_utf8(base_url_chars()) + encode_utf8(path);
    if pairs.len() == 0 {
        base
    } else {
        base + seq![QMARK] + encode_query(pairs)
    }
}

/// The views of a header list.
pub open spec fn header_views(headers: Seq<(String, String)>) -> Seq<(Seq<char>, Seq<char>)> {
    headers.map_values(|h: (String, String)| (h.0@, h.1@))
}

/// The standard headers of a prepared request, in order:
/// `Accept-Encoding`, `Content-Length`, then `Content-Type` exactly when
/// the request carries a body, then `Authorization` when a token is held.
pub open spec fn spec_headers(
    has_body: bool,
    body_len: nat,
    content_type: Option<ContentType>,
    token: Option<AccessToken>,
) -> Seq<(Seq<char>, Seq<char>)> {
    let base = seq![
        ("Accept-Encoding"@, "application/json"@),
        ("Content-Length"@, ascii_chars_of(dec_of(body_len))),
    ];
    let with_ct = match content_type {
        Some(ct) => if has_body {
            base.push(("Content-Type"@, ct.spec_name()))
        } else {
            base
        },
        None => base,
    };
    match token {
        Some(t) => with_ct.push(("Authorization"@, "Bearer "@ + t.access_token@)),
        None => with_ct,
    }
}

/// A fully built outgoing request: signed URL, headers and body, ready
/// for a transport to send.  Computed fresh for every request and never
/// reused — a reused URL would replay its nonce and timestamp.
pub struct PreparedRequest {
    /// The HTTP method.
    pub method: Method,
    /// The signed URL, carrying all four signing parameters.
    pub url: String,
    /// The headers, as name/value pairs in order.
    pub headers: Vec<(String, String)>,
    /// The body bytes; empty when the request carries no body.
    pub body: Vec<u8>,
}

/// The documented form of the signature parameter: the URL ends in
/// `&signature=` followed by exactly 64 lowercase hexadecimal digits.
pub open spec fn carries_hex_signature(url: Seq<u8>) -> bool {
    &&& url.len() >= 75
    &&& url.subrange(url.len() - 75, url.len() - 64) == seq![AMP] + encode_utf8("signature"@)
        + seq![EQUALS]
    &&& (forall|i: int| url.len() - 64 <= i < url.len() ==> hex_lower_byte(#[trigger] url[i]))
}

/// A URL built from a 32-byte MAC carries its signature in the
/// documented form.
proof fn lemma_signature_form(with_params: Seq<u8>, mac: Seq<u8>)
    requires
        mac.len() == 32,
    ensures
        carries_hex_signature(
            with_params + seq![AMP] + qs_pair(encode_utf8("signature"@), hex_of(mac)),
        ),
{
    broadcast use vstd::string::group_string_axioms;

    reveal_strlit("signature");
    let key_chars = "signature"@;
    assert(key_chars.len() == 9);
    assert forall|i: int| 0 <= i < key_chars.len() implies '\0' <= #[trigger] key_chars[i]
        <= '\u{7f}' by {}
    assert(vstd::utf8::is_ascii_chars(key_chars));
    vstd::utf8::is_ascii_chars_encode_utf8(key_chars);
    let key_b = encode_utf8(key_chars);
    assert(key_b.len() == 9);
    assert forall|i: int| 0 <= i < key_b.len() implies crate::encode::qs_unreserved(
        #[trigger] key_b[i],
    ) by {
        assert(key_b[i] == key_chars[i] as u8);
    }
    crate::encode::lemma_qs_encode_identity(key_b);
    let sig = hex_of(mac);
    assert(sig.len() == 64);
    assert forall|i: int| 0 <= i < sig.len() implies hex_lower_byte(#[trigger] sig[i])
        && crate::encode::qs_unreserved(sig[i]) by {
        assert(0 <= mac[i / 2] / 16 < 16 && 0 <= mac[i / 2] % 16 < 16);
    }
    crate::encode::lemma_qs_encode_identity(sig);
    let url = with_params + seq![AMP] + qs_pair(key_b, sig);
    assert(url.len() == with_params.len() + 75);
    assert(url.subrange(url.len() - 75, url.len() - 64) =~= seq![AMP] + key_b + seq![EQUALS]);
    assert forall|i: int| url.len() - 64 <= i < url.len() implies hex_lower_byte(
        #[trigger] url[i],
    ) by {
        assert(url[i] == sig[i - (url.len() - 64)]);
    }
}

// ---------------------------------------------------------------------------
// The client
// ---------------------------------------------------------------------------

/// The client: one credential pair, zero or one access token.  The
/// transport that carries prepared requests lives outside this library.
/// No `Debug` is derived: printing the client would expose the secret.
#[derive(Clone)]
pub struct Client {
    api_key_pair: ApiKeyPair,
    token: Option<AccessToken>,
}

impl Client {
    /// The credential pair the client signs with.
    pub closed spec fn spec_key_pair(self) -> ApiKeyPair {
        self.api_key_pair
    }

    /// The token used for the `Authorization` header, when present.
    pub closed spec fn spec_token(self) -> Option<AccessToken> {
        self.token
    }

    /// Creates a new client without authentication.
    pub fn new(api_key_pair: ApiKeyPair) -> (r: Self)
        ensures
            r.spec_key_pair() == api_key_pair,
            r.spec_token() is None,
    {
        Self { api_key_pair, token: None }
    }

    /// Creates a new client from a given token.  The token is not checked.
    pub fn with_token(api_key_pair: ApiKeyPair, token: AccessToken) -> (r: Self)
        ensures
            r.spec_key_pair() == api_key_pair,
            r.spec_token() == Some(token),
    {
        Self { api_key_pair, token: Some(token) }
    }

    /// True when the client holds a token.  The token is not checked.
    pub fn is_authenticated(&self) -> (r: bool)
        ensures
            r == (self.spec_token() is Some),
    {
        self.token.is_some()
    }

    /// The token used for authentication, when present.
    pub fn token(&self) -> (r: Option<&AccessToken>)
        ensures
            match r {
                Some(t) => self.spec_token() == Some(*t),
                None => self.spec_token() is None,
            },
    {
        self.token.as_ref()
    }

    /// Replaces the token.  `None` disables authentication for later
    /// requests; requests already prepared keep the token they captured.
    pub fn set_token(&mut self, token: Option<AccessToken>)
        ensures
            final(self).spec_token() == token,
            final(self).spec_key_pair() == old(self).spec_key_pair(),
    {
        self.token = token;
    }

    /// Appends `apikey`, `nonce` and `timestamp` to the URL, signs the
    /// result together with the method and body, and appends the signature
    /// as the final query parameter.
    #[verifier::rlimit(100)]
    fn sign_url_bytes(&self, url: Vec<u8>, method: &Method, body: &[u8], nonce: &str, timestamp: u64) -> (r:
        Vec<u8>)
        ensures
            r@ == signed_url_bytes(
                self.spec_key_pair().spec_key(),
                self.spec_key_pair().spec_secret(),
                *method,
                url@,
                nonce@,
                timestamp,
                body@,
            ),
            carries_hex_signature(r@),
    {
        let ghost url0 = url@;
        let mut u = url;
        let has_query = contains_byte(u.as_slice(), QMARK);
        if !has_query {
            u.push(QMARK);
        } else {
            let n = u.len();
            proof {
                assert(url0.len() > 0);
            }
            if u[n - 1] != QMARK {
                u.push(AMP);
            }
        }
        proof {
            assert(u@ =~= url0 + query_sep(url0));
        }
        qs_encode_append(&mut u, "apikey".as_bytes());
        u.push(EQUALS);
        qs_encode_append(&mut u, self.api_key_pair.api_key.as_str().as_bytes());
        u.push(AMP);
        qs_encode_append(&mut u, "nonce".as_bytes());
        u.push(EQUALS);
        qs_encode_append(&mut u, nonce.as_bytes());
        u.push(AMP);
        qs_encode_append(&mut u, "timestamp".as_bytes());
        u.push(EQUALS);
        let ts = u64_to_dec(timestamp);
        qs_encode_append(&mut u, ts.as_slice());
        proof {
            let ps = signing_pairs(self.spec_key_pair().spec_key(), nonce@, timestamp);
            let rest1 = seq![ps[1], ps[2]];
            let rest2 = seq![ps[2]];
            assert(ps.drop_first() =~= rest1);
            assert(rest1.drop_first() =~= rest2);
            assert(encode_query(rest2) == qs_pair(ps[2].0, ps[2].1));
            assert(encode_query(rest1) == qs_pair(ps[1].0, ps[1].1) + seq![AMP] + encode_query(
                rest2,
            ));
            assert(encode_query(ps) == qs_pair(ps[0].0, ps[0].1) + seq![AMP] + encode_query(
                rest1,
            ));
            assert(u@ =~= url_with_signing_params(
                self.spec_key_pair().spec_key(),
                url0,
                nonce@,
                timestamp,
            ));
        }
        let ghost with_params = u@;
        let mut message: Vec<u8> = method.as_str().as_bytes_vec();
        message.push(0);
        append_bytes(&mut message, u.as_slice());
        message.push(0);
        append_bytes(&mut message, body);
        proof {
            assert(message@ =~= signing_input(
                encode_utf8(method.spec_name()),
                with_params,
                body@,
            ));
        }
        let mac = hmac_sha256(self.api_key_pair.api_secret.as_str().as_bytes(), message.as_slice());
        proof {
            lemma_signature_form(with_params, mac@);
        }
        let signature = hex_encode(mac.as_slice());
        u.push(AMP);
        qs_encode_append(&mut u, "signature".as_bytes());
        u.push(EQUALS);
        qs_encode_append(&mut u, signature.as_slice());
        proof {
            assert(u@ =~= signed_url_bytes(
                self.spec_key_pair().spec_key(),
                self.spec_key_pair().spec_secret(),
                *method,
                url0,
                nonce@,
                timestamp,
                body@,
            ));
        }
        u
    }

    /// Signs a URL for one request.  The nonce — a fresh unique random
    /// token — and the timestamp — seconds since the epoch — are passed
    /// in, so the result is a function of its arguments; production
    /// callers draw them from [`Client::prepare_request_now`].
    pub fn sign_url(&self, url: &str, method: &Method, body: &[u8], nonce: &str, timestamp: u64) -> (r:
        String)
        ensures
            encode_utf8(r@) == signed_url_bytes(
                self.spec_key_pair().spec_key(),
                self.spec_key_pair().spec_secret(),
                *method,
                encode_utf8(url@),
                nonce@,
                timestamp,
                body@,
            ),
            carries_hex_signature(encode_utf8(r@)),
    {
        let url_b = url.as_bytes_vec();
        let signed = self.sign_url_bytes(url_b, method, body, nonce, timestamp);
        proof {
            broadcast use vstd::utf8::group_utf8_lib;

            lemma_signed_url_ascii_tail(
                self.spec_key_pair().spec_key(),
                self.spec_key_pair().spec_secret(),
                *method,
                encode_utf8(url@),
                nonce@,
                timestamp,
                body@,
            );
        }
        match try_utf8_to_string(signed) {
            Some(s) => s,
            None => vstd::pervasive::unreached(),
        }
    }
    /// Builds the complete outgoing request for one logical call: joins
    /// the endpoint path onto the base URL, serializes the query pairs
    /// into the URL before signing, signs the URL, and assembles the
    /// standard headers.  The nonce and timestamp are passed in;
    /// production callers draw them from [`Client::prepare_request_now`].
    pub fn prepare_request(
        &self,
        method: Method,
        path: &str,
        query: &Vec<(String, String)>,
        content_type: Option<ContentType>,
        body: Option<Vec<u8>>,
        nonce: &str,
        timestamp: u64,
    ) -> (r: PreparedRequest)
        ensures
            r.method == method,
            r.body@ == (match body {
                Some(b) => b@,
                None => Seq::<u8>::empty(),
            }),
            encode_utf8(r.url@) == signed_url_bytes(
                self.spec_key_pair().spec_key(),
                self.spec_key_pair().spec_secret(),
                method,
                api_url_bytes(path@, pairs_bytes(query@)),
                nonce@,
                timestamp,
                r.body@,
            ),
            carries_hex_signature(encode_utf8(r.url@)),
            header_views(r.headers@) == spec_headers(
                body is Some,
                r.body@.len(),
                content_type,
                self.spec_token(),
            ),
    {
        let has_body = body.is_some();
        let mut url_b: Vec<u8> = Vec::new();
        append_bytes(&mut url_b, "https://api.letterboxd.com/api/v0/".as_bytes());
        append_bytes(&mut url_b, path.as_bytes());
        if query.len() > 0 {
            url_b.push(QMARK);
            encode_query_append(&mut url_b, query);
        }
        proof {
            broadcast use vstd::utf8::group_utf8_lib;

            let b1 = encode_utf8(base_url_chars());
            let b2 = encode_utf8(path@);
            let pairs = pairs_bytes(query@);
            assert(vstd::utf8::valid_utf8(b1 + b2));
            if pairs.len() > 0 {
                let qpart = seq![QMARK] + encode_query(pairs);
                crate::encode::lemma_encode_query_ascii(pairs);
                assert(all_ascii(qpart));
                lemma_ascii_bytes_utf8(qpart);
                assert(vstd::utf8::valid_utf8((b1 + b2) + qpart));
                assert(url_b@ =~= (b1 + b2) + qpart);
            } else {
                assert(url_b@ =~= b1 + b2);
            }
            assert(url_b@ =~= api_url_bytes(path@, pairs));
        }
        let ghost url_spec = url_b@;
        let body_vec: Vec<u8> = match body {
            Some(b) => b,
            None => Vec::new(),
        };
        let signed = self.sign_url_bytes(url_b, &method, body_vec.as_slice(), nonce, timestamp);
        proof {
            broadcast use vstd::utf8::group_utf8_lib;

            lemma_signed_url_ascii_tail(
                self.spec_key_pair().spec_key(),
                self.spec_key_pair().spec_secret(),
                method,
                url_spec,
                nonce@,
                timestamp,
                body_vec@,
            );
        }
        let url_s = match try_utf8_to_string(signed) {
            Some(s) => s,
            None => vstd::pervasive::unreached(),
        };
        let headers = self.build_headers(has_body, body_vec.len(), content_type);
        PreparedRequest { method, url: url_s, headers, body: body_vec }
    }

    /// Assembles the standard headers for a body of the given length; the
    /// content type enters only when the request carries a body.
    fn build_headers(&self, has_body: bool, body_len: usize, content_type: Option<ContentType>) -> (r:
        Vec<(String, String)>)
        ensures
            header_views(r@) == spec_headers(
                has_body,
                body_len as nat,
                content_type,
                self.spec_token(),
            ),
    {
        let mut headers: Vec<(String, String)> = Vec::new();
        headers.push((String::from_str("Accept-Encoding"), String::from_str("application/json")));
        let len_bytes = u64_to_dec(body_len as u64);
        proof {
            crate::encode::lemma_dec_of_ascii(body_len as nat);
            lemma_ascii_bytes_utf8(dec_of(body_len as nat));
        }
        let len_s = match try_utf8_to_string(len_bytes) {
            Some(s) => s,
            None => vstd::pervasive::unreached(),
        };
        headers.push((String::from_str("Content-Length"), len_s));
        match content_type {
            Some(ct) => if has_body {
                headers.push((String::from_str("Content-Type"), String::from_str(ct.as_str())));
            },
            None => {},
        }
        match &self.token {
            Some(t) => {
                let mut value = String::from_str("Bearer ");
                value.append(t.access_token.as_str());
                headers.push((String::from_str("Authorization"), value));
            },
            None => {},
        }
        proof {
            assert(header_views(headers@) =~= spec_headers(
                has_body,
                body_len as nat,
                content_type,
                self.spec_token(),
            ));
        }
        headers
    }

    /// Builds a request with a fresh random nonce and the current time.
    /// Whatever the two came back as, the result is the signed request
    /// for them.
    pub fn prepare_request_now(
        &self,
        method: Method,
        path: &str,
        query: &Vec<(String, String)>,
        content_type: Option<ContentType>,
        body: Option<Vec<u8>>,
    ) -> (r: PreparedRequest)
        ensures
            r.method == method,
            r.body@ == (match body {
                Some(b) => b@,
                None => Seq::<u8>::empty(),
            }),
            exists|nonce: Seq<char>, timestamp: u64|
                encode_utf8(r.url@) == #[trigger] signed_url_bytes(
                    self.spec_key_pair().spec_key(),
                    self.spec_key_pair().spec_secret(),
                    method,
                    api_url_bytes(path@, pairs_bytes(query@)),
                    nonce,
                    timestamp,
                    r.body@,
                ),
            carries_hex_signature(encode_utf8(r.url@)),
            header_views(r.headers@) == spec_headers(
                body is Some,
                r.body@.len(),
                content_type,
                self.spec_token(),
            ),
    {
        let nonce = new_nonce();
        let timestamp = now_unix_seconds();
        let r = self.prepare_request(
            method,
            path,
            query,
            content_type,
            body,
            nonce.as_str(),
            timestamp,
        );
        proof {
            assert(encode_utf8(r.url@) == signed_url_bytes(
                self.spec_key_pair().spec_key(),
                self.spec_key_pair().spec_secret(),
                method,
                api_url_bytes(path@, pairs_bytes(query@)),
                nonce@,
                timestamp,
                r.body@,
            ));
        }
        r
    }

    /// Builds the authentication exchange: one POST to the fixed auth
    /// path with the form-encoded body
    /// `grant_type=password&username=...&password=...`.
    pub fn prepare_authenticate(
        &self,
        username: &str,
        password: &str,
        nonce: &str,
        timestamp: u64,
    ) -> (r: PreparedRequest)
        ensures
            r.method == Method::Post,
            r.body@ == encode_query(auth_body_pairs(username@, password@)),
            encode_utf8(r.url@) == signed_url_bytes(
                self.spec_key_pair().spec_key(),
                self.spec_key_pair().spec_secret(),
                Method::Post,
                api_url_bytes("auth/token"@, Seq::empty()),
                nonce@,
                timestamp,
                r.body@,
            ),
            carries_hex_signature(encode_utf8(r.url@)),
            header_views(r.headers@) == spec_headers(
                true,
                r.body@.len(),
                Some(ContentType::FormUrlEncoded),
                self.spec_token(),
            ),
    {
        let mut pairs: Vec<(String, String)> = Vec::new();
        pairs.push((String::from_str("grant_type"), String::from_str("password")));
        pairs.push((String::from_str("username"), String::from_str(username)));
        pairs.push((String::from_str("password"), String::from_str(password)));
        let mut body: Vec<u8> = Vec::new();
        encode_query_append(&mut body, &pairs);
        proof {
            assert(pairs_bytes(pairs@) =~= auth_body_pairs(username@, password@));
        }
        let empty_query: Vec<(String, String)> = Vec::new();
        let r = self.prepare_request(
            Method::Post,
            "auth/token",
            &empty_query,
            Some(ContentType::FormUrlEncoded),
            Some(body),
            nonce,
            timestamp,
        );
        proof {
            assert(pairs_bytes(empty_query@) =~= Seq::<(Seq<u8>, Seq<u8>)>::empty());
        }
        r
    }

    /// Builds the authentication exchange with a fresh random nonce and
    /// the current time.
    pub fn prepare_authenticate_now(&self, username: &str, password: &str) -> (r: PreparedRequest)
        ensures
            r.method == Method::Post,
            r.body@ == encode_query(auth_body_pairs(username@, password@)),
            exists|nonce: Seq<char>, timestamp: u64|
                encode_utf8(r.url@) == #[trigger] signed_url_bytes(
                    self.spec_key_pair().spec_key(),
                    self.spec_key_pair().spec_secret(),
                    Method::Post,
                    api_url_bytes("auth/token"@, Seq::empty()),
                    nonce,
                    timestamp,
                    r.body@,
                ),
            carries_hex_signature(encode_utf8(r.url@)),
            header_views(r.headers@) == spec_headers(
                true,
                r.body@.len(),
                Some(ContentType::FormUrlEncoded),
                self.spec_token(),
            ),
    {
        let nonce = new_nonce();
        let timestamp = now_unix_seconds();
        let r = self.prepare_authenticate(username, password, nonce.as_str(), timestamp);
        proof {
            assert(encode_utf8(r.url@) == signed_url_bytes(
                self.spec_key_pair().spec_key(),
                self.spec_key_pair().spec_secret(),
                Method::Post,
                api_url_bytes("auth/token"@, Seq::empty()),
                nonce@,
                timestamp,
                r.body@,
            ));
        }
        r
    }

}

/// The body pairs of the authentication exchange, in their fixed order.
pub open spec fn auth_body_pairs(username: Seq<char>, password: Seq<char>) -> Seq<
    (Seq<u8>, Seq<u8>),
> {
    seq![
        (encode_utf8("grant_type"@), encode_utf8("password"@)),
        (encode_utf8("username"@), encode_utf8(username)),
        (encode_utf8("password"@), encode_utf8(password)),
    ]
}

/// Classifies a transported response: the body of a success-range status
/// comes back as it is; any other status becomes a server error carrying
/// the status, the body decoded leniently as text, and the signed request
/// URL.
pub fn classify_response(status: u16, body: Vec<u8>, url: String) -> (r: Result<Vec<u8>, Error>)
    ensures
        200 <= status < 300 ==> r == Ok::<Vec<u8>, Error>(body),
        !(200 <= status < 300) ==> ({
            &&& r matches Err(e)
            &&& e matches Error::Server { status: s, reason, url: u }
            &&& s == status
            &&& u@ == url@
            &&& reason@ == lossy_of(body@)
            &&& (vstd::utf8::valid_utf8(body@) ==> reason@ == vstd::utf8::decode_utf8(body@))
        }),
{
    if 200 <= status && status < 300 {
        Ok(body)
    } else {
        let reason = lossy_utf8_to_string(body.as_slice());
        Err(Error::server_error(status, reason, url))
    }
}

/// Determinism of the signature engine: for a fixed method, secret,
/// URL, body, nonce and timestamp, repeated signing yields the identical
/// URL, byte for byte.  [`Client::sign_url`] pins its result to
/// [`signed_url_bytes`], so two calls with equal inputs cannot differ.
pub proof fn lemma_signing_deterministic(
    api_key1: Seq<char>,
    secret1: Seq<char>,
    method1: Method,
    url1: Seq<u8>,
    nonce1: Seq<char>,
    timestamp1: u64,
    body1: Seq<u8>,
    api_key2: Seq<char>,
    secret2: Seq<char>,
    method2: Method,
    url2: Seq<u8>,
    nonce2: Seq<char>,
    timestamp2: u64,
    body2: Seq<u8>,
)
    requires
        api_key1 == api_key2,
        secret1 == secret2,
        method1 == method2,
        url1 == url2,
        nonce1 == nonce2,
        timestamp1 == timestamp2,
        body1 == body2,
    ensures
        signed_url_bytes(api_key1, secret1, method1, url1, nonce1, timestamp1, body1)
            == signed_url_bytes(api_key2, secret2, method2, url2, nonce2, timestamp2, body2),
{
}

/// Sensitivity of the signing input: the method name, the URL and the
/// body can be read back off the signing input, so inputs built from a
/// different method, URL or body are different byte strings.  (Whether
/// the keyed hash then differs is a property of HMAC-SHA256 itself and is
/// not stated here.)  Method names and URLs never contain a null byte,
/// which is what the separators rely on.
pub proof fn lemma_signing_input_injective(
    m1: Seq<u8>,
    u1: Seq<u8>,
    b1: Seq<u8>,
    m2: Seq<u8>,
    u2: Seq<u8>,
    b2: Seq<u8>,
)
    requires
        !m1.contains(0u8),
        !m2.contains(0u8),
        !u1.contains(0u8),
        !u2.contains(0u8),
        signing_input(m1, u1, b1) == signing_input(m2, u2, b2),
    ensures
        m1 == m2,
        u1 == u2,
        b1 == b2,
{
    let s1 = signing_input(m1, u1, b1);
    let s2 = signing_input(m2, u2, b2);
    assert(s1.len() == m1.len() + 1 + u1.len() + 1 + b1.len());
    assert(s2.len() == m2.len() + 1 + u2.len() + 1 + b2.len());
    assert(forall|j: int| 0 <= j < m1.len() ==> s1[j] == m1[j] && m1[j] != 0u8);
    assert(forall|j: int| 0 <= j < m2.len() ==> s2[j] == m2[j] && m2[j] != 0u8);
    assert(s1[m1.len() as int] == 0u8);
    assert(s2[m2.len() as int] == 0u8);
    if m1.len() < m2.len() {
        assert(s2[m1.len() as int] == m2[m1.len() as int]);
        assert(false);
    }
    if m2.len() < m1.len() {
        assert(s1[m2.len() as int] == m1[m2.len() as int]);
        assert(false);
    }
    assert(m1 =~= m2);
    let o = m1.len() + 1;
    assert(forall|j: int| 0 <= j < u1.len() ==> s1[o + j] == u1[j] && u1[j] != 0u8);
    assert(forall|j: int| 0 <= j < u2.len() ==> s2[o + j] == u2[j] && u2[j] != 0u8);
    assert(s1[(o + u1.len()) as int] == 0u8);
    assert(s2[(o + u2.len()) as int] == 0u8);
    if u1.len() < u2.len() {
        assert(s2[(o + u1.len()) as int] == u2[u1.len() as int]);
        assert(false);
    }
    if u2.len() < u1.len() {
        assert(s1[(o + u2.len()) as int] == u1[u2.len() as int]);
        assert(false);
    }
    assert(u1 =~= u2);
    assert(b1.len() == b2.len());
    let p = o + u1.len() + 1;
    assert(forall|j: int| 0 <= j < b1.len() ==> s1[p + j] == b1[j] && s2[p + j] == b2[j]);
    assert(b1 =~= b2);
}

/// The four signing query parameters stand at the very end of the signed
/// URL, after every caller-supplied query parameter, in the fixed order
/// `apikey`, `nonce`, `timestamp`, `signature`.
pub proof fn lemma_signing_params_order(
    api_key: Seq<char>,
    secret: Seq<char>,
    method: Method,
    url: Seq<u8>,
    nonce: Seq<char>,
    timestamp: u64,
    body: Seq<u8>,
)
    ensures
        signed_url_bytes(api_key, secret, method, url, nonce, timestamp, body) =~= url + query_sep(
            url,
        ) + qs_pair(encode_utf8("apikey"@), encode_utf8(api_key)) + seq![AMP] + qs_pair(
            encode_utf8("nonce"@),
            encode_utf8(nonce),
        ) + seq![AMP] + qs_pair(encode_utf8("timestamp"@), dec_of(timestamp as nat)) + seq![AMP]
            + qs_pair(
            encode_utf8("signature"@),
            signature_hex(
                encode_utf8(secret),
                encode_utf8(method.spec_name()),
                url_with_signing_params(api_key, url, nonce, timestamp),
                body,
            ),
        ),
{
    let ps = signing_pairs(api_key, nonce, timestamp);
    let rest1 = seq![ps[1], ps[2]];
    let rest2 = seq![ps[2]];
    assert(ps.drop_first() =~= rest1);
    assert(rest1.drop_first() =~= rest2);
    assert(encode_query(rest2) == qs_pair(ps[2].0, ps[2].1));
    assert(encode_query(rest1) == qs_pair(ps[1].0, ps[1].1) + seq![AMP] + encode_query(rest2));
    assert(encode_query(ps) == qs_pair(ps[0].0, ps[0].1) + seq![AMP] + encode_query(rest1));
}

/// The `Authorization` header is carried exactly when a token is held:
/// without one, no header by that name is assembled; with one, it is the
/// last header and carries `Bearer` and the access token.
pub proof fn lemma_authorization_header(
    has_body: bool,
    body_len: nat,
    content_type: Option<ContentType>,
    token: Option<AccessToken>,
)
    ensures
        token is None ==> forall|i: int|
            0 <= i < spec_headers(has_body, body_len, content_type, token).len()
                ==> #[trigger] spec_headers(has_body, body_len, content_type, token)[i].0
                != "Authorization"@,
        token matches Some(t) ==> spec_headers(has_body, body_len, content_type, token).last() == (
            "Authorization"@,
            "Bearer "@ + t.access_token@,
        ),
{
    broadcast use vstd::string::group_string_axioms;

    reveal_strlit("Authorization");
    reveal_strlit("Accept-Encoding");
    reveal_strlit("Content-Length");
    reveal_strlit("Content-Type");
    assert("Authorization"@.len() == 13);
    assert("Accept-Encoding"@.len() == 15);
    assert("Content-Length"@.len() == 14);
    assert("Content-Type"@.len() == 12);
}

/// True iff `target` occurs in `bytes`.
fn contains_byte(bytes: &[u8], target: u8) -> (r: bool)
    ensures
        r == bytes@.contains(target),
{
    let n = bytes.len();
    for i in 0..n
        invariant
            n == bytes@.len(),
            forall|j: int| 0 <= j < i ==> bytes@[j] != target,
    {
        if bytes[i] == target {
            return true;
        }
    }
    false
}

/// Everything a signed URL appends to the caller's URL is ASCII, so a
/// signed URL built from valid UTF-8 is valid UTF-8.
pub proof fn lemma_signed_url_ascii_tail(
    api_key: Seq<char>,
    secret: Seq<char>,
    method: Method,
    url: Seq<u8>,
    nonce: Seq<char>,
    timestamp: u64,
    body: Seq<u8>,
)
    requires
        vstd::utf8::valid_utf8(url),
    ensures
        vstd::utf8::valid_utf8(
            signed_url_bytes(api_key, secret, method, url, nonce, timestamp, body),
        ),
{
    broadcast use vstd::utf8::group_utf8_lib;

    let signed = signed_url_bytes(api_key, secret, method, url, nonce, timestamp, body);
    let tail = signed.subrange(url.len() as int, signed.len() as int);
    assert(signed.subrange(0, url.len() as int) =~= url);
    crate::encode::lemma_encode_query_ascii(signing_pairs(api_key, nonce, timestamp));
    crate::encode::lemma_qs_encode_ascii(encode_utf8("signature"@));
    let with_params = url_with_signing_params(api_key, url, nonce, timestamp);
    crate::encode::lemma_qs_encode_ascii(
        signature_hex(encode_utf8(secret), encode_utf8(method.spec_name()), with_params, body),
    );
    assert(all_ascii(tail)) by {
        assert forall|i: int| 0 <= i < tail.len() implies tail[i] < 0x80 by {
            assert(tail[i] == signed[url.len() + i]);
        }
    }
    lemma_ascii_bytes_utf8(tail);
    assert(signed =~= url + tail);
}

} // verus!
