use crypto::mac::Mac;
use letterboxd::client::classify_response;
use letterboxd::{AccessToken, ApiKeyPair, Client, ContentType, Error, Method};

fn client() -> Client {
    Client::new(ApiKeyPair::new("key".to_string(), "secret".to_string()))
}

fn signature_of(url: &str) -> &str {
    let at = url.rfind("signature=").expect("no signature parameter");
    &url[at + "signature=".len()..]
}

#[test]
fn signature_deterministic_for_fixed_inputs() {
    let c = client();
    let url = "https://api.letterboxd.com/api/v0/films";
    let a = c.sign_url(url, &Method::Get, b"", "nonce-1", 1000);
    let b = c.sign_url(url, &Method::Get, b"", "nonce-1", 1000);
    assert_eq!(a, b);
}

#[test]
fn signature_sensitive_to_each_input() {
    let c = client();
    let url = "https://api.letterboxd.com/api/v0/films";
    let base = c.sign_url(url, &Method::Get, b"", "n1", 42);
    let other_method = c.sign_url(url, &Method::Post, b"", "n1", 42);
    let other_url = c.sign_url("https://api.letterboxd.com/api/v0/film/x", &Method::Get, b"", "n1", 42);
    let other_body = c.sign_url(url, &Method::Get, b"x", "n1", 42);
    let other_secret = Client::new(ApiKeyPair::new("key".to_string(), "secret2".to_string()))
        .sign_url(url, &Method::Get, b"", "n1", 42);
    assert_ne!(signature_of(&base), signature_of(&other_method));
    assert_ne!(signature_of(&base), signature_of(&other_url));
    assert_ne!(signature_of(&base), signature_of(&other_body));
    assert_ne!(signature_of(&base), signature_of(&other_secret));
}

#[test]
fn signature_matches_reference_hmac() {
    let c = client();
    let signed = c.sign_url("https://api.letterboxd.com/api/v0/films", &Method::Get, b"", "n1", 42);
    let with_params = "https://api.letterboxd.com/api/v0/films?apikey=key&nonce=n1&timestamp=42";
    let mut mac = crypto::hmac::Hmac::new(crypto::sha2::Sha256::new(), b"secret" as &[u8]);
    mac.input(b"GET");
    mac.input(&[0]);
    mac.input(with_params.as_bytes());
    mac.input(&[0]);
    mac.input(b"");
    let expected_sig = hex::encode(mac.result().code());
    assert_eq!(signed, format!("{}&signature={}", with_params, expected_sig));
}

#[test]
fn signing_params_last_and_in_fixed_order() {
    let c = client();
    let query = vec![("a".to_string(), "b".to_string())];
    let req = c.prepare_request(Method::Get, "films", &query, None, None, "n1", 42);
    assert!(req.url.starts_with(
        "https://api.letterboxd.com/api/v0/films?a=b&apikey=key&nonce=n1&timestamp=42&signature="
    ));
}

#[test]
fn sign_url_separator_follows_existing_query() {
    let c = client();
    let bare = c.sign_url("https://example.test/p", &Method::Get, b"", "n", 7);
    assert!(bare.starts_with("https://example.test/p?apikey="));
    let with_query = c.sign_url("https://example.test/p?x=1", &Method::Get, b"", "n", 7);
    assert!(with_query.starts_with("https://example.test/p?x=1&apikey="));
    let trailing = c.sign_url("https://example.test/p?", &Method::Get, b"", "n", 7);
    assert!(trailing.starts_with("https://example.test/p?apikey="));
}

#[test]
fn fresh_nonce_and_time_give_distinct_urls() {
    let c = client();
    let empty: Vec<(String, String)> = Vec::new();
    let a = c.prepare_request_now(Method::Get, "films", &empty, None, None);
    let b = c.prepare_request_now(Method::Get, "films", &empty, None, None);
    assert_ne!(a.url, b.url);
}

#[test]
fn headers_follow_token_state() {
    let mut c = client();
    let empty: Vec<(String, String)> = Vec::new();
    let before = c.prepare_request(Method::Get, "films", &empty, None, None, "n", 1);
    assert!(before.headers.iter().all(|h| h.0 != "Authorization"));
    c.set_token(Some(AccessToken::new(
        "tok".to_string(),
        "ref".to_string(),
        "bearer".to_string(),
        3600,
    )));
    assert!(c.is_authenticated());
    let during = c.prepare_request(Method::Get, "films", &empty, None, None, "n", 1);
    assert_eq!(
        during.headers.last().expect("headers empty"),
        &("Authorization".to_string(), "Bearer tok".to_string())
    );
    c.set_token(None);
    assert!(!c.is_authenticated());
    let after = c.prepare_request(Method::Get, "films", &empty, None, None, "n", 1);
    assert!(after.headers.iter().all(|h| h.0 != "Authorization"));
}

#[test]
fn standard_headers_present() {
    let c = client();
    let empty: Vec<(String, String)> = Vec::new();
    let req = c.prepare_request(
        Method::Post,
        "films",
        &empty,
        Some(ContentType::Json),
        Some(b"hello".to_vec()),
        "n",
        1,
    );
    assert_eq!(req.headers[0], ("Accept-Encoding".to_string(), "application/json".to_string()));
    assert_eq!(req.headers[1], ("Content-Length".to_string(), "5".to_string()));
    assert_eq!(req.headers[2], ("Content-Type".to_string(), "application/json".to_string()));
    assert_eq!(req.body, b"hello".to_vec());
}

#[test]
fn credentials_from_values_match_explicit_construction() {
    let from_values =
        ApiKeyPair::from_values(Some("abc".to_string()), Some("def".to_string())).expect("both set");
    let explicit = ApiKeyPair::new("abc".to_string(), "def".to_string());
    assert_eq!(from_values.key(), explicit.key());
    let a = Client::new(from_values).sign_url("https://x.test/", &Method::Get, b"", "n", 1);
    let b = Client::new(explicit).sign_url("https://x.test/", &Method::Get, b"", "n", 1);
    assert_eq!(a, b);
}

#[test]
fn missing_credential_values_yield_unconfigured() {
    assert!(ApiKeyPair::from_values(None, Some("def".to_string())).is_none());
    assert!(ApiKeyPair::from_values(Some("abc".to_string()), None).is_none());
    assert!(ApiKeyPair::from_values(None, None).is_none());
}

#[test]
fn auth_request_shape() {
    let c = client();
    let req = c.prepare_authenticate("user", "pass", "n1", 5);
    assert_eq!(req.method, Method::Post);
    assert_eq!(req.body, b"grant_type=password&username=user&password=pass".to_vec());
    assert!(req.url.starts_with("https://api.letterboxd.com/api/v0/auth/token?apikey=key"));
    assert!(req
        .headers
        .contains(&("Content-Type".to_string(), "application/x-www-form-urlencoded".to_string())));
}

#[test]
fn auth_body_is_form_encoded() {
    let c = client();
    let req = c.prepare_authenticate("u ser", "p&s=1", "n1", 5);
    assert_eq!(req.body, b"grant_type=password&username=u+ser&password=p%26s%3D1".to_vec());
}

#[test]
fn success_status_passes_body_through() {
    let r = classify_response(200, b"payload".to_vec(), "https://u.test/".to_string());
    assert_eq!(r.unwrap(), b"payload".to_vec());
    let r204 = classify_response(204, Vec::new(), "https://u.test/".to_string());
    assert!(r204.is_ok());
}

#[test]
fn error_status_yields_server_error_with_literal_text() {
    let body = b"{\"message\":\"invalid signature\"}".to_vec();
    let r = classify_response(401, body, "https://u.test/signed".to_string());
    match r {
        Err(Error::Server { status, reason, url }) => {
            assert_eq!(status, 401);
            assert_eq!(reason, "{\"message\":\"invalid signature\"}");
            assert!(reason.contains("invalid signature"));
            assert_eq!(url, "https://u.test/signed");
        }
        _ => panic!("expected a server error"),
    }
}

#[test]
fn decoded_token_installs_through_set_token() {
    let mut c = client();
    let body =
        b"{\"access_token\":\"abc\",\"refresh_token\":\"r1\",\"token_type\":\"bearer\",\"expires_in\":3600}";
    let token = AccessToken::from_json(body).expect("well-formed token body");
    c.set_token(Some(token));
    let held = c.token().expect("token set");
    assert_eq!(held.access_token, "abc");
    assert_eq!(held.refresh_token, "r1");
    assert_eq!(held.token_type, "bearer");
    assert_eq!(held.expires_in, 3600);
}

#[test]
fn incomplete_token_body_is_a_deserialization_error() {
    let r = AccessToken::from_json(b"{\"access_token\":\"abc\"}");
    assert!(matches!(r, Err(Error::Deserialization { .. })));
}

#[test]
fn no_content_type_header_without_a_body() {
    let c = client();
    let empty: Vec<(String, String)> = Vec::new();
    let req = c.prepare_request(
        Method::Get,
        "films",
        &empty,
        Some(ContentType::Json),
        None,
        "n",
        1,
    );
    assert!(req.headers.iter().all(|h| h.0 != "Content-Type"));
    assert!(req.headers.contains(&("Content-Length".to_string(), "0".to_string())));
}
