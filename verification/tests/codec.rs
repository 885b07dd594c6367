use letterboxd::client::classify_response;
use letterboxd::defs::{Cursor, IncludeFriends};
use letterboxd::encode::{encode_query_append, hex_encode, parse_query_bytes, u64_to_dec};
use letterboxd::film::{FilmRequestSort, FilmStatus, FilmsRequest, Genre};
use letterboxd::json::{parse_json_object, parse_u64_bytes, JsonValue};
use letterboxd::{AccessToken, Error};

#[test]
fn success_body_deserializes_into_genre() {
    let body = b"{\"id\":\"42\",\"name\":\"Example\"}".to_vec();
    let bytes = classify_response(200, body, "https://u.test/".to_string()).expect("2xx");
    let genre = Genre::from_json(&bytes).expect("well-formed genre body");
    assert_eq!(genre.id, "42");
    assert_eq!(genre.name, "Example");
}

#[test]
fn malformed_genre_body_is_a_deserialization_error() {
    assert!(matches!(Genre::from_json(b"[1,2]"), Err(Error::Deserialization { .. })));
    assert!(matches!(Genre::from_json(b"{\"id\":\"42\"}"), Err(Error::Deserialization { .. })));
    assert!(matches!(Genre::from_json(b""), Err(Error::Deserialization { .. })));
}

#[test]
fn token_body_deserializes_field_by_field() {
    let body =
        b"{\"access_token\":\"a1\",\"refresh_token\":\"r1\",\"token_type\":\"bearer\",\"expires_in\":7}";
    let token = AccessToken::from_json(body).expect("well-formed token body");
    assert_eq!(
        token,
        AccessToken::new("a1".to_string(), "r1".to_string(), "bearer".to_string(), 7)
    );
}

#[test]
fn flat_json_parser_reads_members_in_order() {
    let members = parse_json_object(b"{\"a\":\"x\",\"b\":12}").expect("well-formed object");
    assert_eq!(members.len(), 2);
    assert_eq!(members[0].0, b"a".to_vec());
    assert_eq!(members[0].1, JsonValue::Str(b"x".to_vec()));
    assert_eq!(members[1].0, b"b".to_vec());
    assert_eq!(members[1].1, JsonValue::Num(12));
    assert_eq!(parse_json_object(b"{}").expect("empty object").len(), 0);
}

#[test]
fn flat_json_parser_rejects_malformed_input() {
    assert!(parse_json_object(b"").is_none());
    assert!(parse_json_object(b"{\"a\":\"x\"").is_none());
    assert!(parse_json_object(b"{\"a\" :\"x\"}").is_none());
    assert!(parse_json_object(b"{\"a\":\"x\"} ").is_none());
    assert!(parse_json_object(b"{\"a\":\"b\\\"c\"}").is_none());
}

#[test]
fn number_parsing_detects_overflow() {
    assert_eq!(parse_u64_bytes(b"42"), Some(42));
    assert_eq!(parse_u64_bytes(b"0"), Some(0));
    assert_eq!(parse_u64_bytes(b"18446744073709551615"), Some(u64::MAX));
    assert_eq!(parse_u64_bytes(b"18446744073709551616"), None);
    assert_eq!(parse_u64_bytes(b""), None);
    assert_eq!(parse_u64_bytes(b"12a"), None);
}

#[test]
fn hex_encoding_matches_reference() {
    let bytes = [0u8, 1, 0xab, 0xff, 0x10];
    let ours = String::from_utf8(hex_encode(&bytes)).expect("hex is ASCII");
    assert_eq!(ours, hex::encode(bytes));
}

#[test]
fn decimal_rendering_is_exact() {
    assert_eq!(u64_to_dec(0), b"0".to_vec());
    assert_eq!(u64_to_dec(42), b"42".to_vec());
    assert_eq!(u64_to_dec(u64::MAX), b"18446744073709551615".to_vec());
}

fn sample_request() -> FilmsRequest {
    let mut req = FilmsRequest::default();
    req.cursor = Some(Cursor("c1".to_string()));
    req.per_page = Some(20);
    req.sort = Some(FilmRequestSort::FilmName);
    req.genre = Some("horror x".to_string());
    req.decade = Some(1990);
    req.where_film_status = vec![FilmStatus::Watched, FilmStatus::NotReleased];
    req.include_friends = Some(IncludeFriends::Exclude);
    req
}

#[test]
fn films_request_serializes_in_fixed_order() {
    let pairs = sample_request().to_query_pairs();
    let mut wire: Vec<u8> = Vec::new();
    encode_query_append(&mut wire, &pairs);
    let expected = "cursor=c1&perPage=20&sort=FilmName&genre=horror+x&decade=1990\
                    &where=Watched&where=NotReleased&includeFriends=None";
    assert_eq!(String::from_utf8(wire).expect("query strings are ASCII"), expected);
}

#[test]
fn films_request_round_trips_through_the_query_string() {
    let req = sample_request();
    let pairs = req.to_query_pairs();
    let mut wire: Vec<u8> = Vec::new();
    encode_query_append(&mut wire, &pairs);
    let parsed = parse_query_bytes(&wire).expect("own encoding parses");
    let mut reparsed: Vec<(String, String)> = Vec::new();
    for (k, v) in parsed {
        reparsed.push((
            String::from_utf8(k).expect("keys are UTF-8"),
            String::from_utf8(v).expect("values are UTF-8"),
        ));
    }
    assert_eq!(reparsed, pairs);
    let recovered = FilmsRequest::from_query_pairs(&reparsed).expect("own pairs read back");
    assert_eq!(recovered, req);
}

#[test]
fn unset_field_stays_distinct_from_default_value() {
    let unset = FilmsRequest::default();
    let mut set_to_default = FilmsRequest::default();
    set_to_default.per_page = Some(20);
    let unset_pairs = unset.to_query_pairs();
    let set_pairs = set_to_default.to_query_pairs();
    assert!(unset_pairs.is_empty());
    assert_eq!(set_pairs, vec![("perPage".to_string(), "20".to_string())]);
    let unset_back = FilmsRequest::from_query_pairs(&unset_pairs).expect("empty reads back");
    let set_back = FilmsRequest::from_query_pairs(&set_pairs).expect("one pair reads back");
    assert_eq!(unset_back, unset);
    assert_eq!(set_back, set_to_default);
    assert_ne!(unset_back, set_back);
}

#[test]
fn query_parsing_rejects_malformed_strings() {
    assert!(parse_query_bytes(b"novalue").is_none());
    assert!(parse_query_bytes(b"a=%zz").is_none());
    assert!(parse_query_bytes(b"a=1&").is_none());
    assert_eq!(parse_query_bytes(b"").expect("empty query"), Vec::new());
}

#[test]
fn query_decoding_undoes_escapes() {
    let parsed = parse_query_bytes(b"a+b=c%26d%3D*.").expect("escapes decode");
    assert_eq!(parsed, vec![(b"a b".to_vec(), b"c&d=*.".to_vec())]);
}

#[test]
fn filter_names_read_back() {
    assert_eq!(IncludeFriends::from_str("None"), Some(IncludeFriends::Exclude));
    assert_eq!(IncludeFriends::from_str("Only"), Some(IncludeFriends::Only));
    assert_eq!(IncludeFriends::from_str("All"), Some(IncludeFriends::All));
    assert_eq!(IncludeFriends::from_str("none"), None);
    assert_eq!(FilmStatus::from_str("NotFeatureLength"), Some(FilmStatus::NotFeatureLength));
    assert_eq!(FilmRequestSort::from_str(FilmRequestSort::FilmPopularityWithFriendsThisYear.as_str()),
        Some(FilmRequestSort::FilmPopularityWithFriendsThisYear));
}
