use filereq::encode::{
    anonymous_signin_body, auth_header_value, content_range_value, json_escape,
    name_exchange_body, permission_url, session_request_body, session_url, u64_dec,
};
use filereq::session::find_upload_url;
use filereq::token::{parse_token_body, TokenCause};

#[test]
fn token_from_exact_body() {
    assert_eq!(parse_token_body("{\"token\":\"abc123\"}").unwrap(), "abc123");
}

#[test]
fn token_missing_from_empty_object() {
    assert_eq!(parse_token_body("{}").unwrap_err(), TokenCause::MissingTokenField);
}

#[test]
fn token_missing_among_other_members() {
    assert_eq!(
        parse_token_body("{\"a\":\"b\",\"c\":\"d\"}").unwrap_err(),
        TokenCause::MissingTokenField
    );
}

#[test]
fn token_with_whitespace() {
    assert_eq!(parse_token_body(" { \"token\" : \"abc\" , \"x\" : \"y\" } ").unwrap(), "abc");
}

#[test]
fn token_last_occurrence_wins() {
    assert_eq!(parse_token_body("{\"token\":\"a\",\"token\":\"b\"}").unwrap(), "b");
}

#[test]
fn token_escapes_decoded() {
    assert_eq!(parse_token_body("{\"token\":\"a\\\"b\\\\c\\n\"}").unwrap(), "a\"b\\c\n");
}

#[test]
fn token_body_not_an_object() {
    assert_eq!(parse_token_body("garbage").unwrap_err(), TokenCause::MalformedBody);
    assert_eq!(parse_token_body("").unwrap_err(), TokenCause::MalformedBody);
    assert_eq!(parse_token_body("[]").unwrap_err(), TokenCause::MalformedBody);
}

#[test]
fn token_body_unterminated() {
    assert_eq!(parse_token_body("{\"token\":\"x\"").unwrap_err(), TokenCause::MalformedBody);
    assert_eq!(parse_token_body("{\"token\":\"x").unwrap_err(), TokenCause::MalformedBody);
}

#[test]
fn token_body_non_string_value() {
    assert_eq!(parse_token_body("{\"token\":5}").unwrap_err(), TokenCause::MalformedBody);
    assert_eq!(
        parse_token_body("{\"token\":{\"a\":\"b\"}}").unwrap_err(),
        TokenCause::MalformedBody
    );
}

#[test]
fn token_body_trailing_garbage() {
    assert_eq!(parse_token_body("{\"token\":\"x\"}tail").unwrap_err(), TokenCause::MalformedBody);
}

#[test]
fn token_body_unicode_escape_rejected() {
    assert_eq!(
        parse_token_body("{\"token\":\"a\\u0041\"}").unwrap_err(),
        TokenCause::MalformedBody
    );
}

#[test]
fn upload_url_from_malformed_body() {
    let body = "garbage{\"uploadUrl\":\"https://x/y\"}moregarbage";
    assert_eq!(find_upload_url(body).as_deref(), Some("https://x/y"));
}

#[test]
fn upload_url_from_well_formed_body() {
    let body = "{\"uploadUrl\":\"https://upload.example/abc\"}";
    assert_eq!(find_upload_url(body).as_deref(), Some("https://upload.example/abc"));
}

#[test]
fn upload_url_stops_at_next_quote() {
    let body = "{\"uploadUrl\":\"https://u\",\"other\":\"v\"}";
    assert_eq!(find_upload_url(body).as_deref(), Some("https://u"));
}

#[test]
fn upload_url_keeps_escaped_quote() {
    let body = "{\"uploadUrl\":\"a\\\"b\"}";
    assert_eq!(find_upload_url(body).as_deref(), Some("a\\\"b"));
}

#[test]
fn upload_url_missing() {
    assert_eq!(find_upload_url("{\"other\":\"v\"}"), None);
    assert_eq!(find_upload_url(""), None);
}

#[test]
fn upload_url_unterminated() {
    assert_eq!(find_upload_url("{\"uploadUrl\":\"https://x"), None);
}

#[test]
fn content_range_smallest_file() {
    assert_eq!(content_range_value(1), "bytes 0-0/1");
}

#[test]
fn content_range_larger_file() {
    assert_eq!(content_range_value(1048576), "bytes 0-1048575/1048576");
    assert_eq!(content_range_value(42), "bytes 0-41/42");
}

#[test]
fn decimal_rendering() {
    assert_eq!(u64_dec(0), "0");
    assert_eq!(u64_dec(7), "7");
    assert_eq!(u64_dec(1234567890), "1234567890");
    assert_eq!(u64_dec(u64::MAX), "18446744073709551615");
}

#[test]
fn exchange_body_plain_names() {
    assert_eq!(
        name_exchange_body("Ann", "Lee"),
        "{\"givenName\":\"Ann\",\"familyName\":\"Lee\"}"
    );
}

#[test]
fn exchange_body_escapes_names() {
    assert_eq!(
        name_exchange_body("A\"n", "L\\e"),
        "{\"givenName\":\"A\\\"n\",\"familyName\":\"L\\\\e\"}"
    );
}

#[test]
fn json_escape_controls() {
    assert_eq!(json_escape("a\nb\tc"), "a\\nb\\tc");
    assert_eq!(json_escape("\u{1}"), "\\u0001");
    assert_eq!(json_escape("\u{1f}"), "\\u001f");
    assert_eq!(json_escape("plain"), "plain");
}

#[test]
fn authorization_uses_badger_scheme() {
    assert_eq!(auth_header_value("TOK"), "badger TOK");
}

#[test]
fn permission_url_shape() {
    assert_eq!(
        permission_url("https://host.tld", "AbCd"),
        "https://host.tld/_api/v2.0/shares/u!AbCd/permission"
    );
}

#[test]
fn session_url_shape() {
    assert_eq!(
        session_url("https://host.tld", "AbCd", "report.txt"),
        "https://host.tld/_api/v2.1/shares/u!AbCd/driveItem:/report.txt:/oneDrive.createUploadSession"
    );
}

#[test]
fn fixed_bodies() {
    assert_eq!(anonymous_signin_body(), "{\"appid\":\"FileRequestAnonymousUserSignInOnODB\"}");
    assert_eq!(session_request_body(), "{\"item\":{\"@name.conflictBehavior\":\"rename\"}}");
}
