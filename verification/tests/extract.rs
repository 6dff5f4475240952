use filereq::resolve::{find_service_base, find_share_id, resolve_share, url_query, ResolutionCause};

#[test]
fn share_id_between_other_params() {
    let q = "a=1&s=AbCd1234&b=2";
    assert_eq!(find_share_id(q).as_deref(), Some("AbCd1234"));
}

#[test]
fn share_id_first_param() {
    assert_eq!(find_share_id("s=xyz_9&rest=1").as_deref(), Some("xyz_9"));
}

#[test]
fn share_id_last_param() {
    assert_eq!(find_share_id("rest=1&s=xyz").as_deref(), Some("xyz"));
}

#[test]
fn share_id_order_does_not_matter() {
    assert_eq!(find_share_id("b=2&s=AbCd1234&a=1").as_deref(), Some("AbCd1234"));
    assert_eq!(find_share_id("s=AbCd1234&a=1&b=2").as_deref(), Some("AbCd1234"));
}

#[test]
fn share_id_takes_first_s_equals_run() {
    // the first position matching `s=` followed by a word character wins,
    // even when it is the tail of another parameter's name
    assert_eq!(find_share_id("keys=foo&s=bar").as_deref(), Some("foo"));
}

#[test]
fn share_id_stops_at_non_word() {
    assert_eq!(find_share_id("s=ab-cd").as_deref(), Some("ab"));
}

#[test]
fn share_id_missing() {
    assert_eq!(find_share_id("a=1&b=2"), None);
    assert_eq!(find_share_id(""), None);
    assert_eq!(find_share_id("s="), None);
    assert_eq!(find_share_id("s=&a=1"), None);
}

#[test]
fn service_base_of_plain_url() {
    let u = "scheme://host.tld/rest/of/path";
    assert_eq!(find_service_base(u).as_deref(), Some("scheme://host.tld"));
}

#[test]
fn service_base_takes_longest_prefix() {
    // a later dot-word segment before a `/` extends the base
    assert_eq!(find_service_base("https://a.b/c.d/e").as_deref(), Some("https://a.b/c.d"));
}

#[test]
fn service_base_ignores_dotless_segments() {
    let u = "https://host.sharepoint.com/sub/view.aspx?s=AbCd1234";
    assert_eq!(find_service_base(u).as_deref(), Some("https://host.sharepoint.com"));
}

#[test]
fn service_base_missing() {
    assert_eq!(find_service_base("nohost"), None);
    assert_eq!(find_service_base("https://hosttld/path"), None);
    assert_eq!(find_service_base("host.tld"), None); // no `/` after the dot-word
}

#[test]
fn query_after_question_mark() {
    assert_eq!(url_query("http://h.t/p?x=1&y=2").as_deref(), Some("x=1&y=2"));
}

#[test]
fn query_stops_at_fragment() {
    assert_eq!(url_query("http://h.t/p?x=1#frag").as_deref(), Some("x=1"));
}

#[test]
fn query_missing() {
    assert_eq!(url_query("http://h.t/p"), None);
}

#[test]
fn resolve_share_full() {
    let ctx = resolve_share("https://host.tld/personal/u/view.aspx?s=AbCd1234").unwrap();
    assert_eq!(ctx.share_id, "AbCd1234");
    assert_eq!(ctx.service_base, "https://host.tld");
}

#[test]
fn resolve_share_no_query() {
    let e = resolve_share("https://host.tld/page").unwrap_err();
    assert_eq!(e, ResolutionCause::NoQuery);
}

#[test]
fn resolve_share_no_id() {
    let e = resolve_share("https://host.tld/page?a=1").unwrap_err();
    assert_eq!(e, ResolutionCause::NoShareId);
}

#[test]
fn resolve_share_no_base() {
    let e = resolve_share("hosttld?s=abc").unwrap_err();
    assert_eq!(e, ResolutionCause::NoServiceBase);
}
