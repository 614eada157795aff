use gt::oauth_login::{
    authorize_url, callback_code, code_from_target, code_value, is_url_decodable, provider_label,
    provider_pick, redirect_url, request_target, urldecode, urlencode, ProviderPick,
};

#[test]
fn code_parsed_from_target() {
    assert_eq!(
        code_from_target("/callback?code=abc123").as_deref(),
        Some("abc123")
    );
    assert_eq!(
        code_from_target("/callback?state=x&code=zzz&y=1").as_deref(),
        Some("zzz")
    );
    assert_eq!(code_from_target("/callback").as_deref(), None);
    assert_eq!(code_from_target("/favicon.ico").as_deref(), None);
}

#[test]
fn code_is_url_decoded() {
    assert_eq!(
        code_from_target("/cb?code=a%2Bb%3Dc").as_deref(),
        Some("a+b=c")
    );
}

#[test]
fn urlencode_roundtrips_loopback() {
    let u = "http://127.0.0.1:8976/callback";
    assert_eq!(urldecode(&urlencode(u)), u);
    assert!(urlencode(u).contains("%3A") && urlencode(u).contains("%2F"));
}

#[test]
fn urlencode_exact_values() {
    assert_eq!(urlencode("a b/é~"), "a%20b%2F%C3%A9~");
    assert_eq!(urlencode(""), "");
    assert_eq!(urlencode("AZaz09-_.~"), "AZaz09-_.~");
}

#[test]
fn urldecode_plus_and_bad_escapes() {
    assert_eq!(urldecode("a+b"), "a b");
    assert_eq!(urldecode("%zz"), "%zz");
    assert_eq!(urldecode("%4"), "%4");
    assert_eq!(urldecode("%+5"), "% 5");
    assert_eq!(urldecode("%+F"), "% F");
    assert_eq!(urldecode("%-5"), "%-5");
    assert_eq!(urldecode("%c3%a9"), "é");
    assert_eq!(urldecode("%ff"), "\u{fffd}");
}

#[test]
fn roundtrip_non_ascii() {
    for s in ["é è & = ? %", "日本語", "", "a+b"] {
        assert_eq!(urldecode(&urlencode(s)), s);
    }
}

#[test]
fn decodable_detects_split_char() {
    assert!(is_url_decodable("abc%41"));
    assert!(!is_url_decodable("%aéz"));
    assert!(is_url_decodable("%é"));
}

#[test]
fn code_value_first_match_and_query_bounds() {
    assert_eq!(code_value("/cb?code=1&code=2").as_deref(), Some("1"));
    assert_eq!(code_value("/cb?x=1?code=2").as_deref(), None);
    assert_eq!(code_value("/cb?codex=1&code=").as_deref(), Some(""));
    assert_eq!(code_value("/cb?code").as_deref(), None);
    assert_eq!(code_value("/cb?a=b=c&code=x=y").as_deref(), Some("x=y"));
}

#[test]
fn request_target_second_word_of_first_line() {
    assert_eq!(
        request_target("GET /callback?code=abc HTTP/1.1\r\nHost: x\r\n\r\n"),
        "/callback?code=abc"
    );
    assert_eq!(request_target("GET"), "");
    assert_eq!(request_target(""), "");
    assert_eq!(request_target("  GET   /a  \n/b"), "/a");
    assert_eq!(
        callback_code("GET /callback?code=a%2Bb HTTP/1.1\r\n").as_deref(),
        Some("a+b")
    );
    assert_eq!(callback_code("GET /favicon.ico HTTP/1.1\r\n"), None);
}

#[test]
fn authorize_url_embeds_encoded_redirect() {
    assert_eq!(redirect_url(8976), "http://127.0.0.1:8976/callback");
    assert_eq!(redirect_url(0), "http://127.0.0.1:0/callback");
    assert_eq!(
        authorize_url("https://h", "github", 65535),
        "https://h/auth/providers/github/authorize?cli_redirect=http%3A%2F%2F127.0.0.1%3A65535%2Fcallback"
    );
}

#[test]
fn provider_choice_and_labels() {
    assert_eq!(provider_pick(0), ProviderPick::NoProviders);
    assert_eq!(provider_pick(1), ProviderPick::Only);
    assert_eq!(provider_pick(3), ProviderPick::Menu);
    assert_eq!(provider_label("gh", ""), "gh");
    assert_eq!(provider_label("gh", "GitHub"), "GitHub  (gh)");
}
