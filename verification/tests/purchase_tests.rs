use fe_monitor::purchase::{
    build_cookie_header, clearance_preview, cookies_json, find_cookie, generate_unique_filename,
    merge_cookies, parse_set_cookie, redirect_history_json, Cookie,
};

fn cookie(name: &str, value: &str) -> Cookie {
    Cookie { name: String::from(name), value: String::from(value), domain: None }
}

#[test]
fn cookie_header_joins_pairs() {
    let cookies = vec![cookie("a", "1"), cookie("b", "2"), cookie("c", "3")];
    assert_eq!(build_cookie_header(&cookies), "a=1; b=2; c=3");
}

#[test]
fn cookie_header_of_nothing_is_empty() {
    let cookies: Vec<Cookie> = vec![];
    assert_eq!(build_cookie_header(&cookies), "");
}

#[test]
fn finds_the_clearance_cookie() {
    let cookies = vec![cookie("x", "1"), cookie("cf_clearance", "tok"), cookie("cf_clearance", "other")];
    let found = find_cookie(&cookies, "cf_clearance").unwrap();
    assert_eq!(found.value, "tok");
    assert!(find_cookie(&cookies, "ASP.NET_SessionId").is_none());
}

#[test]
fn parses_a_set_cookie_header() {
    let c = parse_set_cookie("session=abc123; Path=/; Domain=.example.com; HttpOnly").unwrap();
    assert_eq!(c.name, "session");
    assert_eq!(c.value, "abc123");
    assert_eq!(c.domain.as_deref(), Some(".example.com"));
}

#[test]
fn set_cookie_domain_match_ignores_case_and_spaces() {
    let c = parse_set_cookie("  n = v ;  DOMAIN=  example.org  ").unwrap();
    assert_eq!(c.name, "n");
    assert_eq!(c.value, "v");
    assert_eq!(c.domain.as_deref(), Some("example.org"));
}

#[test]
fn set_cookie_without_domain_has_none() {
    let c = parse_set_cookie("k=v; Path=/; Secure").unwrap();
    assert_eq!(c.name, "k");
    assert_eq!(c.value, "v");
    assert!(c.domain.is_none());
}

#[test]
fn set_cookie_without_equals_is_rejected() {
    assert!(parse_set_cookie("no pair here; Path=/").is_none());
}

#[test]
fn merge_keeps_captured_cookies_and_fills_in_originals() {
    let captured = vec![cookie("session", "new")];
    let originals = vec![cookie("session", "old"), cookie("cf_clearance", "tok")];
    let merged = merge_cookies(captured, &originals);
    assert_eq!(merged.len(), 2);
    assert_eq!(merged[0].name, "session");
    assert_eq!(merged[0].value, "new");
    assert_eq!(merged[1].name, "cf_clearance");
    assert_eq!(merged[1].value, "tok");
}

#[test]
fn preview_truncates_long_values() {
    assert_eq!(clearance_preview("0123456789abcdef"), "0123456789...");
    assert_eq!(clearance_preview("short"), "short");
    assert_eq!(clearance_preview("0123456789"), "0123456789");
}

#[test]
fn capture_filename_has_the_expected_shape() {
    let name = generate_unique_filename();
    assert!(name.starts_with("captured_purchase_cookies_"));
    assert!(name.ends_with(".json"));
    let middle = &name["captured_purchase_cookies_".len()..name.len() - ".json".len()];
    let (_ts, rnd) = middle.rsplit_once('_').unwrap();
    assert_eq!(rnd.len(), 8);
    assert!(rnd.chars().all(|c| c.is_ascii_alphanumeric()));
}

#[test]
fn two_capture_filenames_differ() {
    assert_ne!(generate_unique_filename(), generate_unique_filename());
}

#[test]
fn cookie_capture_document_is_exact() {
    let cookies = vec![
        cookie("a", "1"),
        Cookie {
            name: String::from("b"),
            value: String::from("2"),
            domain: Some(String::from(".example.com")),
        },
    ];
    let doc = cookies_json("2024-01-01_00-00-00", &cookies).unwrap();
    assert_eq!(
        doc,
        "{\"timestamp\":\"2024-01-01_00-00-00\",\"cookies\":[{\"name\":\"a\",\"value\":\"1\",\"domain\":null},{\"name\":\"b\",\"value\":\"2\",\"domain\":\".example.com\"}]}"
    );
}

#[test]
fn cookie_capture_refuses_values_that_need_escaping() {
    let cookies = vec![cookie("a", "he said \"hi\"")];
    assert!(cookies_json("ts", &cookies).is_none());
    let cookies = vec![cookie("a\\b", "1")];
    assert!(cookies_json("ts", &cookies).is_none());
}

#[test]
fn redirect_history_document_is_exact() {
    let doc = redirect_history_json("2024-01-01_00-00-00", "https://final/url").unwrap();
    assert_eq!(
        doc,
        "{\"timestamp\":\"2024-01-01_00-00-00\",\"final_url\":\"https://final/url\",\"redirects\":[]}"
    );
    assert!(redirect_history_json("t", "bad\"url").is_none());
}
