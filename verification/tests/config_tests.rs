use fe_monitor::config::{cache_busted_url, cache_busted_url_now, get_headers, HeadersConfig, RequestConfig};
use fe_monitor::text::u64_to_string;

fn headers() -> HeadersConfig {
    HeadersConfig {
        user_agent: String::from("Mozilla/5.0"),
        accept: String::from("application/json, text/plain, */*"),
        accept_language: String::from("en-US,en;q=0.9,de;q=0.8"),
        connection: String::from("keep-alive"),
        cache_control: String::from("no-cache"),
        pragma: String::from("no-cache"),
        sec_fetch_dest: String::from("empty"),
        sec_fetch_mode: String::from("cors"),
        sec_fetch_site: String::from("cross-site"),
        origin: String::from("https://www.nvidia.com"),
        referer: String::from("https://www.nvidia.com/"),
        sec_ch_ua: String::from("\"Google Chrome\";v=\"123\""),
        sec_ch_ua_mobile: String::from("?0"),
        sec_ch_ua_platform: String::from("\"Windows\""),
    }
}

#[test]
fn header_pairs_are_complete_and_ordered() {
    let pairs = get_headers(&headers());
    assert_eq!(pairs.len(), 14);
    assert_eq!(pairs[0], (String::from("User-Agent"), String::from("Mozilla/5.0")));
    assert_eq!(pairs[1].0, "Accept");
    assert_eq!(pairs[2].0, "Accept-Language");
    assert_eq!(pairs[3].0, "Connection");
    assert_eq!(pairs[4].0, "Cache-Control");
    assert_eq!(pairs[5].0, "Pragma");
    assert_eq!(pairs[6].0, "Sec-Fetch-Dest");
    assert_eq!(pairs[7].0, "Sec-Fetch-Mode");
    assert_eq!(pairs[8].0, "Sec-Fetch-Site");
    assert_eq!(pairs[9].0, "Origin");
    assert_eq!(pairs[10].0, "Referer");
    assert_eq!(pairs[11].0, "Sec-Ch-Ua");
    assert_eq!(pairs[12].0, "Sec-Ch-Ua-Mobile");
    assert_eq!(pairs[13], (String::from("Sec-Ch-Ua-Platform"), String::from("\"Windows\"")));
}

#[test]
fn cache_busting_appends_a_query() {
    assert_eq!(cache_busted_url("https://api.example/fe", 17), "https://api.example/fe?t=17");
}

#[test]
fn cache_busting_extends_an_existing_query() {
    assert_eq!(
        cache_busted_url("https://api.example/fe?locale=de-de", 17),
        "https://api.example/fe?locale=de-de&t=17"
    );
}

#[test]
fn cache_busting_now_uses_the_clock() {
    let url = cache_busted_url_now("https://api.example/fe");
    assert!(url.starts_with("https://api.example/fe?t="));
    let ts: u64 = url["https://api.example/fe?t=".len()..].parse().unwrap();
    assert!(ts > 1_500_000_000_000);
}

#[test]
fn decimal_rendering_is_exact() {
    assert_eq!(u64_to_string(0), "0");
    assert_eq!(u64_to_string(7), "7");
    assert_eq!(u64_to_string(10), "10");
    assert_eq!(u64_to_string(1169), "1169");
    assert_eq!(u64_to_string(u64::MAX), "18446744073709551615");
}

#[test]
fn config_validation_checks_the_loop_invariants() {
    let good = RequestConfig { timeout_secs: 10, max_attempts: 3, sleep_ms_min: 500, sleep_ms_max: 1000 };
    assert!(good.validate());
    let no_attempts = RequestConfig { timeout_secs: 10, max_attempts: 0, sleep_ms_min: 500, sleep_ms_max: 1000 };
    assert!(!no_attempts.validate());
    let too_many = RequestConfig { timeout_secs: 10, max_attempts: 64, sleep_ms_min: 500, sleep_ms_max: 1000 };
    assert!(!too_many.validate());
    let empty_range = RequestConfig { timeout_secs: 10, max_attempts: 3, sleep_ms_min: 1000, sleep_ms_max: 1000 };
    assert!(!empty_range.validate());
}
