//! Configuration carried into the poll loop: the endpoint, the request
//! header set (opaque strings handed through to the fetch), and the request
//! budget (timeout, retry attempts, inter-cycle sleep range), together with
//! the pure request-building helpers of the fetch path.
use vstd::prelude::*;
use vstd::string::*;

use crate::text::spec_u64_chars;
use crate::text::u64_to_string;

verus! {

/// The header set sent with every request, opaque to the core.
pub struct HeadersConfig {
    pub user_agent: String,
    pub accept: String,
    pub accept_language: String,
    pub connection: String,
    pub cache_control: String,
    pub pragma: String,
    pub sec_fetch_dest: String,
    pub sec_fetch_mode: String,
    pub sec_fetch_site: String,
    pub origin: String,
    pub referer: String,
    pub sec_ch_ua: String,
    pub sec_ch_ua_mobile: String,
    pub sec_ch_ua_platform: String,
}

/// The request budget of the poll loop.
pub struct RequestConfig {
    pub timeout_secs: u64,
    pub max_attempts: u32,
    pub sleep_ms_min: u64,
    pub sleep_ms_max: u64,
}

impl RequestConfig {
    /// What the steady-state loop needs of its configuration: an attempt
    /// budget the backoff arithmetic can carry (at most 63, so every
    /// backoff fits in a `u64` of seconds), and a non-empty sleep range
    /// for the jitter draw.
    pub open spec fn valid(self) -> bool {
        1 <= self.max_attempts <= 63 && self.sleep_ms_min < self.sleep_ms_max
    }

    /// Check [`Self::valid`]. A configuration that fails this check is a
    /// fatal startup error; nothing later in the loop revalidates it.
    pub fn validate(&self) -> (r: bool)
        ensures
            r == self.valid(),
    {
        1 <= self.max_attempts && self.max_attempts <= 63 && self.sleep_ms_min < self.sleep_ms_max
    }
}

/// Everything the API poll needs.
pub struct ApiConfig {
    pub fe_inventory_url: String,
    pub headers: HeadersConfig,
    pub request: RequestConfig,
}

/// The configured headers as ordered name/value pairs, exactly the set the
/// fetch sends.
pub fn get_headers(config: &HeadersConfig) -> (r: Vec<(String, String)>)
    ensures
        r@.len() == 14,
        r@[0].0@ == "User-Agent"@ && r@[0].1@ == config.user_agent@,
        r@[1].0@ == "Accept"@ && r@[1].1@ == config.accept@,
        r@[2].0@ == "Accept-Language"@ && r@[2].1@ == config.accept_language@,
        r@[3].0@ == "Connection"@ && r@[3].1@ == config.connection@,
        r@[4].0@ == "Cache-Control"@ && r@[4].1@ == config.cache_control@,
        r@[5].0@ == "Pragma"@ && r@[5].1@ == config.pragma@,
        r@[6].0@ == "Sec-Fetch-Dest"@ && r@[6].1@ == config.sec_fetch_dest@,
        r@[7].0@ == "Sec-Fetch-Mode"@ && r@[7].1@ == config.sec_fetch_mode@,
        r@[8].0@ == "Sec-Fetch-Site"@ && r@[8].1@ == config.sec_fetch_site@,
        r@[9].0@ == "Origin"@ && r@[9].1@ == config.origin@,
        r@[10].0@ == "Referer"@ && r@[10].1@ == config.referer@,
        r@[11].0@ == "Sec-Ch-Ua"@ && r@[11].1@ == config.sec_ch_ua@,
        r@[12].0@ == "Sec-Ch-Ua-Mobile"@ && r@[12].1@ == config.sec_ch_ua_mobile@,
        r@[13].0@ == "Sec-Ch-Ua-Platform"@ && r@[13].1@ == config.sec_ch_ua_platform@,
{
    let mut r: Vec<(String, String)> = Vec::new();
    r.push((String::from_str("User-Agent"), config.user_agent.clone()));
    r.push((String::from_str("Accept"), config.accept.clone()));
    r.push((String::from_str("Accept-Language"), config.accept_language.clone()));
    r.push((String::from_str("Connection"), config.connection.clone()));
    r.push((String::from_str("Cache-Control"), config.cache_control.clone()));
    r.push((String::from_str("Pragma"), config.pragma.clone()));
    r.push((String::from_str("Sec-Fetch-Dest"), config.sec_fetch_dest.clone()));
    r.push((String::from_str("Sec-Fetch-Mode"), config.sec_fetch_mode.clone()));
    r.push((String::from_str("Sec-Fetch-Site"), config.sec_fetch_site.clone()));
    r.push((String::from_str("Origin"), config.origin.clone()));
    r.push((String::from_str("Referer"), config.referer.clone()));
    r.push((String::from_str("Sec-Ch-Ua"), config.sec_ch_ua.clone()));
    r.push((String::from_str("Sec-Ch-Ua-Mobile"), config.sec_ch_ua_mobile.clone()));
    r.push((String::from_str("Sec-Ch-Ua-Platform"), config.sec_ch_ua_platform.clone()));
    r
}

/// Whether the URL already carries a query string.
pub open spec fn has_query(url: Seq<char>) -> bool {
    exists|i: int| 0 <= i < url.len() && url[i] == '?'
}

/// The cache-busting URL for one attempt: the endpoint with `t=<now_ms>`
/// appended, as a new query string or as an extra parameter.
pub open spec fn spec_cache_busted_url(url: Seq<char>, now_ms: nat) -> Seq<char> {
    url + (if has_query(url) {
        "&t="@
    } else {
        "?t="@
    }) + spec_u64_chars(now_ms)
}

fn contains_question_mark(url: &str) -> (r: bool)
    ensures
        r == has_query(url@),
{
    let n = url.unicode_len();
    let mut i: usize = 0;
    while i < n
        invariant
            n == url@.len(),
            i <= n,
            forall|k: int| 0 <= k < i as int ==> url@[k] != '?',
        decreases n - i,
    {
        if url.get_char(i) == '?' {
            return true;
        }
        i = i + 1;
    }
    false
}

/// Build the cache-busting URL for one attempt from the endpoint and a
/// millisecond timestamp.
pub fn cache_busted_url(url: &str, now_ms: u64) -> (r: String)
    ensures
        r@ == spec_cache_busted_url(url@, now_ms as nat),
{
    let mut r = String::from_str(url);
    if contains_question_mark(url) {
        r.append("&t=");
    } else {
        r.append("?t=");
    }
    let ts = u64_to_string(now_ms);
    r.append(ts.as_str());
    r
}

/// Relies on `chrono::Utc::now` and `chrono::DateTime::timestamp_millis`:
/// the current Unix time in milliseconds. It depends on the machine's
/// clock, so nothing is promised of its value.
#[verifier::external_body]
fn now_unix_millis() -> (r: i64) {
    chrono::Utc::now().timestamp_millis()
}

/// The cache-busting URL for an attempt made now. The timestamp comes from
/// the clock: whatever it was, the result is the endpoint with exactly that
/// timestamp appended (a clock before 1970 is clamped to zero).
pub fn cache_busted_url_now(url: &str) -> (r: String)
    ensures
        exists|t: nat| r@ == spec_cache_busted_url(url@, t),
{
    let ms = now_unix_millis();
    let ms_u64: u64 = if ms >= 0 {
        ms as u64
    } else {
        0
    };
    let r = cache_busted_url(url, ms_u64);
    proof {
        assert(r@ == spec_cache_busted_url(url@, ms_u64 as nat));
    }
    r
}

} // verus!
