//! The pure parts of the fast purchase path: assembling the cookie header,
//! finding and merging captured cookies, and naming the capture files. The
//! request itself, and every file read and write, live with the caller.
use vstd::prelude::*;
use vstd::string::*;

verus! {

/// Ghost view of one captured cookie.
#[verifier::ext_equal]
pub struct CookieV {
    pub name: Seq<char>,
    pub value: Seq<char>,
    pub domain: Option<Seq<char>>,
}

/// One captured browser cookie.
pub struct Cookie {
    pub name: String,
    pub value: String,
    pub domain: Option<String>,
}

impl View for Cookie {
    type V = CookieV;

    open spec fn view(&self) -> CookieV {
        CookieV {
            name: self.name@,
            value: self.value@,
            domain: match self.domain {
                Some(ref d) => Some(d@),
                None => None,
            },
        }
    }
}

impl Clone for Cookie {
    fn clone(&self) -> (res: Self)
        ensures
            res@ == self@,
    {
        Cookie {
            name: self.name.clone(),
            value: self.value.clone(),
            domain: match self.domain {
                Some(ref d) => Some(d.clone()),
                None => None,
            },
        }
    }
}

/// The ghost views of a cookie list.
pub open spec fn cookie_views(cs: Seq<Cookie>) -> Seq<CookieV> {
    cs.map_values(|c: Cookie| c@)
}

/// `name=value`.
pub open spec fn spec_cookie_pair(c: CookieV) -> Seq<char> {
    c.name + "="@ + c.value
}

/// The single `Cookie` request header carrying every captured cookie,
/// joined by `"; "`.
pub open spec fn spec_cookie_header(cs: Seq<CookieV>) -> Seq<char>
    decreases cs.len(),
{
    if cs.len() == 0 {
        Seq::empty()
    } else if cs.len() == 1 {
        spec_cookie_pair(cs[0])
    } else {
        spec_cookie_pair(cs[0]) + "; "@ + spec_cookie_header(cs.subrange(1, cs.len() as int))
    }
}

proof fn lemma_cookie_header_push(cs: Seq<CookieV>, x: CookieV)
    ensures
        spec_cookie_header(cs.push(x)) == if cs.len() == 0 {
            spec_cookie_pair(x)
        } else {
            spec_cookie_header(cs) + "; "@ + spec_cookie_pair(x)
        },
    decreases cs.len(),
{
    if cs.len() == 0 {
        assert(cs.push(x).len() == 1);
        assert(cs.push(x)[0] == x);
    } else if cs.len() == 1 {
        assert(cs.push(x)[0] == cs[0]);
        assert(cs.push(x).subrange(1, 2) =~= seq![x]);
        assert(spec_cookie_header(seq![x]) == spec_cookie_pair(x));
    } else {
        assert(cs.push(x)[0] == cs[0]);
        assert(cs.push(x).subrange(1, cs.push(x).len() as int) =~= cs.subrange(
            1,
            cs.len() as int,
        ).push(x));
        lemma_cookie_header_push(cs.subrange(1, cs.len() as int), x);
        assert(spec_cookie_header(cs.push(x)) == spec_cookie_pair(cs[0]) + "; "@
            + (spec_cookie_header(cs.subrange(1, cs.len() as int)) + "; "@ + spec_cookie_pair(x)));
        assert(spec_cookie_pair(cs[0]) + "; "@ + (spec_cookie_header(
            cs.subrange(1, cs.len() as int),
        ) + "; "@ + spec_cookie_pair(x)) =~= (spec_cookie_pair(cs[0]) + "; "@
            + spec_cookie_header(cs.subrange(1, cs.len() as int))) + "; "@ + spec_cookie_pair(x));
    }
}

/// Build the combined `Cookie` header value for a purchase request.
pub fn build_cookie_header(cookies: &Vec<Cookie>) -> (r: String)
    ensures
        r@ == spec_cookie_header(cookie_views(cookies@)),
{
    let ghost cv = cookie_views(cookies@);
    let mut r = String::new();
    let mut i: usize = 0;
    while i < cookies.len()
        invariant
            i <= cookies.len(),
            r@ == spec_cookie_header(cv.subrange(0, i as int)),
        decreases cookies.len() - i,
    {
        if i > 0 {
            r.append("; ");
        }
        r.append(cookies[i].name.as_str());
        r.append("=");
        r.append(cookies[i].value.as_str());
        proof {
            assert(cv.subrange(0, i as int + 1) =~= cv.subrange(0, i as int).push(cv[i as int]));
            lemma_cookie_header_push(cv.subrange(0, i as int), cv[i as int]);
            assert(r@ =~= spec_cookie_header(cv.subrange(0, i as int + 1)));
        }
        i = i + 1;
    }
    proof {
        assert(cv.subrange(0, cv.len() as int) =~= cv);
    }
    r
}

/// The first cookie carrying `name`, if any.
pub open spec fn spec_find_cookie(cs: Seq<CookieV>, name: Seq<char>) -> Option<CookieV>
    decreases cs.len(),
{
    if cs.len() == 0 {
        None
    } else if cs[0].name == name {
        Some(cs[0])
    } else {
        spec_find_cookie(cs.subrange(1, cs.len() as int), name)
    }
}

/// Look a cookie up by name; the CloudFlare clearance check and the session
/// check go through this.
pub fn find_cookie<'a>(cookies: &'a Vec<Cookie>, name: &str) -> (r: Option<&'a Cookie>)
    ensures
        match r {
            Some(c) => spec_find_cookie(cookie_views(cookies@), name@) == Some(c@),
            None => spec_find_cookie(cookie_views(cookies@), name@) is None,
        },
{
    let ghost cv = cookie_views(cookies@);
    proof {
        assert(cv.subrange(0, cv.len() as int) =~= cv);
    }
    let needle = String::from_str(name);
    let mut i: usize = 0;
    while i < cookies.len()
        invariant
            i <= cookies.len(),
            needle@ == name@,
            spec_find_cookie(cv, name@) == spec_find_cookie(
                cv.subrange(i as int, cv.len() as int),
                name@,
            ),
        decreases cookies.len() - i,
    {
        if cookies[i].name == needle {
            proof {
                assert(cv.subrange(i as int, cv.len() as int)[0] == cv[i as int]);
            }
            return Some(&cookies[i]);
        }
        proof {
            assert(cv.subrange(i as int, cv.len() as int)[0] == cv[i as int]);
            assert(cv.subrange(i as int, cv.len() as int).subrange(1, cv.len() - i as int)
                =~= cv.subrange(i as int + 1, cv.len() as int));
        }
        i = i + 1;
    }
    None
}

/// Whether some cookie in the list carries `name`.
pub open spec fn has_name(cs: Seq<CookieV>, name: Seq<char>) -> bool {
    exists|i: int| 0 <= i < cs.len() && cs[i].name == name
}

fn cookies_have_name(cookies: &Vec<Cookie>, name: &String) -> (r: bool)
    ensures
        r == has_name(cookie_views(cookies@), name@),
{
    let ghost cv = cookie_views(cookies@);
    let mut i: usize = 0;
    while i < cookies.len()
        invariant
            i <= cookies.len(),
            forall|k: int| 0 <= k < i as int ==> cv[k].name != name@,
        decreases cookies.len() - i,
    {
        if cookies[i].name == *name {
            assert(cv[i as int].name == name@);
            return true;
        }
        i = i + 1;
    }
    false
}

/// Folding the originals into the captured set: an original whose name is
/// not yet present (in the captured set or among originals already kept)
/// is appended, in order.
pub open spec fn spec_merge(acc: Seq<CookieV>, orig: Seq<CookieV>) -> Seq<CookieV>
    decreases orig.len(),
{
    if orig.len() == 0 {
        acc
    } else {
        spec_merge(
            if has_name(acc, orig[0].name) {
                acc
            } else {
                acc.push(orig[0])
            },
            orig.subrange(1, orig.len() as int),
        )
    }
}

/// Merge the cookies captured from a response with the originally loaded
/// ones: captured cookies win, originals fill in what the response did not
/// set.
pub fn merge_cookies(captured: Vec<Cookie>, original: &Vec<Cookie>) -> (r: Vec<Cookie>)
    ensures
        cookie_views(r@) == spec_merge(cookie_views(captured@), cookie_views(original@)),
{
    let ghost acc0 = cookie_views(captured@);
    let ghost ov = cookie_views(original@);
    let mut acc = captured;
    let mut i: usize = 0;
    proof {
        assert(ov.subrange(0, ov.len() as int) =~= ov);
    }
    while i < original.len()
        invariant
            i <= original.len(),
            spec_merge(acc0, ov) == spec_merge(
                cookie_views(acc@),
                ov.subrange(i as int, ov.len() as int),
            ),
        decreases original.len() - i,
    {
        let ghost pre = cookie_views(acc@);
        proof {
            assert(ov.subrange(i as int, ov.len() as int)[0] == ov[i as int]);
            assert(ov.subrange(i as int, ov.len() as int).subrange(1, ov.len() - i as int)
                =~= ov.subrange(i as int + 1, ov.len() as int));
        }
        if !cookies_have_name(&acc, &original[i].name) {
            acc.push(original[i].clone());
            proof {
                assert(ov[i as int] == original@[i as int]@);
                assert(cookie_views(acc@) =~= pre.push(ov[i as int]));
            }
        }
        i = i + 1;
    }
    acc
}

/// The clearance value as it is logged: its first ten characters and an
/// ellipsis, or the whole value when it is that short.
pub fn clearance_preview(value: &str) -> (r: String)
    ensures
        value@.len() > 10 ==> r@ == value@.subrange(0, 10) + "..."@,
        value@.len() <= 10 ==> r@ == value@,
{
    let n = value.unicode_len();
    if n > 10 {
        let mut r = String::from_str(value.substring_char(0, 10));
        r.append("...");
        r
    } else {
        String::from_str(value)
    }
}

/// Relies on `chrono::Local::now` and chrono's `format`: the current local
/// time rendered as `%Y-%m-%d_%H-%M-%S` (no colons, safe in a file name).
/// It depends on the clock, so nothing is promised of its value.
#[verifier::external_body]
fn get_timestamp() -> (r: String) {
    chrono::Local::now().format("%Y-%m-%d_%H-%M-%S").to_string()
}

/// Relies on `rand::distributions::Alphanumeric` (crate `rand`): `len`
/// characters drawn uniformly from `a-z`, `A-Z` and `0-9`.
#[verifier::external_body]
fn random_alphanumeric(len: usize) -> (r: String)
    ensures
        r@.len() == len,
        forall|i: int| 0 <= i < r@.len() ==> is_alphanumeric_char(#[trigger] r@[i]),
{
    rand::Rng::sample_iter(rand::thread_rng(), &rand::distributions::Alphanumeric).take(len).map(
        char::from,
    ).collect()
}

/// An ASCII letter or digit.
pub open spec fn is_alphanumeric_char(c: char) -> bool {
    ('a' as u32 <= c as u32 && c as u32 <= 'z' as u32) || ('A' as u32 <= c as u32 && c as u32
        <= 'Z' as u32) || ('0' as u32 <= c as u32 && c as u32 <= '9' as u32)
}

/// A space character for header trimming (ASCII whitespace; header values
/// are ASCII).
pub open spec fn is_space(c: char) -> bool {
    c == ' ' || c == '\t' || c == '\n' || c == '\r'
}

/// How far the first occurrence of `c` in `s[i..end)` lies from `i`
/// (`end - i` when there is none).
pub open spec fn find_off(s: Seq<char>, i: int, end: int, c: char) -> nat
    decreases end - i,
{
    if !(0 <= i && i < end && end <= s.len()) {
        0
    } else if s[i] == c {
        0
    } else {
        (1 + find_off(s, i + 1, end, c)) as nat
    }
}

/// The length of the leading space run of `s[a..b)`.
pub open spec fn trim_off(s: Seq<char>, a: int, b: int) -> nat
    decreases b - a,
{
    if 0 <= a && a < b && b <= s.len() && is_space(s[a]) {
        (1 + trim_off(s, a + 1, b)) as nat
    } else {
        0
    }
}

/// The end of `s[a..b)` with trailing spaces dropped.
pub open spec fn trim_end(s: Seq<char>, a: int, b: int) -> int
    decreases b - a,
{
    if 0 <= a && a < b && b <= s.len() && is_space(s[b - 1]) {
        trim_end(s, a, b - 1)
    } else {
        b
    }
}

/// `s[a..b)` with surrounding spaces dropped.
pub open spec fn spec_trim(s: Seq<char>, a: int, b: int) -> Seq<char> {
    let a2 = a + trim_off(s, a, b);
    let b2 = trim_end(s, a2, b);
    s.subrange(a2, b2)
}

/// The ASCII lowercase of a character.
pub open spec fn lower_char(c: char) -> char {
    if 'A' as u32 <= c as u32 && c as u32 <= 'Z' as u32 {
        ((c as u32 + 32) as u8) as char
    } else {
        c
    }
}

/// Whether the part `s[a..b)`, once trimmed, begins with `domain=` in any
/// letter case.
pub open spec fn has_domain_prefix(s: Seq<char>, a: int, b: int) -> bool {
    let a2 = a + trim_off(s, a, b);
    let b2 = trim_end(s, a2, b);
    b2 - a2 >= 7 && lower_char(s[a2]) == 'd' && lower_char(s[a2 + 1]) == 'o' && lower_char(
        s[a2 + 2],
    ) == 'm' && lower_char(s[a2 + 3]) == 'a' && lower_char(s[a2 + 4]) == 'i' && lower_char(
        s[a2 + 5],
    ) == 'n' && s[a2 + 6] == '='
}

/// The domain attribute of a `Set-Cookie` header: the first
/// semicolon-separated part whose trimmed text begins with `domain=`,
/// taken apart at its first `=`, with the value trimmed.
pub open spec fn find_domain(s: Seq<char>, i: int) -> Option<Seq<char>>
    decreases s.len() - i,
{
    if !(0 <= i <= s.len()) {
        None
    } else {
        let e = i + find_off(s, i, s.len() as int, ';');
        if has_domain_prefix(s, i, e) {
            let q = i + find_off(s, i, e, '=');
            if q < e {
                Some(spec_trim(s, q + 1, e))
            } else {
                None
            }
        } else if e < s.len() {
            find_domain(s, e + 1)
        } else {
            None
        }
    }
}

/// One `Set-Cookie` header taken apart: the first part up to a semicolon
/// must be `name=value` (both trimmed); the domain attribute, if present,
/// is kept.
pub open spec fn spec_parse_set_cookie(s: Seq<char>) -> Option<CookieV> {
    let e0 = find_off(s, 0, s.len() as int, ';') as int;
    let q = find_off(s, 0, e0, '=') as int;
    if q >= e0 {
        None
    } else {
        Some(
            CookieV {
                name: spec_trim(s, 0, q),
                value: spec_trim(s, q + 1, e0),
                domain: find_domain(s, 0),
            },
        )
    }
}

fn find_pos(s: &str, i: usize, end: usize, c: char, n: usize) -> (r: usize)
    requires
        n == s@.len(),
        i <= end <= n,
    ensures
        i <= r <= end,
        r == i + find_off(s@, i as int, end as int, c),
    decreases end - i,
{
    if i < end && s.get_char(i) == c {
        i
    } else if i < end {
        find_pos(s, i + 1, end, c, n)
    } else {
        i
    }
}

fn trim_start_pos(s: &str, a: usize, b: usize, n: usize) -> (r: usize)
    requires
        n == s@.len(),
        a <= b <= n,
    ensures
        a <= r <= b,
        r == a + trim_off(s@, a as int, b as int),
    decreases b - a,
{
    if a < b && is_space_char(s.get_char(a)) {
        trim_start_pos(s, a + 1, b, n)
    } else {
        a
    }
}

fn trim_end_pos(s: &str, a: usize, b: usize, n: usize) -> (r: usize)
    requires
        n == s@.len(),
        a <= b <= n,
    ensures
        a <= r <= b,
        r == trim_end(s@, a as int, b as int),
    decreases b - a,
{
    if a < b && is_space_char(s.get_char(b - 1)) {
        trim_end_pos(s, a, b - 1, n)
    } else {
        b
    }
}

fn is_space_char(c: char) -> (r: bool)
    ensures
        r == is_space(c),
{
    c == ' ' || c == '\t' || c == '\n' || c == '\r'
}

/// `s[a..b)` trimmed, as an owned string.
fn trimmed(s: &str, a: usize, b: usize, n: usize) -> (r: String)
    requires
        n == s@.len(),
        a <= b <= n,
    ensures
        r@ == spec_trim(s@, a as int, b as int),
{
    let a2 = trim_start_pos(s, a, b, n);
    let b2 = trim_end_pos(s, a2, b, n);
    String::from_str(s.substring_char(a2, b2))
}

fn lower_eq(c: char, l: char) -> (r: bool)
    requires
        'a' as u32 <= l as u32 && l as u32 <= 'z' as u32,
    ensures
        r == (lower_char(c) == l),
{
    let cl: char = if 'A' as u32 <= c as u32 && c as u32 <= 'Z' as u32 {
        ((c as u32 + 32) as u8) as char
    } else {
        c
    };
    cl == l
}

fn has_domain_prefix_e(s: &str, a: usize, b: usize, n: usize) -> (r: bool)
    requires
        n == s@.len(),
        a <= b <= n,
    ensures
        r == has_domain_prefix(s@, a as int, b as int),
{
    let a2 = trim_start_pos(s, a, b, n);
    let b2 = trim_end_pos(s, a2, b, n);
    b2 - a2 >= 7 && lower_eq(s.get_char(a2), 'd') && lower_eq(s.get_char(a2 + 1), 'o') && lower_eq(
        s.get_char(a2 + 2),
        'm',
    ) && lower_eq(s.get_char(a2 + 3), 'a') && lower_eq(s.get_char(a2 + 4), 'i') && lower_eq(
        s.get_char(a2 + 5),
        'n',
    ) && s.get_char(a2 + 6) == '='
}

fn find_domain_e(s: &str, n: usize) -> (r: Option<String>)
    requires
        n == s@.len(),
    ensures
        match r {
            Some(d) => find_domain(s@, 0) == Some(d@),
            None => find_domain(s@, 0) is None,
        },
{
    let mut i: usize = 0;
    loop
        invariant
            i <= n,
            n == s@.len(),
            find_domain(s@, 0) == find_domain(s@, i as int),
        decreases n - i,
    {
        let e = find_pos(s, i, n, ';', n);
        if has_domain_prefix_e(s, i, e, n) {
            let q = find_pos(s, i, e, '=', n);
            if q < e {
                return Some(trimmed(s, q + 1, e, n));
            } else {
                return None;
            }
        } else if e < n {
            i = e + 1;
        } else {
            return None;
        }
    }
}

/// Take one `Set-Cookie` response header apart into a cookie, or `None`
/// when its first part is not a `name=value` pair.
pub fn parse_set_cookie(header_value: &str) -> (r: Option<Cookie>)
    ensures
        match r {
            Some(c) => spec_parse_set_cookie(header_value@) == Some(c@),
            None => spec_parse_set_cookie(header_value@) is None,
        },
{
    let n = header_value.unicode_len();
    let e0 = find_pos(header_value, 0, n, ';', n);
    let q = find_pos(header_value, 0, e0, '=', n);
    if q >= e0 {
        return None;
    }
    let name = trimmed(header_value, 0, q, n);
    let value = trimmed(header_value, q + 1, e0, n);
    let domain = find_domain_e(header_value, n);
    Some(Cookie { name, value, domain })
}

/// A character that may stand in a JSON string without escaping.
pub open spec fn plain_json_char(c: char) -> bool {
    c != '"' && c != '\\' && c as u32 >= 0x20
}

/// Every character of `s` may stand in a JSON string without escaping.
pub open spec fn all_plain(s: Seq<char>) -> bool {
    forall|i: int| 0 <= i < s.len() ==> plain_json_char(#[trigger] s[i])
}

fn check_plain(s: &str) -> (r: bool)
    ensures
        r == all_plain(s@),
{
    let n = s.unicode_len();
    let mut i: usize = 0;
    while i < n
        invariant
            n == s@.len(),
            i <= n,
            forall|k: int| 0 <= k < i as int ==> plain_json_char(#[trigger] s@[k]),
        decreases n - i,
    {
        let c = s.get_char(i);
        if c == '"' || c == '\\' || (c as u32) < 0x20 {
            return false;
        }
        i = i + 1;
    }
    true
}

/// One cookie as a JSON object, for the capture file.
pub open spec fn spec_cookie_json(c: CookieV) -> Seq<char> {
    "{\"name\":\""@ + c.name + "\",\"value\":\""@ + c.value + (match c.domain {
        Some(d) => "\",\"domain\":\""@ + d + "\"}"@,
        None => "\",\"domain\":null}"@,
    })
}

/// Whether a cookie can be written to the capture file without escaping.
pub open spec fn cookie_plain(c: CookieV) -> bool {
    all_plain(c.name) && all_plain(c.value) && (match c.domain {
        Some(d) => all_plain(d),
        None => true,
    })
}

fn cookie_json(c: &Cookie) -> (r: Option<String>)
    ensures
        match r {
            Some(q) => cookie_plain(c@) && q@ == spec_cookie_json(c@),
            None => !cookie_plain(c@),
        },
{
    if !check_plain(c.name.as_str()) {
        return None;
    }
    if !check_plain(c.value.as_str()) {
        return None;
    }
    let mut q = String::from_str("{\"name\":\"");
    q.append(c.name.as_str());
    q.append("\",\"value\":\"");
    q.append(c.value.as_str());
    match c.domain {
        Some(ref d) => {
            if !check_plain(d.as_str()) {
                return None;
            }
            q.append("\",\"domain\":\"");
            q.append(d.as_str());
            q.append("\"}");
        },
        None => {
            q.append("\",\"domain\":null}");
        },
    }
    Some(q)
}

/// Sequences joined by a separator.
pub open spec fn spec_join(parts: Seq<Seq<char>>, sep: Seq<char>) -> Seq<char>
    decreases parts.len(),
{
    if parts.len() == 0 {
        Seq::empty()
    } else if parts.len() == 1 {
        parts[0]
    } else {
        parts[0] + sep + spec_join(parts.subrange(1, parts.len() as int), sep)
    }
}

proof fn lemma_join_push(parts: Seq<Seq<char>>, sep: Seq<char>, x: Seq<char>)
    ensures
        spec_join(parts.push(x), sep) == if parts.len() == 0 {
            x
        } else {
            spec_join(parts, sep) + sep + x
        },
    decreases parts.len(),
{
    if parts.len() == 0 {
        assert(parts.push(x).len() == 1);
        assert(parts.push(x)[0] == x);
    } else if parts.len() == 1 {
        assert(parts.push(x)[0] == parts[0]);
        assert(parts.push(x).subrange(1, 2) =~= seq![x]);
        assert(spec_join(seq![x], sep) == x);
    } else {
        assert(parts.push(x)[0] == parts[0]);
        assert(parts.push(x).subrange(1, parts.push(x).len() as int) =~= parts.subrange(
            1,
            parts.len() as int,
        ).push(x));
        lemma_join_push(parts.subrange(1, parts.len() as int), sep, x);
        assert(spec_join(parts.push(x), sep) == parts[0] + sep + (spec_join(
            parts.subrange(1, parts.len() as int),
            sep,
        ) + sep + x));
        assert(parts[0] + sep + (spec_join(parts.subrange(1, parts.len() as int), sep) + sep + x)
            =~= (parts[0] + sep + spec_join(parts.subrange(1, parts.len() as int), sep)) + sep + x);
    }
}

/// The capture file written after a purchase attempt: the timestamp and
/// every merged cookie.
pub open spec fn spec_cookies_json(ts: Seq<char>, cs: Seq<CookieV>) -> Seq<char> {
    "{\"timestamp\":\""@ + ts + "\",\"cookies\":["@ + spec_join(
        cs.map_values(|c: CookieV| spec_cookie_json(c)),
        ","@,
    ) + "]}"@
}

/// Render the cookie-capture document, or `None` when the timestamp or a
/// cookie would need escaping.
pub fn cookies_json(timestamp: &str, cookies: &Vec<Cookie>) -> (r: Option<String>)
    ensures
        match r {
            Some(q) => all_plain(timestamp@) && (forall|i: int|
                0 <= i < cookies@.len() ==> cookie_plain(#[trigger] cookies@[i]@)) && q@
                == spec_cookies_json(timestamp@, cookie_views(cookies@)),
            None => !(all_plain(timestamp@) && (forall|i: int|
                0 <= i < cookies@.len() ==> cookie_plain(#[trigger] cookies@[i]@))),
        },
{
    let ghost cv = cookie_views(cookies@);
    let ghost parts = cv.map_values(|c: CookieV| spec_cookie_json(c));
    if !check_plain(timestamp) {
        return None;
    }
    let mut body = String::new();
    let mut i: usize = 0;
    while i < cookies.len()
        invariant
            i <= cookies.len(),
            cv == cookie_views(cookies@),
            parts == cv.map_values(|c: CookieV| spec_cookie_json(c)),
            body@ == spec_join(parts.subrange(0, i as int), ","@),
            forall|k: int| 0 <= k < i as int ==> cookie_plain(#[trigger] cookies@[k]@),
        decreases cookies.len() - i,
    {
        let piece = match cookie_json(&cookies[i]) {
            Some(p) => p,
            None => {
                return None;
            },
        };
        if i > 0 {
            body.append(",");
        }
        body.append(piece.as_str());
        proof {
            assert(parts.subrange(0, i as int + 1) =~= parts.subrange(0, i as int).push(
                parts[i as int],
            ));
            lemma_join_push(parts.subrange(0, i as int), ","@, parts[i as int]);
            assert(parts[i as int] == spec_cookie_json(cv[i as int]));
            assert(body@ =~= spec_join(parts.subrange(0, i as int + 1), ","@));
        }
        i = i + 1;
    }
    let mut q = String::from_str("{\"timestamp\":\"");
    q.append(timestamp);
    q.append("\",\"cookies\":[");
    q.append(body.as_str());
    q.append("]}");
    proof {
        assert(parts.subrange(0, parts.len() as int) =~= parts);
        assert(q@ =~= spec_cookies_json(timestamp@, cv));
    }
    Some(q)
}

/// The redirect-history file written after a purchase attempt. The HTTP
/// client follows redirects itself and hands no history back, so the
/// `redirects` array is always empty.
pub open spec fn spec_redirect_history_json(ts: Seq<char>, final_url: Seq<char>) -> Seq<char> {
    "{\"timestamp\":\""@ + ts + "\",\"final_url\":\""@ + final_url + "\",\"redirects\":[]}"@
}

/// Render the redirect-history document, or `None` when a field would need
/// escaping.
pub fn redirect_history_json(timestamp: &str, final_url: &str) -> (r: Option<String>)
    ensures
        match r {
            Some(q) => all_plain(timestamp@) && all_plain(final_url@) && q@
                == spec_redirect_history_json(timestamp@, final_url@),
            None => !(all_plain(timestamp@) && all_plain(final_url@)),
        },
{
    if !check_plain(timestamp) || !check_plain(final_url) {
        return None;
    }
    let mut q = String::from_str("{\"timestamp\":\"");
    q.append(timestamp);
    q.append("\",\"final_url\":\"");
    q.append(final_url);
    q.append("\",\"redirects\":[]}");
    Some(q)
}

/// A fresh name for a cookie-capture file: the fixed prefix, the current
/// timestamp, and eight random alphanumeric characters, so that two
/// captures never collide.
pub fn generate_unique_filename() -> (r: String)
    ensures
        exists|ts: Seq<char>, rnd: Seq<char>|
            rnd.len() == 8 && r@ == "captured_purchase_cookies_"@ + ts + "_"@ + rnd + ".json"@,
{
    let ts = get_timestamp();
    let rnd = random_alphanumeric(8);
    let mut r = String::from_str("captured_purchase_cookies_");
    r.append(ts.as_str());
    r.append("_");
    r.append(rnd.as_str());
    r.append(".json");
    proof {
        assert(r@ == "captured_purchase_cookies_"@ + ts@ + "_"@ + rnd@ + ".json"@);
    }
    r
}

} // verus!
