//! Parser for the captured-cookies file: a JSON document holding (at
//! least) a `cookies` array of objects with string `name` and `value`
//! fields and an optional string-or-null `domain`. Unknown fields are
//! skipped; conventions (verbatim strings, loose numbers, last duplicate
//! wins) are those of the response parser, whose grammar functions this
//! module builds on.
use vstd::prelude::*;
use vstd::string::*;

use crate::model::ParseError;
use crate::parser::{
    has_null, has_null_e, rem, skip_value, skip_value_e, str_body_end, str_body_len, str_eq,
    ws_delta, ws_end,
};
use crate::purchase::{cookie_views, Cookie, CookieV};

verus! {

/// The fields of one cookie object collected so far. An absent and a
/// `null` domain read the same: no domain.
#[verifier::ext_equal]
pub struct CkAcc {
    pub name: Option<Seq<char>>,
    pub value: Option<Seq<char>>,
    pub domain: Option<Seq<char>>,
}

impl CkAcc {
    pub open spec fn empty() -> CkAcc {
        CkAcc { name: None, value: None, domain: None }
    }
}

/// One cookie field value at `v` under `key`: `name` and `value` take
/// strings, `domain` a string or `null`, anything else is skipped unread.
pub open spec fn cookie_field_value(s: Seq<char>, key: Seq<char>, v: int, acc: CkAcc) -> Option<
    (CkAcc, nat),
> {
    if key == "name"@ || key == "value"@ {
        if 0 <= v < s.len() && s[v] == '"' {
            match str_body_len(s, v + 1) {
                Some(d) => {
                    let content = s.subrange(v + 1, v + d);
                    Some(
                        (
                            if key == "name"@ {
                                CkAcc { name: Some(content), ..acc }
                            } else {
                                CkAcc { value: Some(content), ..acc }
                            },
                            (1 + d) as nat,
                        ),
                    )
                },
                None => None,
            }
        } else {
            None
        }
    } else if key == "domain"@ {
        if 0 <= v < s.len() && s[v] == '"' {
            match str_body_len(s, v + 1) {
                Some(d) => Some(
                    (CkAcc { domain: Some(s.subrange(v + 1, v + d)), ..acc }, (1 + d) as nat),
                ),
                None => None,
            }
        } else if has_null(s, v) {
            Some((CkAcc { domain: None, ..acc }, 4nat))
        } else {
            None
        }
    } else {
        match skip_value(s, v) {
            Some(vd) => Some((acc, vd)),
            None => None,
        }
    }
}

/// Parse the members of one cookie object, from its first key up to and
/// including the closing brace.
pub open spec fn cookie_fields(s: Seq<char>, i: int, acc: CkAcc) -> Option<(CkAcc, nat)>
    decreases rem(s, i),
{
    if !(0 <= i < s.len()) || s[i] != '"' {
        None
    } else {
        match str_body_len(s, i + 1) {
            None => None,
            Some(kd) => {
                let key = s.subrange(i + 1, i + kd);
                let c = i + 1 + kd + ws_delta(s, i + 1 + kd);
                if c < s.len() && s[c] == ':' {
                    let v = c + 1 + ws_delta(s, c + 1);
                    match cookie_field_value(s, key, v, acc) {
                        None => None,
                        Some((acc2, vd)) => {
                            let e = v + vd + ws_delta(s, v + vd);
                            if e < s.len() && s[e] == ',' {
                                let k = e + 1 + ws_delta(s, e + 1);
                                match cookie_fields(s, k, acc2) {
                                    Some((a, d)) => Some((a, (k + d - i) as nat)),
                                    None => None,
                                }
                            } else if e < s.len() && s[e] == '}' {
                                Some((acc2, (e + 1 - i) as nat))
                            } else {
                                None
                            }
                        },
                    }
                } else {
                    None
                }
            },
        }
    }
}

/// Parse one cookie object. `name` and `value` are required.
pub open spec fn parse_cookie(s: Seq<char>, i: int) -> Option<(CookieV, nat)> {
    if !(0 <= i < s.len() && s[i] == '{') {
        None
    } else {
        let j = i + 1 + ws_delta(s, i + 1);
        if j < s.len() && s[j] == '}' {
            None
        } else {
            match cookie_fields(s, j, CkAcc::empty()) {
                None => None,
                Some((acc, d)) => match (acc.name, acc.value) {
                    (Some(n), Some(v)) => Some(
                        (CookieV { name: n, value: v, domain: acc.domain }, (j + d - i) as nat),
                    ),
                    _ => None,
                },
            }
        }
    }
}

/// Parse the elements of a non-empty cookie array, up to and including the
/// closing bracket.
pub open spec fn cookie_list(s: Seq<char>, i: int) -> Option<(Seq<CookieV>, nat)>
    decreases rem(s, i),
{
    if !(0 <= i < s.len()) {
        None
    } else {
        match parse_cookie(s, i) {
            None => None,
            Some((p, vd)) => {
                let e = i + vd + ws_delta(s, i + vd);
                if e < s.len() && s[e] == ',' {
                    let k = e + 1 + ws_delta(s, e + 1);
                    match cookie_list(s, k) {
                        Some((rest, d)) => Some((seq![p] + rest, (k + d - i) as nat)),
                        None => None,
                    }
                } else if e < s.len() && s[e] == ']' {
                    Some((seq![p], (e + 1 - i) as nat))
                } else {
                    None
                }
            },
        }
    }
}

/// The `cookies` value: an array of cookie objects.
pub open spec fn cookies_value(s: Seq<char>, v: int) -> Option<(Seq<CookieV>, nat)> {
    if 0 <= v < s.len() && s[v] == '[' {
        let j = v + 1 + ws_delta(s, v + 1);
        if j < s.len() && s[j] == ']' {
            Some((Seq::<CookieV>::empty(), (j + 1 - v) as nat))
        } else {
            match cookie_list(s, j) {
                Some((l, d)) => Some((l, (j + d - v) as nat)),
                None => None,
            }
        }
    } else {
        None
    }
}

/// Parse the members of the top-level object: `cookies` must hold a cookie
/// array; unknown keys (the timestamp among them) are skipped.
pub open spec fn cookie_doc_fields(s: Seq<char>, i: int, acc: Option<Seq<CookieV>>) -> Option<
    (Option<Seq<CookieV>>, nat),
>
    decreases rem(s, i),
{
    if !(0 <= i < s.len()) || s[i] != '"' {
        None
    } else {
        match str_body_len(s, i + 1) {
            None => None,
            Some(kd) => {
                let key = s.subrange(i + 1, i + kd);
                let c = i + 1 + kd + ws_delta(s, i + 1 + kd);
                if c < s.len() && s[c] == ':' {
                    let v = c + 1 + ws_delta(s, c + 1);
                    let parsed: Option<(Option<Seq<CookieV>>, nat)> = if key == "cookies"@ {
                        match cookies_value(s, v) {
                            Some((l, d)) => Some((Some(l), d)),
                            None => None,
                        }
                    } else {
                        match skip_value(s, v) {
                            Some(vd) => Some((acc, vd)),
                            None => None,
                        }
                    };
                    match parsed {
                        None => None,
                        Some((acc2, vd)) => {
                            let e = v + vd + ws_delta(s, v + vd);
                            if e < s.len() && s[e] == ',' {
                                let k = e + 1 + ws_delta(s, e + 1);
                                match cookie_doc_fields(s, k, acc2) {
                                    Some((a, d)) => Some((a, (k + d - i) as nat)),
                                    None => None,
                                }
                            } else if e < s.len() && s[e] == '}' {
                                Some((acc2, (e + 1 - i) as nat))
                            } else {
                                None
                            }
                        },
                    }
                } else {
                    None
                }
            },
        }
    }
}

/// The whole captured-cookies document.
pub open spec fn spec_parse_cookie_file(s: Seq<char>) -> Option<Seq<CookieV>> {
    let i = ws_delta(s, 0) as int;
    if i < s.len() && s[i] == '{' {
        let j = i + 1 + ws_delta(s, i + 1);
        if j < s.len() && s[j] == '}' {
            None
        } else {
            match cookie_doc_fields(s, j, None) {
                None => None,
                Some((acc, d)) => {
                    let e = j + d + ws_delta(s, j + d);
                    if e == s.len() {
                        match acc {
                            Some(l) => Some(l),
                            None => None,
                        }
                    } else {
                        None
                    }
                },
            }
        }
    } else {
        None
    }
}

struct CkAccE {
    name: Option<String>,
    value: Option<String>,
    domain: Option<String>,
}

impl View for CkAccE {
    type V = CkAcc;

    closed spec fn view(&self) -> CkAcc {
        CkAcc {
            name: match self.name {
                Some(ref s) => Some(s@),
                None => None,
            },
            value: match self.value {
                Some(ref s) => Some(s@),
                None => None,
            },
            domain: match self.domain {
                Some(ref s) => Some(s@),
                None => None,
            },
        }
    }
}

/// Parse one cookie field value at `v` under `key`.
#[verifier::spinoff_prover]
fn cookie_field_value_e(s: &str, key: &str, v: usize, n: usize, acc: CkAccE) -> (r: Option<
    (CkAccE, usize),
>)
    requires
        n == s@.len(),
        v <= n,
    ensures
        match r {
            Some((a, e)) => v < e <= n && cookie_field_value(s@, key@, v as int, acc@) == Some(
                (a@, (e - v) as nat),
            ),
            None => cookie_field_value(s@, key@, v as int, acc@) is None,
        },
{
    let is_name = str_eq(key, "name");
    let is_value = str_eq(key, "value");
    if is_name || is_value {
        if v < n && s.get_char(v) == '"' {
            match str_body_end(s, v + 1, n) {
                Some(after) => {
                    let content = String::from_str(s.substring_char(v + 1, after - 1));
                    proof {
                        assert(content@ == s@.subrange(v as int + 1, after as int - 1));
                    }
                    if is_name {
                        Some((CkAccE { name: Some(content), ..acc }, after))
                    } else {
                        Some((CkAccE { value: Some(content), ..acc }, after))
                    }
                },
                None => None,
            }
        } else {
            None
        }
    } else if str_eq(key, "domain") {
        if v < n && s.get_char(v) == '"' {
            match str_body_end(s, v + 1, n) {
                Some(after) => {
                    let content = String::from_str(s.substring_char(v + 1, after - 1));
                    proof {
                        assert(content@ == s@.subrange(v as int + 1, after as int - 1));
                    }
                    Some((CkAccE { domain: Some(content), ..acc }, after))
                },
                None => None,
            }
        } else if has_null_e(s, v, n) {
            Some((CkAccE { domain: None, ..acc }, v + 4))
        } else {
            None
        }
    } else {
        match skip_value_e(s, v, n) {
            Some(e2) => Some((acc, e2)),
            None => None,
        }
    }
}

/// Parse the members of one cookie object from its first key.
#[verifier::rlimit(100)]
#[verifier::spinoff_prover]
fn cookie_fields_e(s: &str, i: usize, n: usize, acc: CkAccE) -> (r: Option<(CkAccE, usize)>)
    requires
        n == s@.len(),
        i <= n,
    ensures
        match r {
            Some((a, e)) => i < e <= n && cookie_fields(s@, i as int, acc@) == Some(
                (a@, (e - i) as nat),
            ),
            None => cookie_fields(s@, i as int, acc@) is None,
        },
    decreases n - i,
{
    if i >= n || s.get_char(i) != '"' {
        return None;
    }
    let after_key = match str_body_end(s, i + 1, n) {
        Some(e) => e,
        None => {
            return None;
        },
    };
    let key = s.substring_char(i + 1, after_key - 1);
    proof {
        assert(key@ == s@.subrange(i as int + 1, after_key as int - 1));
    }
    let c = ws_end(s, after_key, n);
    if !(c < n && s.get_char(c) == ':') {
        return None;
    }
    let v = ws_end(s, c + 1, n);
    let (acc2, after_v) = match cookie_field_value_e(s, key, v, n, acc) {
        Some(x) => x,
        None => {
            return None;
        },
    };
    let e = ws_end(s, after_v, n);
    if e < n && s.get_char(e) == ',' {
        let k = ws_end(s, e + 1, n);
        match cookie_fields_e(s, k, n, acc2) {
            Some((a, e2)) => Some((a, e2)),
            None => None,
        }
    } else if e < n && s.get_char(e) == '}' {
        Some((acc2, e + 1))
    } else {
        None
    }
}

/// Parse one cookie object starting at its opening brace.
fn parse_cookie_e(s: &str, i: usize, n: usize) -> (r: Option<(Cookie, usize)>)
    requires
        n == s@.len(),
        i <= n,
    ensures
        match r {
            Some((c, e)) => i < e <= n && parse_cookie(s@, i as int) == Some(
                (c@, (e - i) as nat),
            ),
            None => parse_cookie(s@, i as int) is None,
        },
{
    if !(i < n && s.get_char(i) == '{') {
        return None;
    }
    let j = ws_end(s, i + 1, n);
    if j < n && s.get_char(j) == '}' {
        return None;
    }
    let empty = CkAccE { name: None, value: None, domain: None };
    proof {
        assert(empty@ == CkAcc::empty());
    }
    match cookie_fields_e(s, j, n, empty) {
        None => None,
        Some((acc, e)) => match (acc.name, acc.value) {
            (Some(name), Some(value)) => Some((Cookie { name, value, domain: acc.domain }, e)),
            _ => None,
        },
    }
}

/// Parse the elements of a non-empty cookie array from its first object.
fn cookie_list_e(s: &str, i: usize, n: usize) -> (r: Option<(Vec<Cookie>, usize)>)
    requires
        n == s@.len(),
        i <= n,
    ensures
        match r {
            Some((v, e)) => i < e <= n && cookie_list(s@, i as int) == Some(
                (cookie_views(v@), (e - i) as nat),
            ),
            None => cookie_list(s@, i as int) is None,
        },
    decreases n - i,
{
    if i >= n {
        return None;
    }
    let (p, after_p) = match parse_cookie_e(s, i, n) {
        Some(x) => x,
        None => {
            return None;
        },
    };
    let ghost pv = p@;
    let e = ws_end(s, after_p, n);
    if e < n && s.get_char(e) == ',' {
        let k = ws_end(s, e + 1, n);
        match cookie_list_e(s, k, n) {
            Some((mut v, e2)) => {
                let ghost restv = cookie_views(v@);
                v.insert(0, p);
                proof {
                    assert(cookie_views(v@) =~= seq![pv] + restv);
                }
                Some((v, e2))
            },
            None => None,
        }
    } else if e < n && s.get_char(e) == ']' {
        let mut v: Vec<Cookie> = Vec::new();
        v.push(p);
        proof {
            assert(cookie_views(v@) =~= seq![pv]);
        }
        Some((v, e + 1))
    } else {
        None
    }
}

/// Parse a `cookies` value starting at `v`.
fn cookies_value_e(s: &str, v: usize, n: usize) -> (r: Option<(Vec<Cookie>, usize)>)
    requires
        n == s@.len(),
        v <= n,
    ensures
        match r {
            Some((l, e)) => v < e <= n && cookies_value(s@, v as int) == Some(
                (cookie_views(l@), (e - v) as nat),
            ),
            None => cookies_value(s@, v as int) is None,
        },
{
    if v < n && s.get_char(v) == '[' {
        let j = ws_end(s, v + 1, n);
        if j < n && s.get_char(j) == ']' {
            let list: Vec<Cookie> = Vec::new();
            proof {
                assert(cookie_views(list@) =~= Seq::<CookieV>::empty());
            }
            Some((list, j + 1))
        } else {
            match cookie_list_e(s, j, n) {
                Some((l, e2)) => Some((l, e2)),
                None => None,
            }
        }
    } else {
        None
    }
}

/// Parse the members of the top-level object from its first key.
#[verifier::rlimit(100)]
#[verifier::spinoff_prover]
fn cookie_doc_fields_e(s: &str, i: usize, n: usize, acc: Option<Vec<Cookie>>) -> (r: Option<
    (Option<Vec<Cookie>>, usize),
>)
    requires
        n == s@.len(),
        i <= n,
    ensures
        match r {
            Some((a, e)) => i < e <= n && cookie_doc_fields(s@, i as int, opt_views(acc))
                == Some((opt_views(a), (e - i) as nat)),
            None => cookie_doc_fields(s@, i as int, opt_views(acc)) is None,
        },
    decreases n - i,
{
    if i >= n || s.get_char(i) != '"' {
        return None;
    }
    let after_key = match str_body_end(s, i + 1, n) {
        Some(e) => e,
        None => {
            return None;
        },
    };
    let key = s.substring_char(i + 1, after_key - 1);
    proof {
        assert(key@ == s@.subrange(i as int + 1, after_key as int - 1));
    }
    let c = ws_end(s, after_key, n);
    if !(c < n && s.get_char(c) == ':') {
        return None;
    }
    let v = ws_end(s, c + 1, n);
    let step: Option<(Option<Vec<Cookie>>, usize)> = if str_eq(key, "cookies") {
        match cookies_value_e(s, v, n) {
            Some((l, e2)) => Some((Some(l), e2)),
            None => None,
        }
    } else {
        match skip_value_e(s, v, n) {
            Some(e2) => Some((acc, e2)),
            None => None,
        }
    };
    let (acc2, after_v) = match step {
        Some(x) => x,
        None => {
            return None;
        },
    };
    let e = ws_end(s, after_v, n);
    if e < n && s.get_char(e) == ',' {
        let k = ws_end(s, e + 1, n);
        match cookie_doc_fields_e(s, k, n, acc2) {
            Some((a, e2)) => Some((a, e2)),
            None => None,
        }
    } else if e < n && s.get_char(e) == '}' {
        Some((acc2, e + 1))
    } else {
        None
    }
}

/// The ghost views of an optional cookie list.
pub open spec fn opt_views(v: Option<Vec<Cookie>>) -> Option<Seq<CookieV>> {
    match v {
        Some(l) => Some(cookie_views(l@)),
        None => None,
    }
}

/// Decode a captured-cookies document. Returns the cookie list exactly
/// when [`spec_parse_cookie_file`] accepts the text, and a
/// [`ParseError`] — never a panic — otherwise.
pub fn parse_cookie_file(s: &str) -> (r: Result<Vec<Cookie>, ParseError>)
    ensures
        match r {
            Ok(cs) => spec_parse_cookie_file(s@) == Some(cookie_views(cs@)),
            Err(_) => spec_parse_cookie_file(s@) is None,
        },
{
    let n = s.unicode_len();
    let i = ws_end(s, 0, n);
    if !(i < n && s.get_char(i) == '{') {
        return Err(ParseError);
    }
    let j = ws_end(s, i + 1, n);
    if j < n && s.get_char(j) == '}' {
        return Err(ParseError);
    }
    match cookie_doc_fields_e(s, j, n, None) {
        None => Err(ParseError),
        Some((acc, after)) => {
            let e = ws_end(s, after, n);
            if e == n {
                match acc {
                    Some(l) => Ok(l),
                    None => Err(ParseError),
                }
            } else {
                Err(ParseError)
            }
        },
    }
}

} // verus!
