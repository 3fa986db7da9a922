//! Response parser: decodes the vendor's JSON inventory document into a
//! snapshot, tolerating unknown fields and rejecting malformed payloads
//! with a [`ParseError`](crate::model::ParseError) instead of panicking.
//!
//! The grammar is the ghost reference: a family of spec functions that scan
//! a character sequence and say exactly how many characters each construct
//! consumes. The executable parser returns precisely what they describe.
//!
//! Conventions, chosen once and documented here:
//! - string contents are kept verbatim (escape pairs such as `\"` are not
//!   decoded, they only guard the scan for the closing quote);
//! - numbers are scanned loosely (a sign or digit followed by any run of
//!   number characters) and never interpreted — every field this parser
//!   extracts is a JSON string or a boolean;
//! - a duplicated key keeps its last occurrence;
//! - the required fields are `success` (a boolean) and `listMap` (an array
//!   of product objects, each with the five string fields `is_active`,
//!   `product_url`, `price`, `fe_sku` and `locale`); anything else is
//!   skipped unread.
use vstd::prelude::*;
use vstd::string::*;

use crate::model::{FeInventoryResponse, FeProductInfo, ParseError, ProductV, SnapshotV};

verus! {

/// Characters still unread at position `i`.
pub open spec fn rem(s: Seq<char>, i: int) -> nat {
    if 0 <= i <= s.len() {
        (s.len() - i) as nat
    } else {
        0
    }
}

/// JSON whitespace.
pub open spec fn is_ws(c: char) -> bool {
    c == ' ' || c == '\t' || c == '\n' || c == '\r'
}

pub open spec fn is_digit(c: char) -> bool {
    '0' as u32 <= c as u32 && c as u32 <= '9' as u32
}

/// A character that may appear inside a number once it has begun.
pub open spec fn is_num_char(c: char) -> bool {
    is_digit(c) || c == '-' || c == '+' || c == '.' || c == 'e' || c == 'E'
}

/// The length of the whitespace run starting at `i`.
pub open spec fn ws_delta(s: Seq<char>, i: int) -> nat
    decreases rem(s, i),
{
    if 0 <= i < s.len() && is_ws(s[i]) {
        (1 + ws_delta(s, i + 1)) as nat
    } else {
        0
    }
}

/// The length of the number-character run starting at `i`.
pub open spec fn num_delta(s: Seq<char>, i: int) -> nat
    decreases rem(s, i),
{
    if 0 <= i < s.len() && is_num_char(s[i]) {
        (1 + num_delta(s, i + 1)) as nat
    } else {
        0
    }
}

/// Scans a string body beginning at `i` (the character after the opening
/// quote). Yields the number of characters consumed, closing quote
/// included; the raw contents are `s.subrange(i, i + d - 1)`. A backslash
/// protects the next character from ending the scan; nothing is decoded.
pub open spec fn str_body_len(s: Seq<char>, i: int) -> Option<nat>
    decreases rem(s, i),
{
    if !(0 <= i < s.len()) {
        None
    } else if s[i] == '"' {
        Some(1nat)
    } else if s[i] == '\\' {
        if i + 1 < s.len() {
            match str_body_len(s, i + 2) {
                Some(d) => Some((2 + d) as nat),
                None => None,
            }
        } else {
            None
        }
    } else {
        match str_body_len(s, i + 1) {
            Some(d) => Some((1 + d) as nat),
            None => None,
        }
    }
}

pub open spec fn has_true(s: Seq<char>, i: int) -> bool {
    0 <= i && i + 4 <= s.len() && s[i] == 't' && s[i + 1] == 'r' && s[i + 2] == 'u' && s[i + 3]
        == 'e'
}

pub open spec fn has_false(s: Seq<char>, i: int) -> bool {
    0 <= i && i + 5 <= s.len() && s[i] == 'f' && s[i + 1] == 'a' && s[i + 2] == 'l' && s[i + 3]
        == 's' && s[i + 4] == 'e'
}

pub open spec fn has_null(s: Seq<char>, i: int) -> bool {
    0 <= i && i + 4 <= s.len() && s[i] == 'n' && s[i + 1] == 'u' && s[i + 2] == 'l' && s[i + 3]
        == 'l'
}

/// Characters consumed by one JSON value starting exactly at `i`.
pub open spec fn skip_value(s: Seq<char>, i: int) -> Option<nat>
    decreases rem(s, i), 0int,
{
    if !(0 <= i < s.len()) {
        None
    } else if s[i] == '"' {
        match str_body_len(s, i + 1) {
            Some(d) => Some((1 + d) as nat),
            None => None,
        }
    } else if s[i] == '{' {
        let j = i + 1 + ws_delta(s, i + 1);
        if j < s.len() && s[j] == '}' {
            Some((j + 1 - i) as nat)
        } else {
            match skip_members(s, j) {
                Some(d) => Some((j + d - i) as nat),
                None => None,
            }
        }
    } else if s[i] == '[' {
        let j = i + 1 + ws_delta(s, i + 1);
        if j < s.len() && s[j] == ']' {
            Some((j + 1 - i) as nat)
        } else {
            match skip_elements(s, j) {
                Some(d) => Some((j + d - i) as nat),
                None => None,
            }
        }
    } else if has_true(s, i) {
        Some(4nat)
    } else if has_false(s, i) {
        Some(5nat)
    } else if has_null(s, i) {
        Some(4nat)
    } else if s[i] == '-' || is_digit(s[i]) {
        Some((1 + num_delta(s, i + 1)) as nat)
    } else {
        None
    }
}

/// Characters consumed from the first key of a non-empty member list up to
/// and including the object's closing brace.
pub open spec fn skip_members(s: Seq<char>, i: int) -> Option<nat>
    decreases rem(s, i), 1int,
{
    if !(0 <= i < s.len()) || s[i] != '"' {
        None
    } else {
        match str_body_len(s, i + 1) {
            None => None,
            Some(kd) => {
                let c = i + 1 + kd + ws_delta(s, i + 1 + kd);
                if c < s.len() && s[c] == ':' {
                    let v = c + 1 + ws_delta(s, c + 1);
                    match skip_value(s, v) {
                        None => None,
                        Some(vd) => {
                            let e = v + vd + ws_delta(s, v + vd);
                            if e < s.len() && s[e] == ',' {
                                let k = e + 1 + ws_delta(s, e + 1);
                                match skip_members(s, k) {
                                    Some(d) => Some((k + d - i) as nat),
                                    None => None,
                                }
                            } else if e < s.len() && s[e] == '}' {
                                Some((e + 1 - i) as nat)
                            } else {
                                None
                            }
                        },
                    }
                } else {
                    None
                }
            },
        }
    }
}

/// Characters consumed from the first element of a non-empty element list
/// up to and including the array's closing bracket.
pub open spec fn skip_elements(s: Seq<char>, i: int) -> Option<nat>
    decreases rem(s, i), 1int,
{
    if !(0 <= i < s.len()) {
        None
    } else {
        match skip_value(s, i) {
        None => None,
        Some(vd) => {
            let e = i + vd + ws_delta(s, i + vd);
            if e < s.len() && s[e] == ',' {
                let k = e + 1 + ws_delta(s, e + 1);
                match skip_elements(s, k) {
                    Some(d) => Some((k + d - i) as nat),
                    None => None,
                }
            } else if e < s.len() && s[e] == ']' {
                Some((e + 1 - i) as nat)
            } else {
                None
            }
        },
        }
    }
}

/// The fields of one product object collected so far.
#[verifier::ext_equal]
pub struct RecAcc {
    pub is_active: Option<Seq<char>>,
    pub product_url: Option<Seq<char>>,
    pub price: Option<Seq<char>>,
    pub fe_sku: Option<Seq<char>>,
    pub locale: Option<Seq<char>>,
}

impl RecAcc {
    pub open spec fn empty() -> RecAcc {
        RecAcc { is_active: None, product_url: None, price: None, fe_sku: None, locale: None }
    }
}

/// Whether `key` is one of the five required product fields.
pub open spec fn is_record_key(key: Seq<char>) -> bool {
    key == "is_active"@ || key == "product_url"@ || key == "price"@ || key == "fe_sku"@ || key
        == "locale"@
}

/// Store a required field; a duplicated key keeps its last occurrence.
pub open spec fn set_record_field(acc: RecAcc, key: Seq<char>, content: Seq<char>) -> RecAcc {
    if key == "is_active"@ {
        RecAcc { is_active: Some(content), ..acc }
    } else if key == "product_url"@ {
        RecAcc { product_url: Some(content), ..acc }
    } else if key == "price"@ {
        RecAcc { price: Some(content), ..acc }
    } else if key == "fe_sku"@ {
        RecAcc { fe_sku: Some(content), ..acc }
    } else if key == "locale"@ {
        RecAcc { locale: Some(content), ..acc }
    } else {
        acc
    }
}

/// Parse the members of one product object, from its first key up to and
/// including the closing brace: required keys must hold strings and are
/// collected; unknown keys are skipped unread.
pub open spec fn record_fields(s: Seq<char>, i: int, acc: RecAcc) -> Option<(RecAcc, nat)>
    decreases rem(s, i),
{
    if !(0 <= i < s.len()) || s[i] != '"' {
        None
    } else {
        match str_body_len(s, i + 1) {
            None => None,
            Some(kd) => {
                let key = s.subrange(i + 1, i + kd);
                let c = i + 1 + kd + ws_delta(s, i + 1 + kd);
                if c < s.len() && s[c] == ':' {
                    let v = c + 1 + ws_delta(s, c + 1);
                    if is_record_key(key) {
                        if v < s.len() && s[v] == '"' {
                            match str_body_len(s, v + 1) {
                                None => None,
                                Some(vd) => {
                                    let acc2 = set_record_field(
                                        acc,
                                        key,
                                        s.subrange(v + 1, v + vd),
                                    );
                                    let e = v + 1 + vd + ws_delta(s, v + 1 + vd);
                                    if e < s.len() && s[e] == ',' {
                                        let k = e + 1 + ws_delta(s, e + 1);
                                        match record_fields(s, k, acc2) {
                                            Some((a, d)) => Some((a, (k + d - i) as nat)),
                                            None => None,
                                        }
                                    } else if e < s.len() && s[e] == '}' {
                                        Some((acc2, (e + 1 - i) as nat))
                                    } else {
                                        None
                                    }
                                },
                            }
                        } else {
                            None
                        }
                    } else {
                        match skip_value(s, v) {
                            None => None,
                            Some(vd) => {
                                let e = v + vd + ws_delta(s, v + vd);
                                if e < s.len() && s[e] == ',' {
                                    let k = e + 1 + ws_delta(s, e + 1);
                                    match record_fields(s, k, acc) {
                                        Some((a, d)) => Some((a, (k + d - i) as nat)),
                                        None => None,
                                    }
                                } else if e < s.len() && s[e] == '}' {
                                    Some((acc, (e + 1 - i) as nat))
                                } else {
                                    None
                                }
                            },
                        }
                    }
                } else {
                    None
                }
            },
        }
    }
}

/// Parse one product object. All five required fields must be present.
pub open spec fn parse_record(s: Seq<char>, i: int) -> Option<(ProductV, nat)> {
    if !(0 <= i < s.len() && s[i] == '{') {
        None
    } else {
        let j = i + 1 + ws_delta(s, i + 1);
        if j < s.len() && s[j] == '}' {
            None
        } else {
            match record_fields(s, j, RecAcc::empty()) {
                None => None,
                Some((acc, d)) => match (acc.is_active, acc.product_url, acc.price, acc.fe_sku, acc.locale) {
                    (Some(a), Some(u), Some(p), Some(k), Some(l)) => Some(
                        (
                            ProductV {
                                is_active: a,
                                product_url: u,
                                price: p,
                                fe_sku: k,
                                locale: l,
                            },
                            (j + d - i) as nat,
                        ),
                    ),
                    _ => None,
                },
            }
        }
    }
}

/// Parse the elements of a non-empty product array, from its first record
/// up to and including the closing bracket.
pub open spec fn records_list(s: Seq<char>, i: int) -> Option<(Seq<ProductV>, nat)>
    decreases rem(s, i),
{
    if !(0 <= i < s.len()) {
        None
    } else {
        match parse_record(s, i) {
            None => None,
            Some((p, vd)) => {
                let e = i + vd + ws_delta(s, i + vd);
                if e < s.len() && s[e] == ',' {
                    let k = e + 1 + ws_delta(s, e + 1);
                    match records_list(s, k) {
                        Some((rest, d)) => Some((seq![p] + rest, (k + d - i) as nat)),
                        None => None,
                    }
                } else if e < s.len() && s[e] == ']' {
                    Some((seq![p], (e + 1 - i) as nat))
                } else {
                    None
                }
            },
        }
    }
}

/// The top-level fields collected so far.
#[verifier::ext_equal]
pub struct DocAcc {
    pub success: Option<bool>,
    pub list: Option<Seq<ProductV>>,
}

impl DocAcc {
    pub open spec fn empty() -> DocAcc {
        DocAcc { success: None, list: None }
    }
}

/// The `listMap` value: an array of product objects, and how many
/// characters it consumes.
pub open spec fn list_map_value(s: Seq<char>, v: int) -> Option<(Seq<ProductV>, nat)> {
    if 0 <= v < s.len() && s[v] == '[' {
        let j = v + 1 + ws_delta(s, v + 1);
        if j < s.len() && s[j] == ']' {
            Some((Seq::<ProductV>::empty(), (j + 1 - v) as nat))
        } else {
            match records_list(s, j) {
                Some((l, d)) => Some((l, (j + d - v) as nat)),
                None => None,
            }
        }
    } else {
        None
    }
}

/// One top-level field value at `v` under `key`: `success` takes a boolean
/// literal, `listMap` a product array, anything else is skipped unread.
pub open spec fn doc_field_value(s: Seq<char>, key: Seq<char>, v: int, acc: DocAcc) -> Option<
    (DocAcc, nat),
> {
    if key == "success"@ {
        if has_true(s, v) {
            Some((DocAcc { success: Some(true), ..acc }, 4nat))
        } else if has_false(s, v) {
            Some((DocAcc { success: Some(false), ..acc }, 5nat))
        } else {
            None
        }
    } else if key == "listMap"@ {
        match list_map_value(s, v) {
            Some((l, d)) => Some((DocAcc { list: Some(l), ..acc }, d)),
            None => None,
        }
    } else {
        match skip_value(s, v) {
            Some(vd) => Some((acc, vd)),
            None => None,
        }
    }
}

/// Parse the members of the top-level object: `success` must hold a boolean
/// literal, `listMap` an array of product objects; unknown keys are skipped.
pub open spec fn doc_fields(s: Seq<char>, i: int, acc: DocAcc) -> Option<(DocAcc, nat)>
    decreases rem(s, i),
{
    if !(0 <= i < s.len()) || s[i] != '"' {
        None
    } else {
        match str_body_len(s, i + 1) {
            None => None,
            Some(kd) => {
                let key = s.subrange(i + 1, i + kd);
                let c = i + 1 + kd + ws_delta(s, i + 1 + kd);
                if c < s.len() && s[c] == ':' {
                    let v = c + 1 + ws_delta(s, c + 1);
                    match doc_field_value(s, key, v, acc) {
                        None => None,
                        Some((acc2, vd)) => {
                            let e = v + vd + ws_delta(s, v + vd);
                            if e < s.len() && s[e] == ',' {
                                let k = e + 1 + ws_delta(s, e + 1);
                                match doc_fields(s, k, acc2) {
                                    Some((a, d)) => Some((a, (k + d - i) as nat)),
                                    None => None,
                                }
                            } else if e < s.len() && s[e] == '}' {
                                Some((acc2, (e + 1 - i) as nat))
                            } else {
                                None
                            }
                        },
                    }
                } else {
                    None
                }
            },
        }
    }
}

/// The whole document: optional surrounding whitespace, one top-level
/// object holding (at least) a boolean `success` and a product array
/// `listMap`, and nothing after it.
pub open spec fn spec_parse(s: Seq<char>) -> Option<SnapshotV> {
    let i = ws_delta(s, 0) as int;
    if i < s.len() && s[i] == '{' {
        let j = i + 1 + ws_delta(s, i + 1);
        if j < s.len() && s[j] == '}' {
            None
        } else {
            match doc_fields(s, j, DocAcc::empty()) {
                None => None,
                Some((acc, d)) => {
                    let e = j + d + ws_delta(s, j + d);
                    if e == s.len() {
                        match (acc.success, acc.list) {
                            (Some(b), Some(l)) => Some(SnapshotV { success: b, list: l }),
                            _ => None,
                        }
                    } else {
                        None
                    }
                },
            }
        }
    } else {
        None
    }
}

pub(crate) fn str_eq(a: &str, b: &str) -> (r: bool)
    ensures
        r == (a@ == b@),
{
    let sa = String::from_str(a);
    let sb = String::from_str(b);
    sa == sb
}

fn is_ws_char(c: char) -> (r: bool)
    ensures
        r == is_ws(c),
{
    c == ' ' || c == '\t' || c == '\n' || c == '\r'
}

fn is_digit_char(c: char) -> (r: bool)
    ensures
        r == is_digit(c),
{
    '0' as u32 <= c as u32 && c as u32 <= '9' as u32
}

fn is_num_char_e(c: char) -> (r: bool)
    ensures
        r == is_num_char(c),
{
    is_digit_char(c) || c == '-' || c == '+' || c == '.' || c == 'e' || c == 'E'
}

/// The position right after the whitespace run at `i`.
pub(crate) fn ws_end(s: &str, i: usize, n: usize) -> (r: usize)
    requires
        n == s@.len(),
        i <= n,
    ensures
        i <= r <= n,
        r == i + ws_delta(s@, i as int),
    decreases n - i,
{
    if i < n && is_ws_char(s.get_char(i)) {
        ws_end(s, i + 1, n)
    } else {
        i
    }
}

/// The position right after the number-character run at `i`.
fn num_end(s: &str, i: usize, n: usize) -> (r: usize)
    requires
        n == s@.len(),
        i <= n,
    ensures
        i <= r <= n,
        r == i + num_delta(s@, i as int),
    decreases n - i,
{
    if i < n && is_num_char_e(s.get_char(i)) {
        num_end(s, i + 1, n)
    } else {
        i
    }
}

/// The position right after a string body (closing quote included) that
/// begins at `i`, or `None` when the string never closes.
pub(crate) fn str_body_end(s: &str, i: usize, n: usize) -> (r: Option<usize>)
    requires
        n == s@.len(),
        i <= n,
    ensures
        match r {
            Some(e) => i < e <= n && str_body_len(s@, i as int) == Some((e - i) as nat),
            None => str_body_len(s@, i as int) is None,
        },
    decreases n - i,
{
    if i >= n {
        return None;
    }
    let c = s.get_char(i);
    if c == '"' {
        Some(i + 1)
    } else if c == '\\' {
        if i + 1 < n {
            match str_body_end(s, i + 2, n) {
                Some(e) => Some(e),
                None => None,
            }
        } else {
            None
        }
    } else {
        match str_body_end(s, i + 1, n) {
            Some(e) => Some(e),
            None => None,
        }
    }
}

fn has_true_e(s: &str, i: usize, n: usize) -> (r: bool)
    requires
        n == s@.len(),
        i <= n,
    ensures
        r == has_true(s@, i as int),
{
    n - i >= 4 && s.get_char(i) == 't' && s.get_char(i + 1) == 'r' && s.get_char(i + 2) == 'u'
        && s.get_char(i + 3) == 'e'
}

fn has_false_e(s: &str, i: usize, n: usize) -> (r: bool)
    requires
        n == s@.len(),
        i <= n,
    ensures
        r == has_false(s@, i as int),
{
    n - i >= 5 && s.get_char(i) == 'f' && s.get_char(i + 1) == 'a' && s.get_char(i + 2) == 'l'
        && s.get_char(i + 3) == 's' && s.get_char(i + 4) == 'e'
}

pub(crate) fn has_null_e(s: &str, i: usize, n: usize) -> (r: bool)
    requires
        n == s@.len(),
        i <= n,
    ensures
        r == has_null(s@, i as int),
{
    n - i >= 4 && s.get_char(i) == 'n' && s.get_char(i + 1) == 'u' && s.get_char(i + 2) == 'l'
        && s.get_char(i + 3) == 'l'
}

/// The position right after the value that starts at `i`.
pub(crate) fn skip_value_e(s: &str, i: usize, n: usize) -> (r: Option<usize>)
    requires
        n == s@.len(),
        i <= n,
    ensures
        match r {
            Some(e) => i < e <= n && skip_value(s@, i as int) == Some((e - i) as nat),
            None => skip_value(s@, i as int) is None,
        },
    decreases n - i, 0int,
{
    if i >= n {
        return None;
    }
    let c = s.get_char(i);
    if c == '"' {
        match str_body_end(s, i + 1, n) {
            Some(e) => Some(e),
            None => None,
        }
    } else if c == '{' {
        let j = ws_end(s, i + 1, n);
        if j < n && s.get_char(j) == '}' {
            Some(j + 1)
        } else {
            match skip_members_e(s, j, n) {
                Some(e) => Some(e),
                None => None,
            }
        }
    } else if c == '[' {
        let j = ws_end(s, i + 1, n);
        if j < n && s.get_char(j) == ']' {
            Some(j + 1)
        } else {
            match skip_elements_e(s, j, n) {
                Some(e) => Some(e),
                None => None,
            }
        }
    } else if has_true_e(s, i, n) {
        Some(i + 4)
    } else if has_false_e(s, i, n) {
        Some(i + 5)
    } else if has_null_e(s, i, n) {
        Some(i + 4)
    } else if c == '-' || is_digit_char(c) {
        Some(num_end(s, i + 1, n))
    } else {
        None
    }
}

/// The position right after an object's closing brace, entered at its first
/// key.
fn skip_members_e(s: &str, i: usize, n: usize) -> (r: Option<usize>)
    requires
        n == s@.len(),
        i <= n,
    ensures
        match r {
            Some(e) => i < e <= n && skip_members(s@, i as int) == Some((e - i) as nat),
            None => skip_members(s@, i as int) is None,
        },
    decreases n - i, 1int,
{
    if i >= n || s.get_char(i) != '"' {
        return None;
    }
    let after_key = match str_body_end(s, i + 1, n) {
        Some(e) => e,
        None => {
            return None;
        },
    };
    let c = ws_end(s, after_key, n);
    if !(c < n && s.get_char(c) == ':') {
        return None;
    }
    let v = ws_end(s, c + 1, n);
    let after_v = match skip_value_e(s, v, n) {
        Some(e) => e,
        None => {
            return None;
        },
    };
    let e = ws_end(s, after_v, n);
    if e < n && s.get_char(e) == ',' {
        let k = ws_end(s, e + 1, n);
        match skip_members_e(s, k, n) {
            Some(e2) => Some(e2),
            None => None,
        }
    } else if e < n && s.get_char(e) == '}' {
        Some(e + 1)
    } else {
        None
    }
}

/// The position right after an array's closing bracket, entered at its
/// first element.
fn skip_elements_e(s: &str, i: usize, n: usize) -> (r: Option<usize>)
    requires
        n == s@.len(),
        i <= n,
    ensures
        match r {
            Some(e) => i < e <= n && skip_elements(s@, i as int) == Some((e - i) as nat),
            None => skip_elements(s@, i as int) is None,
        },
    decreases n - i, 1int,
{
    if i >= n {
        return None;
    }
    let after_v = match skip_value_e(s, i, n) {
        Some(e) => e,
        None => {
            return None;
        },
    };
    let e = ws_end(s, after_v, n);
    if e < n && s.get_char(e) == ',' {
        let k = ws_end(s, e + 1, n);
        match skip_elements_e(s, k, n) {
            Some(e2) => Some(e2),
            None => None,
        }
    } else if e < n && s.get_char(e) == ']' {
        Some(e + 1)
    } else {
        None
    }
}

/// The fields of one product object collected so far, as owned strings.
struct RecAccE {
    is_active: Option<String>,
    product_url: Option<String>,
    price: Option<String>,
    fe_sku: Option<String>,
    locale: Option<String>,
}

impl View for RecAccE {
    type V = RecAcc;

    closed spec fn view(&self) -> RecAcc {
        RecAcc {
            is_active: match self.is_active {
                Some(ref s) => Some(s@),
                None => None,
            },
            product_url: match self.product_url {
                Some(ref s) => Some(s@),
                None => None,
            },
            price: match self.price {
                Some(ref s) => Some(s@),
                None => None,
            },
            fe_sku: match self.fe_sku {
                Some(ref s) => Some(s@),
                None => None,
            },
            locale: match self.locale {
                Some(ref s) => Some(s@),
                None => None,
            },
        }
    }
}

fn is_record_key_e(key: &str) -> (r: bool)
    ensures
        r == is_record_key(key@),
{
    str_eq(key, "is_active") || str_eq(key, "product_url") || str_eq(key, "price") || str_eq(
        key,
        "fe_sku",
    ) || str_eq(key, "locale")
}

fn set_record_field_e(acc: RecAccE, key: &str, content: String) -> (r: RecAccE)
    ensures
        r@ == set_record_field(acc@, key@, content@),
{
    if str_eq(key, "is_active") {
        RecAccE { is_active: Some(content), ..acc }
    } else if str_eq(key, "product_url") {
        RecAccE { product_url: Some(content), ..acc }
    } else if str_eq(key, "price") {
        RecAccE { price: Some(content), ..acc }
    } else if str_eq(key, "fe_sku") {
        RecAccE { fe_sku: Some(content), ..acc }
    } else if str_eq(key, "locale") {
        RecAccE { locale: Some(content), ..acc }
    } else {
        acc
    }
}

/// Parse the members of one product object from its first key, collecting
/// required fields.
#[verifier::rlimit(100)]
#[verifier::spinoff_prover]
fn record_fields_e(s: &str, i: usize, n: usize, acc: RecAccE) -> (r: Option<(RecAccE, usize)>)
    requires
        n == s@.len(),
        i <= n,
    ensures
        match r {
            Some((a, e)) => i < e <= n && record_fields(s@, i as int, acc@) == Some(
                (a@, (e - i) as nat),
            ),
            None => record_fields(s@, i as int, acc@) is None,
        },
    decreases n - i,
{
    if i >= n || s.get_char(i) != '"' {
        return None;
    }
    let after_key = match str_body_end(s, i + 1, n) {
        Some(e) => e,
        None => {
            return None;
        },
    };
    let key = s.substring_char(i + 1, after_key - 1);
    proof {
        assert(key@ == s@.subrange(i as int + 1, after_key as int - 1));
    }
    let c = ws_end(s, after_key, n);
    if !(c < n && s.get_char(c) == ':') {
        return None;
    }
    let v = ws_end(s, c + 1, n);
    if is_record_key_e(key) {
        if v < n && s.get_char(v) == '"' {
            let after_content = match str_body_end(s, v + 1, n) {
                Some(e) => e,
                None => {
                    return None;
                },
            };
            let content = String::from_str(s.substring_char(v + 1, after_content - 1));
            proof {
                assert(content@ == s@.subrange(v as int + 1, after_content as int - 1));
            }
            let acc2 = set_record_field_e(acc, key, content);
            let e = ws_end(s, after_content, n);
            if e < n && s.get_char(e) == ',' {
                let k = ws_end(s, e + 1, n);
                match record_fields_e(s, k, n, acc2) {
                    Some((a, e2)) => Some((a, e2)),
                    None => None,
                }
            } else if e < n && s.get_char(e) == '}' {
                Some((acc2, e + 1))
            } else {
                None
            }
        } else {
            None
        }
    } else {
        let after_v = match skip_value_e(s, v, n) {
            Some(e) => e,
            None => {
                return None;
            },
        };
        let e = ws_end(s, after_v, n);
        if e < n && s.get_char(e) == ',' {
            let k = ws_end(s, e + 1, n);
            match record_fields_e(s, k, n, acc) {
                Some((a, e2)) => Some((a, e2)),
                None => None,
            }
        } else if e < n && s.get_char(e) == '}' {
            Some((acc, e + 1))
        } else {
            None
        }
    }
}

/// Parse one product object starting at its opening brace.
fn parse_record_e(s: &str, i: usize, n: usize) -> (r: Option<(FeProductInfo, usize)>)
    requires
        n == s@.len(),
        i <= n,
    ensures
        match r {
            Some((p, e)) => i < e <= n && parse_record(s@, i as int) == Some(
                (p@, (e - i) as nat),
            ),
            None => parse_record(s@, i as int) is None,
        },
{
    if !(i < n && s.get_char(i) == '{') {
        return None;
    }
    let j = ws_end(s, i + 1, n);
    if j < n && s.get_char(j) == '}' {
        return None;
    }
    let empty = RecAccE { is_active: None, product_url: None, price: None, fe_sku: None, locale: None };
    proof {
        assert(empty@ == RecAcc::empty());
    }
    match record_fields_e(s, j, n, empty) {
        None => None,
        Some((acc, e)) => match (acc.is_active, acc.product_url, acc.price, acc.fe_sku, acc.locale) {
            (Some(a), Some(u), Some(p), Some(k), Some(l)) => Some(
                (
                    FeProductInfo {
                        is_active: a,
                        product_url: u,
                        price: p,
                        fe_sku: k,
                        locale: l,
                    },
                    e,
                ),
            ),
            _ => None,
        },
    }
}

/// Parse the elements of a non-empty product array from its first record.
fn records_list_e(s: &str, i: usize, n: usize) -> (r: Option<(Vec<FeProductInfo>, usize)>)
    requires
        n == s@.len(),
        i <= n,
    ensures
        match r {
            Some((v, e)) => i < e <= n && records_list(s@, i as int) == Some(
                (v@.map_values(|p: FeProductInfo| p@), (e - i) as nat),
            ),
            None => records_list(s@, i as int) is None,
        },
    decreases n - i,
{
    if i >= n {
        return None;
    }
    let (p, after_p) = match parse_record_e(s, i, n) {
        Some(x) => x,
        None => {
            return None;
        },
    };
    let ghost pv = p@;
    let e = ws_end(s, after_p, n);
    if e < n && s.get_char(e) == ',' {
        let k = ws_end(s, e + 1, n);
        match records_list_e(s, k, n) {
            Some((mut v, e2)) => {
                let ghost restv = v@.map_values(|q: FeProductInfo| q@);
                v.insert(0, p);
                proof {
                    assert(v@.map_values(|q: FeProductInfo| q@) =~= seq![pv] + restv);
                }
                Some((v, e2))
            },
            None => None,
        }
    } else if e < n && s.get_char(e) == ']' {
        let mut v: Vec<FeProductInfo> = Vec::new();
        v.push(p);
        proof {
            assert(v@.map_values(|q: FeProductInfo| q@) =~= seq![pv]);
        }
        Some((v, e + 1))
    } else {
        None
    }
}

/// The top-level fields collected so far.
struct DocAccE {
    success: Option<bool>,
    list: Option<Vec<FeProductInfo>>,
}

impl View for DocAccE {
    type V = DocAcc;

    closed spec fn view(&self) -> DocAcc {
        DocAcc {
            success: self.success,
            list: match self.list {
                Some(ref v) => Some(v@.map_values(|p: FeProductInfo| p@)),
                None => None,
            },
        }
    }
}

/// Parse a `listMap` value starting at `v`.
fn list_map_value_e(s: &str, v: usize, n: usize) -> (r: Option<(Vec<FeProductInfo>, usize)>)
    requires
        n == s@.len(),
        v <= n,
    ensures
        match r {
            Some((l, e)) => v < e <= n && list_map_value(s@, v as int) == Some(
                (l@.map_values(|p: FeProductInfo| p@), (e - v) as nat),
            ),
            None => list_map_value(s@, v as int) is None,
        },
{
    if v < n && s.get_char(v) == '[' {
        let j = ws_end(s, v + 1, n);
        if j < n && s.get_char(j) == ']' {
            let list: Vec<FeProductInfo> = Vec::new();
            proof {
                assert(list@.map_values(|p: FeProductInfo| p@) =~= Seq::<ProductV>::empty());
            }
            Some((list, j + 1))
        } else {
            match records_list_e(s, j, n) {
                Some((l, e2)) => Some((l, e2)),
                None => None,
            }
        }
    } else {
        None
    }
}

/// Parse one top-level field value at `v` under `key`.
#[verifier::spinoff_prover]
fn doc_field_value_e(s: &str, key: &str, v: usize, n: usize, acc: DocAccE) -> (r: Option<
    (DocAccE, usize),
>)
    requires
        n == s@.len(),
        v <= n,
    ensures
        match r {
            Some((a, e)) => v < e <= n && doc_field_value(s@, key@, v as int, acc@) == Some(
                (a@, (e - v) as nat),
            ),
            None => doc_field_value(s@, key@, v as int, acc@) is None,
        },
{
    if str_eq(key, "success") {
        if has_true_e(s, v, n) {
            Some((DocAccE { success: Some(true), ..acc }, v + 4))
        } else if has_false_e(s, v, n) {
            Some((DocAccE { success: Some(false), ..acc }, v + 5))
        } else {
            None
        }
    } else if str_eq(key, "listMap") {
        match list_map_value_e(s, v, n) {
            Some((l, e2)) => Some((DocAccE { list: Some(l), ..acc }, e2)),
            None => None,
        }
    } else {
        match skip_value_e(s, v, n) {
            Some(e2) => Some((acc, e2)),
            None => None,
        }
    }
}

/// Parse the members of the top-level object from its first key.
#[verifier::rlimit(100)]
#[verifier::spinoff_prover]
fn doc_fields_e(s: &str, i: usize, n: usize, acc: DocAccE) -> (r: Option<(DocAccE, usize)>)
    requires
        n == s@.len(),
        i <= n,
    ensures
        match r {
            Some((a, e)) => i < e <= n && doc_fields(s@, i as int, acc@) == Some(
                (a@, (e - i) as nat),
            ),
            None => doc_fields(s@, i as int, acc@) is None,
        },
    decreases n - i,
{
    if i >= n || s.get_char(i) != '"' {
        return None;
    }
    let after_key = match str_body_end(s, i + 1, n) {
        Some(e) => e,
        None => {
            return None;
        },
    };
    let key = s.substring_char(i + 1, after_key - 1);
    proof {
        assert(key@ == s@.subrange(i as int + 1, after_key as int - 1));
    }
    let c = ws_end(s, after_key, n);
    if !(c < n && s.get_char(c) == ':') {
        return None;
    }
    let v = ws_end(s, c + 1, n);
    let step = doc_field_value_e(s, key, v, n, acc);
    let (acc2, after_v) = match step {
        Some(x) => x,
        None => {
            return None;
        },
    };
    let e = ws_end(s, after_v, n);
    if e < n && s.get_char(e) == ',' {
        let k = ws_end(s, e + 1, n);
        match doc_fields_e(s, k, n, acc2) {
            Some((a, e2)) => Some((a, e2)),
            None => None,
        }
    } else if e < n && s.get_char(e) == '}' {
        Some((acc2, e + 1))
    } else {
        None
    }
}

/// Decode one inventory response document. Returns the snapshot exactly
/// when the ghost grammar [`spec_parse`] accepts the text, and a
/// [`ParseError`] — never a panic — otherwise.
pub fn parse(s: &str) -> (r: Result<FeInventoryResponse, ParseError>)
    ensures
        match r {
            Ok(resp) => spec_parse(s@) == Some(resp@),
            Err(_) => spec_parse(s@) is None,
        },
{
    let n = s.unicode_len();
    let i = ws_end(s, 0, n);
    if !(i < n && s.get_char(i) == '{') {
        return Err(ParseError);
    }
    let j = ws_end(s, i + 1, n);
    if j < n && s.get_char(j) == '}' {
        return Err(ParseError);
    }
    let empty = DocAccE { success: None, list: None };
    proof {
        assert(empty@ == DocAcc::empty());
    }
    match doc_fields_e(s, j, n, empty) {
        None => Err(ParseError),
        Some((acc, after)) => {
            let e = ws_end(s, after, n);
            if e == n {
                match (acc.success, acc.list) {
                    (Some(b), Some(l)) => {
                        let resp = FeInventoryResponse { success: b, list_map: l };
                        Ok(resp)
                    },
                    _ => Err(ParseError),
                }
            } else {
                Err(ParseError)
            }
        },
    }
}

} // verus!
