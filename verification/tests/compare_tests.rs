use fe_monitor::compare::detect;
use fe_monitor::model::{FeInventoryResponse, FeProductInfo};

fn rec(sku: &str, url: &str, active: &str) -> FeProductInfo {
    FeProductInfo {
        is_active: String::from(active),
        product_url: String::from(url),
        price: String::from("1169"),
        fe_sku: String::from(sku),
        locale: String::from("DE"),
    }
}

fn snap(records: Vec<FeProductInfo>) -> FeInventoryResponse {
    FeInventoryResponse { success: true, list_map: records }
}

#[test]
fn url_transition_is_detected() {
    let prev = snap(vec![rec("X", "", "false")]);
    let cur = snap(vec![rec("X", "https://shop/buy", "false")]);
    let defaults: Vec<String> = vec![];
    let ts = detect(Some(&prev), &cur, &defaults);
    assert_eq!(ts.len(), 1);
    assert_eq!(ts[0].fe_sku, "X");
    assert_eq!(ts[0].product_url, "https://shop/buy");
}

#[test]
fn placeholder_url_is_no_transition() {
    let prev = snap(vec![rec("X", "https://default/placeholder", "t")]);
    let cur = snap(vec![rec("X", "https://default/placeholder", "t")]);
    let defaults = vec![String::from("https://default/placeholder")];
    let ts = detect(Some(&prev), &cur, &defaults);
    assert!(ts.is_empty());
}

#[test]
fn placeholder_to_real_url_is_a_transition() {
    let prev = snap(vec![rec("X", "https://default/placeholder", "t")]);
    let cur = snap(vec![rec("X", "https://shop/buy", "t")]);
    let defaults = vec![String::from("https://default/placeholder")];
    let ts = detect(Some(&prev), &cur, &defaults);
    assert_eq!(ts.len(), 1);
    assert_eq!(ts[0].product_url, "https://shop/buy");
}

#[test]
fn identical_snapshots_yield_nothing() {
    let prev = snap(vec![rec("X", "https://shop/buy", "true"), rec("Y", "", "false")]);
    let cur = snap(vec![rec("X", "https://shop/buy", "true"), rec("Y", "", "false")]);
    let defaults: Vec<String> = vec![];
    assert!(detect(Some(&prev), &cur, &defaults).is_empty());
}

#[test]
fn first_poll_only_seeds_the_baseline() {
    let cur = snap(vec![rec("X", "https://shop/buy", "true")]);
    let defaults: Vec<String> = vec![];
    assert!(detect(None, &cur, &defaults).is_empty());
}

#[test]
fn activation_change_is_a_transition() {
    let prev = snap(vec![rec("X", "https://shop/buy", "false")]);
    let cur = snap(vec![rec("X", "https://shop/buy", "true")]);
    let defaults: Vec<String> = vec![];
    let ts = detect(Some(&prev), &cur, &defaults);
    assert_eq!(ts.len(), 1);
    assert_eq!(ts[0].previous_state, "false");
    assert_eq!(ts[0].new_state, "true");
}

#[test]
fn activation_change_to_a_default_value_is_ignored() {
    let prev = snap(vec![rec("X", "https://shop/buy", "true")]);
    let cur = snap(vec![rec("X", "https://shop/buy", "pending")]);
    let defaults = vec![String::from("pending")];
    assert!(detect(Some(&prev), &cur, &defaults).is_empty());
}

#[test]
fn new_record_with_url_is_a_transition() {
    let prev = snap(vec![rec("X", "", "f")]);
    let cur = snap(vec![rec("X", "", "f"), rec("Y", "https://shop/buy-y", "t")]);
    let defaults: Vec<String> = vec![];
    let ts = detect(Some(&prev), &cur, &defaults);
    assert_eq!(ts.len(), 1);
    assert_eq!(ts[0].fe_sku, "Y");
    assert_eq!(ts[0].previous_state, "");
}

#[test]
fn simultaneous_transitions_keep_current_order() {
    let prev = snap(vec![rec("A", "", "f"), rec("B", "", "f")]);
    let cur = snap(vec![rec("B", "https://shop/b", "f"), rec("A", "https://shop/a", "f")]);
    let defaults: Vec<String> = vec![];
    let ts = detect(Some(&prev), &cur, &defaults);
    assert_eq!(ts.len(), 2);
    assert_eq!(ts[0].fe_sku, "B");
    assert_eq!(ts[1].fe_sku, "A");
}

#[test]
fn empty_url_stays_quiet() {
    let prev = snap(vec![rec("X", "", "f")]);
    let cur = snap(vec![rec("X", "", "f")]);
    let defaults: Vec<String> = vec![];
    assert!(detect(Some(&prev), &cur, &defaults).is_empty());
}
