use fe_monitor::parser::parse;

const SAMPLE: &str = "{\"success\":true,\"map\":null,\"listMap\":[{\"is_active\":\"false\",\"product_url\":\"\",\"price\":\"1169\",\"fe_sku\":\"PRO580GFTNV\",\"locale\":\"DE\"}]}";

#[test]
fn parses_sample_document() {
    let snap = parse(SAMPLE).unwrap();
    assert!(snap.success);
    assert_eq!(snap.list_map.len(), 1);
    let rec = &snap.list_map[0];
    assert_eq!(rec.is_active, "false");
    assert_eq!(rec.product_url, "");
    assert_eq!(rec.price, "1169");
    assert_eq!(rec.fe_sku, "PRO580GFTNV");
    assert_eq!(rec.locale, "DE");
}

#[test]
fn parses_with_whitespace() {
    let text = " {\n \"success\" : false ,\t\"listMap\" : [ ] } ";
    let snap = parse(text).unwrap();
    assert!(!snap.success);
    assert!(snap.list_map.is_empty());
}

#[test]
fn unknown_fields_are_ignored() {
    let text = "{\"extra\":{\"deep\":[1,2,{\"x\":null}]},\"success\":true,\"count\":-1.5e3,\"listMap\":[{\"fe_sku\":\"A\",\"bonus\":[true,false],\"is_active\":\"true\",\"product_url\":\"u\",\"price\":\"1\",\"locale\":\"DE\"}],\"tail\":\"z\"}";
    let snap = parse(text).unwrap();
    assert!(snap.success);
    assert_eq!(snap.list_map.len(), 1);
    assert_eq!(snap.list_map[0].fe_sku, "A");
    assert_eq!(snap.list_map[0].product_url, "u");
}

#[test]
fn missing_success_is_an_error() {
    assert!(parse("{\"listMap\":[]}").is_err());
}

#[test]
fn missing_list_map_is_an_error() {
    assert!(parse("{\"success\":true}").is_err());
}

#[test]
fn record_missing_required_field_is_an_error() {
    let text = "{\"success\":true,\"listMap\":[{\"is_active\":\"true\",\"product_url\":\"u\",\"price\":\"1\",\"fe_sku\":\"A\"}]}";
    assert!(parse(text).is_err());
}

#[test]
fn record_field_of_wrong_type_is_an_error() {
    let text = "{\"success\":true,\"listMap\":[{\"is_active\":true,\"product_url\":\"u\",\"price\":\"1\",\"fe_sku\":\"A\",\"locale\":\"DE\"}]}";
    assert!(parse(text).is_err());
}

#[test]
fn success_of_wrong_type_is_an_error() {
    assert!(parse("{\"success\":\"true\",\"listMap\":[]}").is_err());
}

#[test]
fn truncated_payload_is_an_error() {
    let mut text = String::from(SAMPLE);
    text.truncate(40);
    assert!(parse(&text).is_err());
}

#[test]
fn garbage_is_an_error() {
    assert!(parse("").is_err());
    assert!(parse("not json at all").is_err());
    assert!(parse("[1,2,3]").is_err());
    assert!(parse("{}").is_err());
    assert!(parse("{\"success\":true,\"listMap\":[]} trailing").is_err());
    assert!(parse("{\"success\":true,\"listMap\":[],}").is_err());
    assert!(parse("{\"success\":true \"listMap\":[]}").is_err());
}

#[test]
fn unterminated_string_is_an_error() {
    assert!(parse("{\"success\":true,\"listMap\":[],\"x\":\"oops}").is_err());
}

#[test]
fn duplicate_key_keeps_the_last_occurrence() {
    let text = "{\"success\":false,\"listMap\":[],\"success\":true}";
    let snap = parse(text).unwrap();
    assert!(snap.success);
}

#[test]
fn string_escapes_are_kept_verbatim() {
    let text = "{\"success\":true,\"listMap\":[{\"is_active\":\"t\",\"product_url\":\"a\\\"b\",\"price\":\"1\",\"fe_sku\":\"A\",\"locale\":\"DE\"}]}";
    let snap = parse(text).unwrap();
    assert_eq!(snap.list_map[0].product_url, "a\\\"b");
}

#[test]
fn several_records_keep_their_order() {
    let text = "{\"success\":true,\"listMap\":[{\"is_active\":\"t\",\"product_url\":\"u1\",\"price\":\"1\",\"fe_sku\":\"A\",\"locale\":\"DE\"},{\"is_active\":\"t\",\"product_url\":\"u2\",\"price\":\"2\",\"fe_sku\":\"B\",\"locale\":\"DE\"}]}";
    let snap = parse(text).unwrap();
    assert_eq!(snap.list_map.len(), 2);
    assert_eq!(snap.list_map[0].fe_sku, "A");
    assert_eq!(snap.list_map[1].fe_sku, "B");
}
