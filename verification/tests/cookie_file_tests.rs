use fe_monitor::cookie_file::parse_cookie_file;
use fe_monitor::purchase::{cookies_json, Cookie};

#[test]
fn parses_a_captured_cookie_file() {
    let text = "{\"cookies\":[{\"name\":\"cf_clearance\",\"value\":\"tok\",\"domain\":\".example.com\"},{\"name\":\"sid\",\"value\":\"1\",\"domain\":null}]}";
    let cookies = parse_cookie_file(text).unwrap();
    assert_eq!(cookies.len(), 2);
    assert_eq!(cookies[0].name, "cf_clearance");
    assert_eq!(cookies[0].value, "tok");
    assert_eq!(cookies[0].domain.as_deref(), Some(".example.com"));
    assert_eq!(cookies[1].name, "sid");
    assert!(cookies[1].domain.is_none());
}

#[test]
fn cookie_without_domain_field_parses() {
    let text = "{\"cookies\":[{\"name\":\"a\",\"value\":\"b\"}]}";
    let cookies = parse_cookie_file(text).unwrap();
    assert_eq!(cookies.len(), 1);
    assert!(cookies[0].domain.is_none());
}

#[test]
fn unknown_fields_in_cookie_file_are_ignored() {
    let text = "{\"timestamp\":\"2024-01-01\",\"cookies\":[],\"extra\":[1,2]}";
    assert!(parse_cookie_file(text).unwrap().is_empty());
}

#[test]
fn cookie_missing_name_is_an_error() {
    let text = "{\"cookies\":[{\"value\":\"b\"}]}";
    assert!(parse_cookie_file(text).is_err());
}

#[test]
fn cookie_file_without_cookies_key_is_an_error() {
    assert!(parse_cookie_file("{\"timestamp\":\"t\"}").is_err());
    assert!(parse_cookie_file("{}").is_err());
    assert!(parse_cookie_file("").is_err());
    assert!(parse_cookie_file("[{\"name\":\"a\",\"value\":\"b\"}]").is_err());
}

#[test]
fn numeric_domain_is_an_error() {
    let text = "{\"cookies\":[{\"name\":\"a\",\"value\":\"b\",\"domain\":5}]}";
    assert!(parse_cookie_file(text).is_err());
}

#[test]
fn written_capture_documents_read_back() {
    let cookies = vec![
        Cookie { name: String::from("a"), value: String::from("1"), domain: None },
        Cookie {
            name: String::from("b"),
            value: String::from("2"),
            domain: Some(String::from(".example.com")),
        },
    ];
    let doc = cookies_json("2024-01-01_00-00-00", &cookies).unwrap();
    let read = parse_cookie_file(&doc).unwrap();
    assert_eq!(read.len(), 2);
    assert_eq!(read[0].name, "a");
    assert_eq!(read[0].value, "1");
    assert!(read[0].domain.is_none());
    assert_eq!(read[1].name, "b");
    assert_eq!(read[1].domain.as_deref(), Some(".example.com"));
}
