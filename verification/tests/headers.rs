use bentoml::error::Error;
use bentoml::headers::Headers;

#[test]
fn headers_are_normalized_and_replaced_in_place() {
    let mut h = Headers::new();
    h.insert("X-Request-Id", "a");
    h.insert("Accept", "text/plain");
    h.insert("x-request-id", "b");
    assert_eq!(
        h.to_vec(),
        vec![
            ("x-request-id".to_string(), "b".to_string()),
            ("accept".to_string(), "text/plain".to_string()),
        ]
    );
    assert_eq!(h.request_id(), Some("b"));
    assert_eq!(h.apply().unwrap(), h.to_vec());
    assert_eq!(h.clone().into_map().unwrap(), h.to_vec());
}

#[test]
fn a_request_id_that_is_not_visible_ascii_is_not_reported() {
    let mut h = Headers::new();
    h.insert("x-request-id", "caf\u{e9}");
    assert_eq!(h.to_vec().len(), 1);
    assert_eq!(h.request_id(), None);
}

#[test]
fn the_first_invalid_header_is_kept() {
    let mut h = Headers::new();
    h.insert("ok", "1");
    h.insert("b\u{e4}d", "2");
    h.insert("x", "bad\r\n");
    assert_eq!(h.to_vec(), vec![("ok".to_string(), "1".to_string())]);
    match h.into_map() {
        Err(Error::InvalidRequest { message, source: None }) => {
            assert_eq!(message, "invalid header \"b\u{e4}d\": invalid HTTP header name")
        }
        other => panic!("unexpected {other:?}"),
    }
}
