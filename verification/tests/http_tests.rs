use gvac::errors::AppError;
use gvac::http::{
    get_request, http_timeout_ms, map_http_response, normalize_url, post_json_request,
    prepare_http_request,
};
use gvac::json::JsonValue;
use gvac::method::parse_method;
use gvac::registry::Registry;

#[test]
fn methods_follow_the_http_crate() {
    for m in ["GET", "post", " PUT ", "X-CUSTOM", "M!#$%&'*+-.^_`|~9"] {
        let parsed = parse_method(m).unwrap();
        assert_eq!(parsed.as_str(), m.trim());
    }
    for m in ["", "  ", "GE T", "GÉT", "A(B", "a\"b"] {
        match parse_method(m) {
            Err(AppError::InvalidInput(msg)) => assert_eq!(msg, format!("invalid HTTP method: {m}")),
            _ => panic!("{m:?} should be refused"),
        }
    }
}

#[test]
fn http_request_preparation() {
    assert_eq!(normalize_url("  http://a/b ").unwrap(), "http://a/b");
    assert!(matches!(normalize_url(" "), Err(AppError::InvalidInput(m)) if m == "url is required"));
    let req = get_request(" http://h/ ", None, None, Some(10));
    assert_eq!(req.method, "GET");
    let p = prepare_http_request(req).unwrap();
    assert_eq!(p.url, "http://h/");
    assert_eq!(p.method.as_str(), "GET");
    // the URL is checked before the method
    let mut bad = get_request("", None, None, None);
    bad.method = "B AD".to_string();
    assert!(matches!(prepare_http_request(bad), Err(AppError::InvalidInput(m)) if m == "url is required"));
    let post = post_json_request("http://h", None, None, JsonValue::Null, None);
    assert_eq!(post.method, "POST");
    assert!(matches!(prepare_http_request(post).ok().unwrap().body, Some(JsonValue::Null)));
}

#[test]
fn http_timeouts_and_status() {
    assert_eq!(http_timeout_ms(None), 30000);
    assert_eq!(http_timeout_ms(Some(0)), 1);
    assert_eq!(http_timeout_ms(Some(250)), 250);
    assert!(map_http_response(204, Registry::new(), String::new()).ok);
    assert!(!map_http_response(301, Registry::new(), String::new()).ok);
    assert!(!map_http_response(199, Registry::new(), String::new()).ok);
    assert!(map_http_response(299, Registry::new(), "b".to_string()).ok);
}
