use gvac::api::{
    api_headers, api_timeout_ms, login_request, map_api_response, normalize_base_url,
    api_response_of, prepare_api_request, request_body, resolve_url, ApiClientState, ApiRequest,
};
use gvac::errors::AppError;
use gvac::json::{JsonNumber, JsonValue};
use gvac::registry::Registry;

fn reason(e: &AppError) -> String {
    match e {
        AppError::InvalidInput(m) => m.clone(),
        other => panic!("unexpected error {:?}", other),
    }
}

fn headers(pairs: &[(&str, &str)]) -> Registry<String> {
    let mut r = Registry::new();
    for (k, v) in pairs {
        r.insert(k.to_string(), v.to_string());
    }
    r
}

fn num(i: i64) -> JsonValue {
    JsonValue::Number(JsonNumber { int: Some(i), text: i.to_string() })
}

fn obj(members: Vec<(&str, JsonValue)>) -> JsonValue {
    JsonValue::Object(members.into_iter().map(|(k, v)| (k.to_string(), v)).collect())
}

#[test]
fn base_url_normalization() {
    assert_eq!(normalize_base_url("  https://api.example.com///  ").unwrap(), "https://api.example.com");
    assert_eq!(reason(&normalize_base_url("  / ").unwrap_err()), "base_url is required");
    assert_eq!(reason(&normalize_base_url("").unwrap_err()), "base_url is required");
    // whitespace bared by removing slashes stays: "a /" becomes "a "
    assert_eq!(normalize_base_url("a /").unwrap(), "a ");
    assert_eq!(normalize_base_url("a ").unwrap(), "a");
}

#[test]
fn url_resolution() {
    let base = Some("https://h.io");
    assert_eq!(resolve_url(base, " /users ").unwrap(), "https://h.io/users");
    assert_eq!(resolve_url(base, "users").unwrap(), "https://h.io/users");
    assert_eq!(resolve_url(None, " http://x.y/z ").unwrap(), "http://x.y/z");
    assert_eq!(resolve_url(Some("https://h.io"), "https://o.io/a").unwrap(), "https://o.io/a");
    assert_eq!(reason(&resolve_url(base, "   ").unwrap_err()), "url is required");
    let unset = "base_url is not set; provide an absolute url or call api_set_base_url first";
    assert_eq!(reason(&resolve_url(None, "/a").unwrap_err()), unset);
    assert_eq!(reason(&resolve_url(Some("  "), "/a").unwrap_err()), unset);
}

#[test]
fn absolute_url_ignores_base_example() {
    assert_eq!(
        resolve_url(Some("https://a"), "https://b/c").unwrap(),
        resolve_url(None, "https://b/c").unwrap()
    );
}

#[test]
fn timeouts() {
    assert_eq!(api_timeout_ms(Some(5), Some(9)), 5);
    assert_eq!(api_timeout_ms(None, Some(9)), 9);
    assert_eq!(api_timeout_ms(None, None), 60000);
    assert_eq!(api_timeout_ms(Some(0), None), 1);
}

#[test]
fn state_configuration_and_credentials() {
    let mut s = ApiClientState::new();
    assert_eq!(reason(&s.set_base_url("   ", Some(5)).unwrap_err()), "base_url is required");
    assert!(s.base_url.is_none() && s.timeout_ms.is_none());
    s.set_base_url(" https://h.io/ ", Some(1500)).unwrap();
    assert_eq!(s.base_url.as_deref(), Some("https://h.io"));
    assert_eq!(s.timeout_ms, Some(1500));
    s.set_auth(Some("tok".to_string()), Some("  ".to_string()));
    assert_eq!(s.token.as_deref(), Some("tok"));
    assert!(s.user_id.is_none());
    s.set_auth(Some(" \t".to_string()), Some("u1".to_string()));
    assert!(s.token.is_none());
    assert_eq!(s.user_id.as_deref(), Some("u1"));
    s.clear_auth();
    assert!(s.token.is_none() && s.user_id.is_none());
    assert_eq!(s.base_url.as_deref(), Some("https://h.io"));
}

#[test]
fn headers_for_api_requests() {
    let mut s = ApiClientState::new();
    s.set_auth(Some("T".to_string()), None);
    let h = api_headers(
        Some(headers(&[("x-token", "mine"), ("Accept", "text/plain"), ("Content-Type", "text/xml")])),
        &s,
        true,
    );
    assert_eq!(h.get("Content-Type").unwrap(), "application/json");
    assert_eq!(h.get("x-token").unwrap(), "T");
    assert_eq!(h.get("x-user-id").unwrap(), "");
    assert_eq!(h.get("Accept").unwrap(), "text/plain");
    assert_eq!(h.len(), 4);
    let h = api_headers(None, &s, false);
    assert_eq!(h.len(), 1);
    assert!(!h.contains_key("x-token"));
}

#[test]
fn request_preparation() {
    let mut s = ApiClientState::new();
    s.set_base_url("https://h.io", None).unwrap();
    let req = ApiRequest {
        url: "v1/items".to_string(),
        method: " patch ".to_string(),
        headers: None,
        query: None,
        data: Some(JsonValue::Str("raw text".to_string())),
        timeout_ms: None,
        use_auth: None,
    };
    let p = prepare_api_request(&s, req).unwrap();
    assert_eq!(p.method.as_str(), "patch");
    assert_eq!(p.url, "https://h.io/v1/items");
    assert_eq!(p.body.as_deref(), Some("raw text"));
    assert_eq!(p.headers.get("x-token").unwrap(), "");

    let bad = ApiRequest {
        url: "".to_string(),
        method: "GE T".to_string(),
        headers: None,
        query: None,
        data: None,
        timeout_ms: None,
        use_auth: None,
    };
    // the method is checked before the URL
    assert_eq!(reason(&prepare_api_request(&s, bad).err().unwrap()), "invalid HTTP method: GE T");
    let no_url = ApiRequest {
        url: " ".to_string(),
        method: "GET".to_string(),
        headers: None,
        query: None,
        data: None,
        timeout_ms: None,
        use_auth: None,
    };
    assert_eq!(reason(&prepare_api_request(&s, no_url).err().unwrap()), "url is required");
}

#[test]
fn json_data_is_sent_serialized() {
    assert_eq!(request_body(Some(num(3))).as_deref(), Some("3"));
    assert_eq!(
        request_body(Some(obj(vec![("a", JsonValue::Bool(true)), ("b", JsonValue::Str("x\"y".to_string()))]))).as_deref(),
        Some("{\"a\":true,\"b\":\"x\\\"y\"}")
    );
    assert_eq!(request_body(Some(JsonValue::Str("plain".to_string()))).as_deref(), Some("plain"));
    assert_eq!(request_body(Some(JsonValue::Null)).as_deref(), Some("null"));
    assert!(request_body(None).is_none());
}

#[test]
fn login_request_shape() {
    let r = login_request(obj(vec![("user", JsonValue::Str("a".to_string()))]));
    assert_eq!(r.url, "/base/login");
    assert_eq!(r.method, "POST");
    assert_eq!(r.use_auth, Some(false));
    assert!(r.headers.is_none() && r.query.is_none() && r.timeout_ms.is_none());
}

#[test]
fn response_interpretation() {
    let body = obj(vec![
        ("code", num(0)),
        ("msg", JsonValue::Str("ok".to_string())),
        ("data", obj(vec![("reload", JsonValue::Bool(true))])),
    ]);
    let r = map_api_response(200, headers(&[("new-token", "NT")]), "{...}".to_string(), Some(body));
    assert_eq!(r.code, Some(0));
    assert_eq!(r.msg.as_deref(), Some("ok"));
    assert!(r.success && r.should_reload && !r.unauthorized);
    assert_eq!(r.new_token.as_deref(), Some("NT"));
    assert_eq!(r.raw_body, "{...}");

    let r = map_api_response(401, headers(&[("success", "TRUE")]), "denied".to_string(), None);
    assert!(matches!(r.body, JsonValue::Str(ref s) if s == "denied"));
    assert_eq!(r.code, None);
    assert!(r.success, "the success header counts in any case");
    assert!(r.unauthorized && !r.should_reload);
    assert!(r.new_token.is_none());

    let r = map_api_response(200, Registry::new(), "x".to_string(), Some(obj(vec![("code", num(7))])));
    assert!(!r.success);
    assert_eq!(r.code, Some(7));
}

#[test]
fn token_refresh_from_response() {
    let mut s = ApiClientState::new();
    s.set_auth(Some("old".to_string()), Some("u".to_string()));
    let r = map_api_response(200, headers(&[("new-token", "fresh")]), String::new(), None);
    s.absorb_response(&r);
    assert_eq!(s.token.as_deref(), Some("fresh"));
    assert_eq!(s.user_id.as_deref(), Some("u"));
    let r = map_api_response(200, Registry::new(), String::new(), None);
    s.absorb_response(&r);
    assert_eq!(s.token.as_deref(), Some("fresh"));
}

#[test]
fn login_is_prepared_as_a_post() {
    let mut s = ApiClientState::new();
    s.set_base_url("https://h.io/", None).unwrap();
    s.set_auth(Some("tok".to_string()), Some("u".to_string()));
    let p = prepare_api_request(&s, login_request(JsonValue::Str("creds".to_string()))).unwrap();
    assert_eq!(p.method, "POST");
    assert_eq!(p.url, "https://h.io/base/login");
    assert!(!p.headers.contains_key("x-token"));
    assert_eq!(p.body.as_deref(), Some("creds"));
}

#[test]
fn response_text_is_read_as_json() {
    let r = api_response_of(
        200,
        Registry::new(),
        "{\"code\": 0, \"msg\": \"hi\", \"data\": {\"reload\": true}}".to_string(),
    );
    assert!(matches!(r.body, JsonValue::Object(_)));
    assert_eq!(r.code, Some(0));
    assert_eq!(r.msg.as_deref(), Some("hi"));
    assert!(r.success && r.should_reload);
    let r = api_response_of(500, Registry::new(), "not json".to_string());
    assert!(matches!(r.body, JsonValue::Str(ref s) if s == "not json"));
    assert_eq!(r.code, None);
    assert!(!r.success);
    let r = api_response_of(200, Registry::new(), "{\"code\": 1.5}".to_string());
    assert_eq!(r.code, None);
    let r = api_response_of(200, Registry::new(), "\"just text\"".to_string());
    assert!(matches!(r.body, JsonValue::Str(ref s) if s == "just text"));
}
