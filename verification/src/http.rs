//! Plain HTTP requests made on behalf of the user interface.
use vstd::prelude::*;
use crate::errors::{invalid_input, AppError, ErrorView};
use crate::json::JsonValue;
use crate::method::{is_valid_method, parse_method};
use crate::registry::Registry;
use crate::text::{trim, trim_str};

verus! {

/// Timeout of a plain HTTP request when the request sets none.
pub const DEFAULT_HTTP_TIMEOUT_MS: u64 = 30000;

/// A plain HTTP request.
pub struct HttpRequest {
    pub method: String,
    pub url: String,
    pub headers: Option<Registry<String>>,
    pub query: Option<Registry<String>>,
    pub body: Option<JsonValue>,
    pub timeout_ms: Option<u64>,
}

/// A plain HTTP request ready to be sent.
pub struct PreparedHttpRequest {
    /// The method's name, trimmed and accepted by the HTTP client.
    pub method: String,
    pub url: String,
    pub headers: Option<Registry<String>>,
    pub query: Option<Registry<String>>,
    pub body: Option<JsonValue>,
}

/// The response to a plain HTTP request.
pub struct HttpResponse {
    pub status: u16,
    pub ok: bool,
    pub headers: Registry<String>,
    pub body: String,
}

/// The timeout of a plain request: its own, else the default; never below
/// one millisecond.
pub open spec fn http_timeout(request: Option<u64>) -> u64 {
    let t = match request {
        Some(t) => t,
        None => DEFAULT_HTTP_TIMEOUT_MS,
    };
    if t < 1 {
        1
    } else {
        t
    }
}

/// The timeout of a plain request, in milliseconds.
pub fn http_timeout_ms(request: Option<u64>) -> (t: u64)
    ensures
        t == http_timeout(request),
        request matches Some(x) ==> (x >= 1 ==> t == x),
        request is None ==> t == DEFAULT_HTTP_TIMEOUT_MS,
        t >= 1,
{
    let t = match request {
        Some(t) => t,
        None => DEFAULT_HTTP_TIMEOUT_MS,
    };
    if t < 1 {
        1
    } else {
        t
    }
}

/// The URL trimmed; refused where nothing is left.
pub fn normalize_url(url: &str) -> (r: Result<String, AppError>)
    ensures
        r is Ok <==> trim(url@).len() > 0,
        r matches Ok(u) ==> u@ == trim(url@),
        r matches Err(e) ==> e@ == ErrorView::InvalidInput("url is required"@),
{
    let normalized = trim_str(url);
    if normalized.as_str().is_empty() {
        return Err(invalid_input("url is required"));
    }
    Ok(normalized)
}

/// A plain request ready to be sent: its URL trimmed and its method read.
/// The URL is checked first, then the method.
pub fn prepare_http_request(request: HttpRequest) -> (r: Result<PreparedHttpRequest, AppError>)
    ensures
        r is Ok <==> trim(request.url@).len() > 0 && is_valid_method(trim(request.method@)),
        trim(request.url@).len() == 0 ==> (r matches Err(e) && e@ == ErrorView::InvalidInput(
            "url is required"@,
        )),
        trim(request.url@).len() > 0 && !is_valid_method(trim(request.method@)) ==> (r matches Err(
            e,
        ) && e@ == ErrorView::InvalidInput("invalid HTTP method: "@ + request.method@)),
        r matches Ok(p) ==> {
            &&& p.method@ == trim(request.method@)
            &&& is_valid_method(p.method@)
            &&& p.url@ == trim(request.url@)
            &&& p.headers == request.headers
            &&& p.query == request.query
            &&& p.body == request.body
        },
{
    let url = normalize_url(request.url.as_str())?;
    let method = parse_method(request.method.as_str())?;
    Ok(
        PreparedHttpRequest {
            method,
            url,
            headers: request.headers,
            query: request.query,
            body: request.body,
        },
    )
}

/// A `GET` request.
pub fn get_request(
    url: &str,
    headers: Option<Registry<String>>,
    query: Option<Registry<String>>,
    timeout_ms: Option<u64>,
) -> (r: HttpRequest)
    ensures
        r.method@ == "GET"@,
        r.url@ == url@,
        r.headers == headers,
        r.query == query,
        r.body is None,
        r.timeout_ms == timeout_ms,
{
    HttpRequest { method: "GET".to_owned(), url: url.to_owned(), headers, query, body: None, timeout_ms }
}

/// A `POST` request with a JSON body.
pub fn post_json_request(
    url: &str,
    headers: Option<Registry<String>>,
    query: Option<Registry<String>>,
    body: JsonValue,
    timeout_ms: Option<u64>,
) -> (r: HttpRequest)
    ensures
        r.method@ == "POST"@,
        r.url@ == url@,
        r.headers == headers,
        r.query == query,
        r.body == Some(body),
        r.timeout_ms == timeout_ms,
{
    HttpRequest {
        method: "POST".to_owned(),
        url: url.to_owned(),
        headers,
        query,
        body: Some(body),
        timeout_ms,
    }
}

/// The response as the user interface receives it; `ok` for a 2xx status.
pub fn map_http_response(status: u16, headers: Registry<String>, body: String) -> (r: HttpResponse)
    ensures
        r.status == status,
        r.ok == (200 <= status && status <= 299),
        r.headers@ == headers@,
        r.body@ == body@,
{
    HttpResponse { status, ok: 200 <= status && status <= 299, headers, body }
}

} // verus!
