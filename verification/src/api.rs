//! The client of the application's own backend API: its configuration and
//! credentials, the preparation of each request, and the reading of each
//! response.
use vstd::prelude::*;
use crate::errors::{invalid_input, AppError, ErrorView};
use crate::headers::text_map;
use crate::json::{
    self, json_as_bool, json_as_i64, json_as_str, json_get, json_parse, json_text, parse_json,
    write_json, JsonValue,
};
use crate::method::{is_valid_method, parse_method};
use crate::registry::Registry;
use crate::text::{
    concat_str, eq_ignore_ascii_case, eq_ignore_ascii_case_str, is_blank_str, is_ws,
    lemma_strip_trailing_clean, lemma_trim_idempotent, starts_with, starts_with_str,
    strip_trailing, strip_trailing_str, trim, trim_end, trim_start, trim_str,
};

verus! {

/// Timeout of an API request when neither the request nor the configuration
/// sets one.
pub const DEFAULT_API_TIMEOUT_MS: u64 = 60000;

/// The texts of an optional string.
pub open spec fn opt_text(o: Option<String>) -> Option<Seq<char>> {
    match o {
        Some(s) => Some(s@),
        None => None,
    }
}

/// The text of an optional string, empty where there is none.
pub open spec fn text_or_empty(o: Option<Seq<char>>) -> Seq<char> {
    match o {
        Some(s) => s,
        None => Seq::empty(),
    }
}

/// A credential kept only where it is more than whitespace.
pub open spec fn kept_credential(o: Option<String>) -> Option<Seq<char>> {
    match o {
        Some(s) => if trim(s@).len() > 0 {
            Some(s@)
        } else {
            None
        },
        None => None,
    }
}

/// A base URL with surrounding whitespace and trailing slashes removed.
pub open spec fn normalized_base_url(s: Seq<char>) -> Seq<char> {
    strip_trailing(trim(s), '/')
}

/// The URL an API request goes to, or the reason it has none: an absolute
/// URL stands as given (trimmed); a path is joined to the base URL with one
/// `/` unless it starts with one.
pub open spec fn resolved_url(base: Option<Seq<char>>, url: Seq<char>) -> Result<
    Seq<char>,
    Seq<char>,
> {
    let path = trim(url);
    if path.len() == 0 {
        Err("url is required"@)
    } else if starts_with(path, "http://"@) || starts_with(path, "https://"@) {
        Ok(path)
    } else {
        match base {
            Some(b) => if trim(b).len() > 0 {
                if starts_with(path, "/"@) {
                    Ok(b + path)
                } else {
                    Ok(b + "/"@ + path)
                }
            } else {
                Err(
                    "base_url is not set; provide an absolute url or call api_set_base_url first"@,
                )
            },
            None => Err(
                "base_url is not set; provide an absolute url or call api_set_base_url first"@,
            ),
        }
    }
}

/// The timeout of an API request: the request's own, else the configured
/// one, else the default; never below one millisecond.
pub open spec fn api_timeout(request: Option<u64>, configured: Option<u64>) -> u64 {
    let t = match request {
        Some(t) => t,
        None => match configured {
            Some(c) => c,
            None => DEFAULT_API_TIMEOUT_MS,
        },
    };
    if t < 1 {
        1
    } else {
        t
    }
}

/// The headers an API request carries: the caller's, with the JSON content
/// type and, where authentication is used, the token and user id (empty
/// where unset) put over them.
pub open spec fn api_header_map(
    user: Map<Seq<char>, Seq<char>>,
    token: Option<Seq<char>>,
    user_id: Option<Seq<char>>,
    use_auth: bool,
) -> Map<Seq<char>, Seq<char>> {
    let m = user.insert("Content-Type"@, "application/json"@);
    if use_auth {
        m.insert("x-token"@, text_or_empty(token)).insert("x-user-id"@, text_or_empty(user_id))
    } else {
        m
    }
}

/// The configuration and credentials of the API client.
pub struct ApiClientState {
    pub base_url: Option<String>,
    pub timeout_ms: Option<u64>,
    pub token: Option<String>,
    pub user_id: Option<String>,
}

/// A request to the backend API.
pub struct ApiRequest {
    pub url: String,
    pub method: String,
    pub headers: Option<Registry<String>>,
    pub query: Option<Registry<String>>,
    pub data: Option<JsonValue>,
    pub timeout_ms: Option<u64>,
    pub use_auth: Option<bool>,
}

/// An API request ready to be sent.
pub struct PreparedApiRequest {
    /// The method's name, trimmed and accepted by the HTTP client.
    pub method: String,
    pub url: String,
    pub query: Option<Registry<String>>,
    pub headers: Registry<String>,
    /// The text sent as the request's body.
    pub body: Option<String>,
}

/// What the client makes of a response of the backend API.
pub struct ApiResponse {
    pub status: u16,
    pub headers: Registry<String>,
    pub body: JsonValue,
    pub raw_body: String,
    pub code: Option<i64>,
    pub msg: Option<String>,
    pub success: bool,
    pub new_token: Option<String>,
    pub unauthorized: bool,
    pub should_reload: bool,
}

/// The caller's headers as texts, none where the caller gave none.
pub open spec fn user_headers(h: Option<Registry<String>>) -> Map<Seq<char>, Seq<char>> {
    match h {
        Some(r) => text_map(r@),
        None => Map::empty(),
    }
}

/// The body text a request's data becomes: a JSON string is sent as its
/// text, any other value as its JSON text.
pub open spec fn body_of(data: Option<JsonValue>) -> Option<Seq<char>> {
    match data {
        None => None,
        Some(JsonValue::Str(s)) => Some(s@),
        Some(d) => Some(json_text(d)),
    }
}

/// The token a client holds after taking up a response that offers
/// `offered`: the offered one, else the one it held.
pub open spec fn refreshed_token(current: Option<Seq<char>>, offered: Option<Seq<char>>) -> Option<
    Seq<char>,
> {
    match offered {
        Some(t) => Some(t),
        None => current,
    }
}

/// The value under `key` in a header table, if present.
pub open spec fn header_of(h: Map<Seq<char>, String>, key: Seq<char>) -> Option<Seq<char>> {
    if h.contains_key(key) {
        Some(h[key]@)
    } else {
        None
    }
}

/// Whether the response's `success` header says `true`, in any case.
pub open spec fn header_success(h: Map<Seq<char>, String>) -> bool {
    match header_of(h, "success"@) {
        Some(v) => eq_ignore_ascii_case(v, "true"@),
        None => false,
    }
}

/// Whether the body's `data.reload` member is `true`.
pub open spec fn reload_requested(body: JsonValue) -> bool {
    match json_get(body, "data"@) {
        Some(d) => json_as_bool(json_get(d, "reload"@)) == Some(true),
        None => false,
    }
}

/// A base URL with surrounding whitespace and trailing slashes removed;
/// refused where nothing is left.
pub fn normalize_base_url(base_url: &str) -> (r: Result<String, AppError>)
    ensures
        r is Ok <==> normalized_base_url(base_url@).len() > 0,
        r matches Ok(n) ==> n@ == normalized_base_url(base_url@),
        r matches Err(e) ==> e@ == ErrorView::InvalidInput("base_url is required"@),
{
    let trimmed = trim_str(base_url);
    let normalized = strip_trailing_str(trimmed.as_str(), '/');
    if normalized.as_str().is_empty() {
        return Err(invalid_input("base_url is required"));
    }
    Ok(normalized)
}

/// The URL an API request goes to.
pub fn resolve_url(base_url: Option<&str>, request_url: &str) -> (r: Result<String, AppError>)
    ensures
        match resolved_url(
            match base_url {
                Some(b) => Some(b@),
                None => None,
            },
            request_url@,
        ) {
            Ok(u) => r matches Ok(x) && x@ == u,
            Err(reason) => r matches Err(e) && e@ == ErrorView::InvalidInput(reason),
        },
{
    let path = trim_str(request_url);
    if path.as_str().is_empty() {
        return Err(invalid_input("url is required"));
    }
    if starts_with_str(path.as_str(), "http://") || starts_with_str(path.as_str(), "https://") {
        return Ok(path);
    }
    match base_url {
        Some(base) => {
            if !is_blank_str(base) {
                if starts_with_str(path.as_str(), "/") {
                    Ok(concat_str(base, path.as_str()))
                } else {
                    let with_slash = concat_str(base, "/");
                    Ok(concat_str(with_slash.as_str(), path.as_str()))
                }
            } else {
                Err(
                    invalid_input(
                        "base_url is not set; provide an absolute url or call api_set_base_url first",
                    ),
                )
            }
        },
        None => Err(
            invalid_input(
                "base_url is not set; provide an absolute url or call api_set_base_url first",
            ),
        ),
    }
}

/// The timeout of an API request, in milliseconds.
pub fn api_timeout_ms(request: Option<u64>, configured: Option<u64>) -> (t: u64)
    ensures
        t == api_timeout(request, configured),
        request matches Some(x) ==> (x >= 1 ==> t == x),
        request is None ==> (configured matches Some(c) ==> (c >= 1 ==> t == c)),
        request is None && configured is None ==> t == DEFAULT_API_TIMEOUT_MS,
        t >= 1,
{
    let t = match request {
        Some(t) => t,
        None => match configured {
            Some(c) => c,
            None => DEFAULT_API_TIMEOUT_MS,
        },
    };
    if t < 1 {
        1
    } else {
        t
    }
}

/// The headers of an API request.
pub fn api_headers(headers: Option<Registry<String>>, state: &ApiClientState, use_auth: bool) -> (r:
    Registry<String>)
    ensures
        text_map(r@) == api_header_map(
            user_headers(headers),
            opt_text(state.token),
            opt_text(state.user_id),
            use_auth,
        ),
{
    let ghost user = user_headers(headers);
    let mut merged = match headers {
        Some(h) => h,
        None => Registry::new(),
    };
    assert(text_map(merged@) =~= user);
    merged.insert("Content-Type".to_owned(), "application/json".to_owned());
    let ghost m1 = merged@;
    assert(text_map(m1) =~= user.insert("Content-Type"@, "application/json"@));
    if use_auth {
        let token = match &state.token {
            Some(t) => t.clone(),
            None => String::new(),
        };
        let user_id = match &state.user_id {
            Some(u) => u.clone(),
            None => String::new(),
        };
        assert(token@ == text_or_empty(opt_text(state.token)));
        assert(user_id@ == text_or_empty(opt_text(state.user_id)));
        merged.insert("x-token".to_owned(), token);
        merged.insert("x-user-id".to_owned(), user_id);
        assert(text_map(merged@) =~= text_map(m1).insert("x-token"@, text_or_empty(opt_text(state.token))).insert(
            "x-user-id"@,
            text_or_empty(opt_text(state.user_id)),
        ));
    }
    merged
}

/// The body a request's data becomes.
pub fn request_body(data: Option<JsonValue>) -> (r: Option<String>)
    ensures
        opt_text(r) == body_of(data),
{
    match data {
        None => None,
        Some(JsonValue::Str(s)) => Some(s),
        Some(d) => Some(write_json(d)),
    }
}

/// An API request ready to be sent under the client's configuration: its
/// method, URL, headers and body. Refused where the method or the URL is.
pub fn prepare_api_request(state: &ApiClientState, request: ApiRequest) -> (r: Result<
    PreparedApiRequest,
    AppError,
>)
    ensures
        r is Ok <==> is_valid_method(trim(request.method@)) && resolved_url(
            opt_text(state.base_url),
            request.url@,
        ) is Ok,
        !is_valid_method(trim(request.method@)) ==> (r matches Err(e) && e@
            == ErrorView::InvalidInput("invalid HTTP method: "@ + request.method@)),
        is_valid_method(trim(request.method@)) ==> match resolved_url(
            opt_text(state.base_url),
            request.url@,
        ) {
            Ok(u) => r matches Ok(p) && p.url@ == u,
            Err(reason) => r matches Err(e) && e@ == ErrorView::InvalidInput(reason),
        },
        r matches Ok(p) ==> {
            &&& p.method@ == trim(request.method@)
            &&& is_valid_method(p.method@)
            &&& text_map(p.headers@) == api_header_map(
                user_headers(request.headers),
                opt_text(state.token),
                opt_text(state.user_id),
                match request.use_auth {
                    Some(b) => b,
                    None => true,
                },
            )
            &&& p.query == request.query
            &&& opt_text(p.body) == body_of(request.data)
        },
{
    let method = parse_method(request.method.as_str())?;
    let base = match &state.base_url {
        Some(b) => Some(b.as_str()),
        None => None,
    };
    let url = resolve_url(base, request.url.as_str())?;
    let use_auth = match request.use_auth {
        Some(b) => b,
        None => true,
    };
    let headers = api_headers(request.headers, state, use_auth);
    Ok(PreparedApiRequest { method, url, query: request.query, headers, body: request_body(request.data) })
}

/// The login request: the credentials in `data` posted to `/base/login`
/// without the stored credentials.
pub fn login_request(data: JsonValue) -> (r: ApiRequest)
    ensures
        r.url@ == "/base/login"@,
        r.method@ == "POST"@,
        r.headers is None,
        r.query is None,
        r.data == Some(data),
        r.timeout_ms is None,
        r.use_auth == Some(false),
{
    ApiRequest {
        url: "/base/login".to_owned(),
        method: "POST".to_owned(),
        headers: None,
        query: None,
        data: Some(data),
        timeout_ms: None,
        use_auth: Some(false),
    }
}

/// What the client makes of a response: its status, headers and body; the
/// body parsed as JSON where `parsed` holds it, else the raw text; the
/// `code`, `msg` and `data.reload` members of the body; success where the
/// code is 0 or the `success` header says `true`; the refreshed token from
/// the `new-token` header; and whether the status is 401.
pub fn map_api_response(
    status: u16,
    headers: Registry<String>,
    raw_body: String,
    parsed: Option<JsonValue>,
) -> (r: ApiResponse)
    ensures
        r.status == status,
        r.headers@ == headers@,
        r.raw_body@ == raw_body@,
        match parsed {
            Some(v) => r.body == v,
            None => r.body matches JsonValue::Str(s) && s@ == raw_body@,
        },
        r.code == json_as_i64(json_get(r.body, "code"@)),
        opt_text(r.msg) == json_as_str(json_get(r.body, "msg"@)),
        r.should_reload == reload_requested(r.body),
        r.should_reload <==> (json_get(r.body, "data"@) matches Some(d) && json_get(d, "reload"@)
            == Some(JsonValue::Bool(true))),
        r.success == (r.code == Some(0i64) || header_success(headers@)),
        opt_text(r.new_token) == header_of(headers@, "new-token"@),
        r.unauthorized == (status == 401),
{
    let new_token = match headers.get("new-token") {
        Some(t) => Some(t.clone()),
        None => None,
    };
    let success_header = match headers.get("success") {
        Some(v) => eq_ignore_ascii_case_str(v.as_str(), "true"),
        None => false,
    };
    let body = match parsed {
        Some(v) => v,
        None => JsonValue::Str(raw_body.clone()),
    };
    let code = json::as_i64(json::get(&body, "code"));
    let msg = json::as_str(json::get(&body, "msg"));
    proof {
        law_reload_only_on_true(body);
    }
    let should_reload = match json::get(&body, "data") {
        Some(d) => match json::as_bool(json::get(d, "reload")) {
            Some(b) => b,
            None => false,
        },
        None => false,
    };
    let success = match code {
        Some(c) => c == 0 || success_header,
        None => success_header,
    };
    ApiResponse {
        status,
        headers,
        body,
        raw_body,
        code,
        msg,
        success,
        new_token,
        unauthorized: status == 401,
        should_reload,
    }
}

/// What the client makes of a response from its status, headers and body
/// text: as `map_api_response` with the body text read as JSON where it is
/// JSON.
pub fn api_response_of(status: u16, headers: Registry<String>, raw_body: String) -> (r: ApiResponse)
    ensures
        r.status == status,
        r.headers@ == headers@,
        r.raw_body@ == raw_body@,
        match json_parse(raw_body@) {
            Some(v) => r.body == v,
            None => r.body matches JsonValue::Str(s) && s@ == raw_body@,
        },
        r.code == json_as_i64(json_get(r.body, "code"@)),
        opt_text(r.msg) == json_as_str(json_get(r.body, "msg"@)),
        r.should_reload == reload_requested(r.body),
        r.should_reload <==> (json_get(r.body, "data"@) matches Some(d) && json_get(d, "reload"@)
            == Some(JsonValue::Bool(true))),
        r.success == (r.code == Some(0i64) || header_success(headers@)),
        opt_text(r.new_token) == header_of(headers@, "new-token"@),
        r.unauthorized == (status == 401),
{
    let parsed = parse_json(raw_body.as_str());
    let r = map_api_response(status, headers, raw_body, parsed);
    proof {
        law_reload_only_on_true(r.body);
    }
    r
}

impl ApiClientState {
    /// A client with no base URL, timeout or credentials.
    pub fn new() -> (r: Self)
        ensures
            r.base_url is None,
            r.timeout_ms is None,
            r.token is None,
            r.user_id is None,
    {
        ApiClientState { base_url: None, timeout_ms: None, token: None, user_id: None }
    }

    /// Sets the base URL (normalized) and the default timeout; refused, with
    /// nothing changed, where the base URL is blank.
    pub fn set_base_url(&mut self, base_url: &str, timeout_ms: Option<u64>) -> (r: Result<
        (),
        AppError,
    >)
        ensures
            r is Ok <==> normalized_base_url(base_url@).len() > 0,
            r matches Err(e) ==> e@ == ErrorView::InvalidInput("base_url is required"@),
            r is Ok ==> opt_text(final(self).base_url) == Some(normalized_base_url(base_url@))
                && final(self).timeout_ms == timeout_ms,
            r is Err ==> final(self).base_url == old(self).base_url && final(self).timeout_ms
                == old(self).timeout_ms,
            final(self).token == old(self).token,
            final(self).user_id == old(self).user_id,
    {
        let normalized = normalize_base_url(base_url)?;
        self.base_url = Some(normalized);
        self.timeout_ms = timeout_ms;
        Ok(())
    }

    /// Stores the credentials, each only where it is more than whitespace.
    pub fn set_auth(&mut self, token: Option<String>, user_id: Option<String>)
        ensures
            opt_text(final(self).token) == kept_credential(token),
            opt_text(final(self).user_id) == kept_credential(user_id),
            final(self).base_url == old(self).base_url,
            final(self).timeout_ms == old(self).timeout_ms,
    {
        self.token = match token {
            Some(t) => if is_blank_str(t.as_str()) {
                None
            } else {
                Some(t)
            },
            None => None,
        };
        self.user_id = match user_id {
            Some(u) => if is_blank_str(u.as_str()) {
                None
            } else {
                Some(u)
            },
            None => None,
        };
    }

    /// Forgets the credentials.
    pub fn clear_auth(&mut self)
        ensures
            final(self).token is None,
            final(self).user_id is None,
            final(self).base_url == old(self).base_url,
            final(self).timeout_ms == old(self).timeout_ms,
    {
        self.token = None;
        self.user_id = None;
    }

    /// Takes up the token a response hands out, where it hands one out.
    pub fn absorb_response(&mut self, response: &ApiResponse)
        ensures
            opt_text(final(self).token) == refreshed_token(
                opt_text(old(self).token),
                opt_text(response.new_token),
            ),
            final(self).base_url == old(self).base_url,
            final(self).timeout_ms == old(self).timeout_ms,
            final(self).user_id == old(self).user_id,
    {
        match &response.new_token {
            Some(t) => {
                self.token = Some(t.clone());
            },
            None => {},
        }
    }
}


/// A normalized base URL that is not blank never ends with a slash.
pub proof fn law_normalized_base_url_has_no_trailing_slash(s: Seq<char>)
    ensures
        normalized_base_url(s).len() > 0 ==> normalized_base_url(s).last() != '/',
{
    lemma_strip_trailing_clean(trim(s), '/');
}

/// Normalizing a normalized base URL leaves it as it is, unless removing its
/// slashes bared whitespace at its end (as for `"a /"`, which becomes
/// `"a "` and then `"a"`).
pub proof fn law_normalize_base_url_idempotent(s: Seq<char>)
    requires
        normalized_base_url(s).len() == 0 || !is_ws(normalized_base_url(s).last()),
    ensures
        normalized_base_url(normalized_base_url(s)) == normalized_base_url(s),
{
    let t = trim(s);
    let n = normalized_base_url(s);
    lemma_strip_trailing_clean(t, '/');
    if n.len() > 0 {
        lemma_trim_first_char(s);
        assert(n[0] == t[0]);
        assert(trim_start(n) == n);
        assert(trim_end(n) == n);
        assert(trim(n) == n);
    } else {
        assert(trim(n) =~= n);
    }
}

/// A trimmed non-empty string starts with a character that is not whitespace.
proof fn lemma_trim_first_char(s: Seq<char>)
    ensures
        trim(s).len() > 0 ==> !is_ws(trim(s)[0]),
{
    lemma_trim_idempotent(s);
    let t = trim(s);
    if t.len() > 0 && is_ws(t[0]) {
        // trimming t again would drop its first character
        lemma_trim_start_shrinks(t);
        lemma_trim_end_len(trim_start(t));
    }
}

/// `trim_start` drops a leading whitespace character.
proof fn lemma_trim_start_shrinks(t: Seq<char>)
    requires
        t.len() > 0,
        is_ws(t[0]),
    ensures
        trim_start(t).len() < t.len(),
    decreases t.len(),
{
    let u = t.drop_first();
    assert(trim_start(t) == trim_start(u));
    if u.len() > 0 && is_ws(u[0]) {
        lemma_trim_start_shrinks(u);
    } else {
        assert(trim_start(u) == u);
    }
}

/// `trim_end` never lengthens.
proof fn lemma_trim_end_len(t: Seq<char>)
    ensures
        trim_end(t).len() <= t.len(),
    decreases t.len(),
{
    if t.len() > 0 && is_ws(t.last()) {
        lemma_trim_end_len(t.drop_last());
    }
}

/// An absolute URL is used as it stands, whatever the base URL.
pub proof fn law_absolute_url_ignores_base(base1: Option<Seq<char>>, base2: Option<Seq<char>>, url: Seq<char>)
    requires
        starts_with(trim(url), "http://"@) || starts_with(trim(url), "https://"@),
    ensures
        resolved_url(base1, url) == resolved_url(base2, url),
        resolved_url(base1, url) == Ok::<Seq<char>, Seq<char>>(trim(url)),
{
    if trim(url).len() == 0 {
        assert(starts_with(trim(url), "http://"@) ==> "http://"@.len() == 0);
        assert(starts_with(trim(url), "https://"@) ==> "https://"@.len() == 0);
        reveal_strlit("http://");
        reveal_strlit("https://");
    }
}

/// The headers of an API request always declare JSON content; with
/// authentication they carry the stored token and user id (empty where
/// unset), whatever the caller set; every other header of the caller is
/// kept as the caller set it.
pub proof fn law_api_headers(
    user: Map<Seq<char>, Seq<char>>,
    token: Option<Seq<char>>,
    user_id: Option<Seq<char>>,
    use_auth: bool,
    k: Seq<char>,
)
    requires
        k != "Content-Type"@,
        k != "x-token"@,
        k != "x-user-id"@,
    ensures
        api_header_map(user, token, user_id, use_auth)["Content-Type"@] == "application/json"@,
        use_auth ==> api_header_map(user, token, user_id, use_auth)["x-token"@] == text_or_empty(
            token,
        ),
        use_auth ==> api_header_map(user, token, user_id, use_auth)["x-user-id"@] == text_or_empty(
            user_id,
        ),
        api_header_map(user, token, user_id, use_auth).contains_key(k) == user.contains_key(k),
        user.contains_key(k) ==> api_header_map(user, token, user_id, use_auth)[k] == user[k],
{
    reveal_strlit("Content-Type");
    reveal_strlit("x-token");
    reveal_strlit("x-user-id");
    assert("Content-Type"@ != "x-token"@) by {
        assert("Content-Type"@.len() != "x-token"@.len());
    }
    assert("Content-Type"@ != "x-user-id"@) by {
        assert("Content-Type"@.len() != "x-user-id"@.len());
    }
    assert("x-token"@ != "x-user-id"@) by {
        assert("x-token"@.len() != "x-user-id"@.len());
    }
}


/// A response that carries a `new-token` header hands the client that
/// token; a response without one leaves the client's token as it was
/// (`map_api_response` reads the header, `absorb_response` takes it up).
pub proof fn law_token_refresh(headers: Map<Seq<char>, String>, current: Option<Seq<char>>)
    ensures
        headers.contains_key("new-token"@) ==> refreshed_token(
            current,
            header_of(headers, "new-token"@),
        ) == Some(headers["new-token"@]@),
        !headers.contains_key("new-token"@) ==> refreshed_token(
            current,
            header_of(headers, "new-token"@),
        ) == current,
{
}

/// A response asks the client to reload exactly when its body's `data`
/// member has a `reload` member that is the JSON value `true`: a `data`
/// without `reload`, with a `reload` of another kind, or with `false`, asks
/// for nothing, and so does a body without `data`.
pub proof fn law_reload_only_on_true(body: JsonValue)
    ensures
        reload_requested(body) <==> (json_get(body, "data"@) matches Some(d) && json_get(d, "reload"@)
            == Some(JsonValue::Bool(true))),
        json_get(body, "data"@) is None ==> !reload_requested(body),
        json_get(body, "data"@) matches Some(d) && json_get(d, "reload"@) is None ==> !reload_requested(
            body,
        ),
        json_get(body, "data"@) matches Some(d) && json_get(d, "reload"@) matches Some(v) && !(
        v is Bool) ==> !reload_requested(body),
{
}

/// A request's own timeout of at least a millisecond is the one used,
/// whatever the client is configured with; without one the configured
/// timeout is used, and without either the default; the timeout is never
/// below a millisecond.
pub proof fn law_request_timeout_wins(t: u64, configured: Option<u64>)
    ensures
        t >= 1 ==> api_timeout(Some(t), configured) == t,
        t >= 1 ==> api_timeout(None, Some(t)) == t,
        api_timeout(None, None) == DEFAULT_API_TIMEOUT_MS,
        api_timeout(Some(t), configured) >= 1,
        api_timeout(None, configured) >= 1,
{
}

} // verus!
