//! HTTP request methods.
use vstd::prelude::*;
use crate::errors::{AppError, ErrorView};
use crate::text::{concat_str, trim, trim_str};

verus! {

/// Whether `c` may appear in a method name (an RFC 7230 `tchar`).
pub open spec fn is_token_char(c: char) -> bool {
    let u = c as u32;
    (48 <= u && u <= 57) || (65 <= u && u <= 90) || (97 <= u && u <= 122) || u == 33 || u == 35
        || u == 36 || u == 37 || u == 38 || u == 39 || u == 42 || u == 43 || u == 45 || u == 46
        || u == 94 || u == 95 || u == 96 || u == 124 || u == 126
}

/// Whether `m` names a method: it is non-empty and made of token characters.
pub open spec fn is_valid_method(m: Seq<char>) -> bool {
    m.len() > 0 && forall|i: int| 0 <= i < m.len() ==> is_token_char(#[trigger] m[i])
}

/// Whether the HTTP client accepts `m` as a method name
/// (`Method::from_bytes` on its bytes succeeds). It accepts exactly the
/// non-empty byte strings of token characters; a character outside ASCII
/// encodes to bytes that are not token characters.
#[verifier::external_body]
fn method_accepted(m: &str) -> (r: bool)
    ensures
        r <==> is_valid_method(m@),
{
    reqwest::Method::from_bytes(m.as_bytes()).is_ok()
}

/// The method named by `method`: its name trimmed, where that is a method
/// name the HTTP client accepts; a refusal naming `method` otherwise.
pub fn parse_method(method: &str) -> (r: Result<String, AppError>)
    ensures
        r is Ok <==> is_valid_method(trim(method@)),
        r matches Ok(m) ==> m@ == trim(method@),
        r matches Err(e) ==> e@ == ErrorView::InvalidInput("invalid HTTP method: "@ + method@),
{
    let trimmed = trim_str(method);
    if method_accepted(trimmed.as_str()) {
        Ok(trimmed)
    } else {
        Err(AppError::InvalidInput(concat_str("invalid HTTP method: ", method)))
    }
}

} // verus!
