//! Who may call the gateway, and what a refused call is answered.
use crate::json::{Json, JsonView};
use crate::names::lemma_names;
use crate::text::{
    decimal, decimal_text, digits_value, law_decimal_stands_for_the_number,
    law_only_capitals_are_made_small, law_prefix_is_the_beginning, lower_text, starts_with,
    strip_prefix,
};
use subtle::ConstantTimeEq;
use vstd::prelude::*;
use vstd::utf8::encode_utf8_decode_utf8;

verus! {

/// The largest body of a request that is read, in bytes.
pub const MAX_BODY_SIZE: usize = 2097152;

/// A refused request: the HTTP status and what is wrong.
pub struct ApiError {
    pub status: u16,
    pub message: String,
}

/// What a refusal says.
pub struct ApiErrorView {
    pub status: u16,
    pub message: Seq<char>,
}

impl View for ApiError {
    type V = ApiErrorView;

    open spec fn view(&self) -> ApiErrorView {
        ApiErrorView { status: self.status, message: self.message@ }
    }
}

/// The refusal of a request that is not acceptable as it stands.
pub open spec fn bad_request(message: Seq<char>) -> ApiErrorView {
    ApiErrorView { status: 400, message }
}

/// The OpenAI name of the kind of an error, by its HTTP status.
pub open spec fn error_kind(status: u16) -> Seq<char> {
    if status == 401 {
        "authentication_error"@
    } else if status == 429 {
        "rate_limit_error"@
    } else if 400 <= status < 500 {
        "invalid_request_error"@
    } else {
        "server_error"@
    }
}

/// The JSON body that goes with a refusal.
pub open spec fn error_body(error: ApiErrorView) -> JsonView {
    JsonView::object().with(
        "error"@,
        JsonView::object().with("message"@, JsonView::Text(error.message)).with(
            "type"@,
            JsonView::Text(error_kind(error.status)),
        ).with("param"@, JsonView::Null).with(
            "code"@,
            JsonView::Text(decimal(error.status as nat)),
        ),
    )
}

impl ApiError {
    pub fn new(status: u16, message: String) -> (error: ApiError)
        ensures
            error@ == (ApiErrorView { status, message: message@ }),
    {
        ApiError { status, message }
    }

    /// The refusal of a request that is not acceptable as it stands.
    pub fn bad(message: &str) -> (error: ApiError)
        ensures
            error@ == bad_request(message@),
    {
        ApiError::new(400, message.to_owned())
    }

    /// The JSON body that goes with the refusal.
    pub fn body(&self) -> (body: Json)
        ensures
            body@ == error_body(self@),
    {
        let kind = if self.status == 401 {
            "authentication_error"
        } else if self.status == 429 {
            "rate_limit_error"
        } else if 400 <= self.status && self.status < 500 {
            "invalid_request_error"
        } else {
            "server_error"
        };
        let code = decimal_text(self.status as u64);
        let details = Json::object().with("message", Json::text(self.message.as_str())).with(
            "type",
            Json::text(kind),
        ).with("param", Json::Null).with("code", Json::Text(code));
        Json::object().with("error", details)
    }
}

// ---------------------------------------------------------------------------
// Authentication

/// `axum::http::HeaderMap`, the headers of a request.
#[verifier::external_type_specification]
#[verifier::external_body]
#[verifier::reject_recursive_types(T)]
pub struct ExHeaderMap<T>(axum::http::HeaderMap<T>);

/// `axum::http::HeaderValue`, the bytes of one header.
#[verifier::external_type_specification]
#[verifier::external_body]
pub struct ExHeaderValue(axum::http::HeaderValue);

/// The bytes that a header value holds.
pub uninterp spec fn header_bytes(value: axum::http::HeaderValue) -> Seq<u8>;

/// The headers that a header map holds: under each name, in small letters, the bytes of
/// its first value.
pub uninterp spec fn header_entries(headers: axum::http::HeaderMap) -> Map<Seq<char>, Seq<u8>>;

/// `HeaderMap::get`: the first value under a name, whatever the case of its letters.
#[verifier::external_body]
fn header<'a>(headers: &'a axum::http::HeaderMap, name: &str) -> (value: Option<
    &'a axum::http::HeaderValue,
>)
    ensures
        match value {
            Some(v) => header_entries(*headers).contains_key(lower_text(name@))
                && header_entries(*headers)[lower_text(name@)] == header_bytes(*v),
            None => !header_entries(*headers).contains_key(lower_text(name@)),
        },
{
    headers.get(name)
}

/// A byte that a header's text may hold: printable ASCII, or a tab.
pub open spec fn visible(byte: u8) -> bool {
    32 <= byte < 127 || byte == 9
}

/// The text of a header, which it has where all its bytes are visible ASCII.
pub open spec fn header_text(bytes: Seq<u8>) -> Option<Seq<char>> {
    if forall|i: int| 0 <= i < bytes.len() ==> visible(#[trigger] bytes[i]) {
        Some(bytes.map_values(|byte: u8| byte as char))
    } else {
        None
    }
}

/// `HeaderValue::to_str`: the text of a header whose bytes are all visible ASCII.
#[verifier::external_body]
fn value_text<'a>(value: &'a axum::http::HeaderValue) -> (text: Option<&'a str>)
    ensures
        match text {
            Some(t) => header_text(header_bytes(*value)) == Some(t@),
            None => header_text(header_bytes(*value)) is None,
        },
{
    value.to_str().ok()
}

/// `ConstantTimeEq::ct_eq` on byte slices: whether they have one length and hold the
/// same bytes.
#[verifier::external_body]
fn same_bytes(left: &[u8], right: &[u8]) -> (same: bool)
    ensures
        same == (left@ == right@),
{
    bool::from(left.ct_eq(right))
}

/// Whether the text of an `Authorization` header carries this key.
pub open spec fn carries_key(authorization: Option<Seq<char>>, key: Seq<char>) -> bool {
    match authorization {
        Some(text) => starts_with(text, "Bearer "@) && text.skip("Bearer "@.len() as int) == key,
        None => false,
    }
}

/// The text of the `Authorization` header of a request.
pub open spec fn authorization(headers: axum::http::HeaderMap) -> Option<Seq<char>> {
    if header_entries(headers).contains_key(lower_text("authorization"@)) {
        header_text(header_entries(headers)[lower_text("authorization"@)])
    } else {
        None
    }
}

/// Whether the text of an `Authorization` header carries this key.
pub fn bearer_matches(authorization: Option<&str>, key: &str) -> (valid: bool)
    ensures
        valid == carries_key(
            match authorization {
                Some(text) => Some(text@),
                None => None,
            },
            key@,
        ),
{
    match authorization {
        None => false,
        Some(text) => match strip_prefix(text, "Bearer ") {
            None => false,
            Some(candidate) => {
                proof {
                    encode_utf8_decode_utf8(candidate@);
                    encode_utf8_decode_utf8(key@);
                }
                same_bytes(candidate.as_str().as_bytes(), key.as_bytes())
            },
        },
    }
}

/// Whether a request carries this key.
pub fn valid_bearer(headers: &axum::http::HeaderMap, key: &str) -> (valid: bool)
    ensures
        valid == carries_key(authorization(*headers), key@),
{
    match header(headers, "authorization") {
        None => false,
        Some(value) => bearer_matches(value_text(value), key),
    }
}

/// The refusal of a request without the key.
pub open spec fn unauthorized() -> ApiErrorView {
    ApiErrorView { status: 401, message: "Invalid or missing proxy API key"@ }
}

/// Lets a request pass that carries the API key, whatever it asks for.
pub fn authenticate(headers: &axum::http::HeaderMap, key: &str) -> (outcome: Result<(), ApiError>)
    ensures
        match outcome {
            Ok(()) => carries_key(authorization(*headers), key@),
            Err(error) => !carries_key(authorization(*headers), key@) && error@ == unauthorized(),
        },
{
    if valid_bearer(headers, key) {
        Ok(())
    } else {
        Err(ApiError::new(401, "Invalid or missing proxy API key".to_owned()))
    }
}

/// What a gateway that is alive answers.
pub fn health() -> (body: Json)
    ensures
        body@ == JsonView::object().with("status"@, JsonView::Text("ok"@)),
{
    Json::object().with("status", Json::text("ok"))
}

/// What a request for an unknown path is answered.
pub fn unknown_endpoint() -> (error: ApiError)
    ensures
        error@ == (ApiErrorView { status: 404, message: "Unknown endpoint"@ }),
{
    ApiError::new(404, "Unknown endpoint".to_owned())
}

/// Whether a request may start: a slot must be free, and the gateway not stopping.
pub fn may_generate(slot_free: bool, stopping: bool) -> (outcome: Result<(), ApiError>)
    ensures
        match outcome {
            Ok(()) => slot_free && !stopping,
            Err(error) => (!slot_free || stopping) && error@ == if !slot_free {
                ApiErrorView { status: 429, message: "Proxy is busy; retry later"@ }
            } else {
                ApiErrorView { status: 503, message: "Proxy is stopping"@ }
            },
        },
{
    if !slot_free {
        Err(ApiError::new(429, "Proxy is busy; retry later".to_owned()))
    } else if stopping {
        Err(ApiError::new(503, "Proxy is stopping".to_owned()))
    } else {
        Ok(())
    }
}

/// A key opens only the listener whose key it is: a request that carries one key is
/// accepted exactly where that key is asked for.
pub proof fn law_key_opens_only_its_listener(carried: Seq<char>, asked: Seq<char>)
    ensures
        carries_key(Some("Bearer "@ + carried), asked) <==> carried == asked,
{
    let text = "Bearer "@ + carried;
    assert(text.take("Bearer "@.len() as int) == "Bearer "@);
    assert(text.skip("Bearer "@.len() as int) == carried);
}

/// A refusal is told as it is: its body holds the message character by character, its status
/// in digits, and the kind of error that clients know the status by.
pub proof fn law_refusal_is_told_as_it_is(error: ApiErrorView)
    ensures
        ({
            let told = error_body(error).at("error"@);
            &&& told.at("message"@) == JsonView::Text(error.message)
            &&& told.at("code"@) is Text
            &&& digits_value(told.at("code"@)->Text_0) == error.status
            &&& told.field("param"@) == Some(JsonView::Null)
            &&& told.at("type"@) == JsonView::Text("authentication_error"@) <==> error.status == 401
            &&& told.at("type"@) == JsonView::Text("rate_limit_error"@) <==> error.status == 429
            &&& told.at("type"@) == JsonView::Text("invalid_request_error"@) <==> 400
                <= error.status <= 499 && error.status != 401 && error.status != 429
            &&& told.at("type"@) == JsonView::Text("server_error"@) <==> !(400 <= error.status
                <= 499)
        }),
{
    lemma_names();
    law_decimal_stands_for_the_number(error.status as nat);
    reveal_strlit("authentication_error");
    reveal_strlit("rate_limit_error");
    reveal_strlit("invalid_request_error");
    reveal_strlit("server_error");
    assert("authentication_error"@.len() == 20);
    assert("rate_limit_error"@.len() == 16);
    assert("invalid_request_error"@.len() == 21);
    assert("server_error"@.len() == 12);
}

/// What cannot be accepted as it stands is answered as the client's mistake, and a call without
/// the key as one that lacks it; the message of the former is the one that was given.
pub proof fn law_refusals_blame_the_client(message: Seq<char>)
    ensures
        bad_request(message).status == 400,
        bad_request(message).message == message,
        unauthorized().status == 401,
        error_body(bad_request(message)).at("error"@).at("type"@) == JsonView::Text(
            "invalid_request_error"@,
        ),
        error_body(unauthorized()).at("error"@).at("type"@) == JsonView::Text(
            "authentication_error"@,
        ),
{
    law_refusal_is_told_as_it_is(bad_request(message));
    law_refusal_is_told_as_it_is(unauthorized());
}

/// The text of a header is its bytes, one character each; it has none where a byte is neither
/// printable ASCII nor a tab.
pub proof fn law_header_text_is_its_bytes(bytes: Seq<u8>)
    ensures
        header_text(bytes) is Some <==> forall|i: int|
            0 <= i < bytes.len() ==> 0x20 <= #[trigger] bytes[i] <= 0x7e || bytes[i] == 0x9,
        header_text(bytes) is Some ==> header_text(bytes)->0.len() == bytes.len(),
        header_text(bytes) is Some ==> forall|i: int|
            0 <= i < bytes.len() ==> #[trigger] header_text(bytes)->0[i] as int == bytes[i],
{
    if header_text(bytes) is Some {
        assert forall|i: int| 0 <= i < bytes.len() implies 0x20 <= #[trigger] bytes[i] <= 0x7e
            || bytes[i] == 0x9 by {
            assert(visible(bytes[i]));
        }
    } else {
        let i = choose|i: int| 0 <= i < bytes.len() && !visible(#[trigger] bytes[i]);
        assert(!(0x20 <= bytes[i] <= 0x7e || bytes[i] == 0x9));
    }
}

/// A request carries a key exactly where it has an `Authorization` header whose text is the key
/// behind `Bearer` and one space.
pub proof fn law_key_is_the_whole_header(headers: axum::http::HeaderMap, key: Seq<char>)
    ensures
        carries_key(authorization(headers), key) <==> header_entries(headers).contains_key(
            "authorization"@,
        ) && header_text(header_entries(headers)["authorization"@]) == Some("Bearer "@ + key),
{
    reveal_strlit("authorization");
    assert(lower_text("authorization"@) =~= "authorization"@) by {
        assert forall|i: int| 0 <= i < "authorization"@.len() implies #[trigger] lower_text(
            "authorization"@,
        )[i] == "authorization"@[i] by {
            law_only_capitals_are_made_small("authorization"@, i);
        }
    }
    match authorization(headers) {
        Some(text) => {
            law_prefix_is_the_beginning("Bearer "@, key, text);
        },
        None => {},
    }
}

} // verus!
