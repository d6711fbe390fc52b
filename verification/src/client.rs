//! What the HTTP client decides before and after a request: the endpoint URL, the
//! authorization header, which statuses count as success, and the error it reports.

use vstd::prelude::*;
use crate::text::{
    debug_quote, debug_quoted, push_char, strip_leading, strip_leading_char, strip_trailing,
    strip_trailing_char,
};

verus! {

/// The serialization of the URL that `url::Url::parse` makes of `input`, `None` where it
/// reports an error.
pub uninterp spec fn parsed_url(input: Seq<char>) -> Option<Seq<char>>;

/// The text of the error that `url::Url::parse` reports for `input` (its `Display`).
pub uninterp spec fn url_parse_error(input: Seq<char>) -> Seq<char>;

/// `url::Url::parse`, the URL returned as its serialization and the error as its text. Both
/// are named: `parsed_url` and `url_parse_error`.
#[verifier::external_body]
fn parse_url(input: &str) -> (r: Result<String, String>)
    ensures
        r is Ok <==> parsed_url(input@) is Some,
        r matches Ok(u) ==> parsed_url(input@) == Some(u@),
        r matches Err(e) ==> e@ == url_parse_error(input@),
{
    match url::Url::parse(input) {
        Ok(u) => Ok(u.into()),
        Err(e) => Err(e.to_string()),
    }
}

/// Why a request could not be made or did not succeed.
#[derive(Debug, Clone, PartialEq, Eq)]
pub enum ClientError {
    /// The base URL is not an absolute URL.
    InvalidBaseUrl { base_url: String, reason: String },
    /// The API key cannot stand in an HTTP header.
    InvalidApiKey,
    /// The server answered with a status other than 2xx. `status_text` is the status as
    /// `reqwest::StatusCode` displays it, such as `404 Not Found`.
    Http { path: String, status: u16, status_text: String, body: String },
    /// The request could not be sent or its answer not received.
    Transport { reason: String },
    /// The answer is not the JSON that the endpoint returns.
    Decode { path: String, reason: String },
}

/// The message that the command prints for a client error.
pub open spec fn client_error_message(e: ClientError) -> Seq<char> {
    match e {
        ClientError::InvalidBaseUrl { base_url, reason } => "invalid --base-url "@ + debug_quoted(
            base_url@,
        ) + ": "@ + reason@,
        ClientError::InvalidApiKey => "invalid api key: failed to parse header value"@,
        ClientError::Http { path, status, status_text, body } => "request to "@ + path@
            + " failed with HTTP "@ + status_text@ + ": "@ + body@,
        ClientError::Transport { reason } => reason@,
        ClientError::Decode { path, reason } => "could not decode response from "@ + path@
            + " as JSON: "@ + reason@,
    }
}

impl ClientError {
    /// The message that the command prints for this error.
    pub fn message(&self) -> (r: String)
        ensures
            r@ == client_error_message(*self),
    {
        match self {
            ClientError::InvalidBaseUrl { base_url, reason } => {
                let mut m = String::from_str("invalid --base-url ");
                m.append(debug_quote(base_url.as_str()).as_str());
                m.append(": ");
                m.append(reason.as_str());
                m
            },
            ClientError::InvalidApiKey => String::from_str("invalid api key: failed to parse header value"),
            ClientError::Http { path, status: _, status_text, body } => {
                let mut m = String::from_str("request to ");
                m.append(path.as_str());
                m.append(" failed with HTTP ");
                m.append(status_text.as_str());
                m.append(": ");
                m.append(body.as_str());
                m
            },
            ClientError::Transport { reason } => reason.clone(),
            ClientError::Decode { path, reason } => {
                let mut m = String::from_str("could not decode response from ");
                m.append(path.as_str());
                m.append(" as JSON: ");
                m.append(reason.as_str());
                m
            },
        }
    }
}

/// Whether an error is the server answering with the given HTTP status.
pub fn has_http_status(error: &ClientError, status: u16) -> (r: bool)
    ensures
        r == (error matches ClientError::Http { status: s, .. } && s == status),
{
    match error {
        ClientError::Http { status: s, .. } => *s == status,
        _ => false,
    }
}

/// Whether an HTTP status is a success (2xx), as `reqwest::StatusCode::is_success` decides.
pub fn is_success_status(status: u16) -> (r: bool)
    ensures
        r == (200 <= status <= 299),
{
    200 <= status && status <= 299
}

/// Reads the base URL given on the command line, as the client keeps it.
pub fn check_base_url(base_url: &str) -> (r: Result<String, ClientError>)
    ensures
        match parsed_url(base_url@) {
            Some(u) => r matches Ok(s) && s@ == u,
            None => r matches Err(ClientError::InvalidBaseUrl { base_url: b, reason })
                && b@ == base_url@ && reason@ == url_parse_error(base_url@),
        },
{
    match parse_url(base_url) {
        Ok(u) => Ok(u),
        Err(reason) => Err(ClientError::InvalidBaseUrl { base_url: String::from_str(base_url), reason }),
    }
}

/// The URL of an endpoint: the base URL, without its trailing slashes, then `/` and the path
/// without its leading slashes. The request goes to `{base_url}{path}`, so a base URL with a
/// path prefix keeps the whole prefix.
pub open spec fn spec_endpoint_url(base_url: Seq<char>, path: Seq<char>) -> Seq<char> {
    strip_trailing(base_url, '/') + seq!['/'] + strip_leading(path, '/')
}

/// The endpoint URL is the base URL followed by the path, whatever prefix the base URL has: for
/// a base without a trailing slash and a path without a leading one it is `base/path`, and
/// slashes added at the end of the base or the start of the path change nothing.
pub proof fn lemma_endpoint_url_appends_path(base_url: Seq<char>, path: Seq<char>)
    ensures
        (base_url.len() == 0 || base_url.last() != '/') && (path.len() == 0 || path[0] != '/')
            ==> spec_endpoint_url(base_url, path) == base_url + seq!['/'] + path,
        spec_endpoint_url(base_url.push('/'), path) == spec_endpoint_url(base_url, path),
        spec_endpoint_url(base_url, seq!['/'] + path) == spec_endpoint_url(base_url, path),
{
    assert(base_url.push('/').drop_last() =~= base_url);
    assert((seq!['/'] + path).drop_first() =~= path);
}

/// The URL of an endpoint: `{base_url}{path}`, with exactly one `/` between them.
pub fn endpoint_url(base_url: &str, path: &str) -> (r: String)
    ensures
        r@ == spec_endpoint_url(base_url@, path@),
{
    let mut url = strip_trailing_char(base_url, '/');
    push_char(&mut url, '/');
    let relative = strip_leading_char(path, '/');
    url.append(relative.as_str());
    url
}

/// A character that an HTTP header value may hold, as `http::HeaderValue::from_str` accepts
/// it: every byte at least 32 and not 127, or a tab. Characters beyond ASCII encode to bytes of
/// at least 128 and are accepted.
pub open spec fn header_char_valid(c: char) -> bool {
    (c as u32 >= 32 && c as u32 != 127) || c == '\t'
}

/// A text that `http::HeaderValue::from_str` accepts.
pub open spec fn header_value_valid(s: Seq<char>) -> bool {
    forall|i: int| 0 <= i < s.len() ==> header_char_valid(#[trigger] s[i])
}

/// The value of the authorization header for an API key.
pub open spec fn bearer_value(key: Seq<char>) -> Seq<char> {
    "Bearer "@ + key
}

fn header_char_ok(c: char) -> (r: bool)
    ensures
        r == header_char_valid(c),
{
    let u = c as u32;
    (u >= 32 && u != 127) || c == '\t'
}

/// The authorization header value to send: none without a key, `Bearer <key>` with one, and an
/// error when that value cannot stand in an HTTP header.
pub fn authorization_value(api_key: &Option<String>) -> (r: Result<Option<String>, ClientError>)
    ensures
        match api_key {
            None => r == Ok::<Option<String>, ClientError>(None),
            Some(k) => if header_value_valid(bearer_value(k@)) {
                r matches Ok(Some(v)) && v@ == bearer_value(k@)
            } else {
                r == Err::<Option<String>, ClientError>(ClientError::InvalidApiKey)
            },
        },
{
    match api_key {
        None => Ok(None),
        Some(k) => {
            let mut v = String::from_str("Bearer ");
            v.append(k.as_str());
            assert(v@ == bearer_value(k@));
            let n = v.as_str().unicode_len();
            let mut i: usize = 0;
            while i < n
                invariant
                    n == v@.len(),
                    v@ == bearer_value(k@),
                    *api_key == Some(*k),
                    i <= n,
                    forall|j: int| 0 <= j < i ==> header_char_valid(#[trigger] v@[j]),
                decreases n - i,
            {
                if !header_char_ok(v.as_str().get_char(i)) {
                    assert(!header_char_valid(v@[i as int]));
                    assert(!header_value_valid(bearer_value(k@)));
                    return Err(ClientError::InvalidApiKey);
                }
                i = i + 1;
            }
            Ok(Some(v))
        },
    }
}

} // verus!
