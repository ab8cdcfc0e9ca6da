//! Calls into the `url`, `chrono` and `uuid` crates.
//!
//! Each function here is trusted: Verus believes its contract without
//! reading its body.

use vstd::prelude::*;

verus! {

/// The components of a parsed URL, as the `url` crate reports them.
pub struct UrlParts {
    pub scheme: String,
    pub host: Option<String>,
    pub port: Option<u16>,
    pub path: String,
    pub query: Option<String>,
}

/// The components of a URL: scheme, host, port, path and query.
pub type UrlModel = (Seq<char>, Option<Seq<char>>, Option<u16>, Seq<char>, Option<Seq<char>>);

/// What `url::Url::parse` yields for an input with these characters: `None`
/// where it fails, else the URL's scheme, host, port, path and query.
pub uninterp spec fn parsed_url(input: Seq<char>) -> Option<UrlModel>;

/// The components of a URL as a plain value.
pub open spec fn parts_model(p: UrlParts) -> UrlModel {
    (p.scheme@, crate::text::opt_view(p.host), p.port, p.path@, crate::text::opt_view(p.query))
}

/// `url::Url::parse`, then `scheme`, `host_str`, `port`, `path` and `query`
/// of the result.
///
/// Trusted: the result is `None` where parsing fails and otherwise holds the
/// five components; both are the named value `parsed_url(input@)`, a function
/// of the input alone. Nothing more is claimed of the parser.
#[verifier::external_body]
pub fn parse_url_parts(input: &str) -> (r: Option<UrlParts>)
    ensures
        match r {
            Some(p) => parsed_url(input@) == Some(parts_model(p)),
            None => parsed_url(input@) is None,
        },
{
    match url::Url::parse(input) {
        Ok(u) => Some(UrlParts {
            scheme: u.scheme().to_string(),
            host: u.host_str().map(|h| h.to_string()),
            port: u.port(),
            path: u.path().to_string(),
            query: u.query().map(|q| q.to_string()),
        }),
        Err(_) => None,
    }
}

/// `chrono::Utc::now()`, as milliseconds since the Unix epoch.
///
/// Trusted, and nothing is claimed of the result: it is the time.
#[verifier::external_body]
pub fn now_millis() -> i64 {
    chrono::Utc::now().timestamp_millis()
}

/// `uuid::Uuid::new_v4()`, as its 128-bit value.
///
/// Trusted, and nothing is claimed of the result: it is random.
#[verifier::external_body]
pub fn new_uuid() -> u128 {
    uuid::Uuid::new_v4().as_u128()
}

/// `uuid::Uuid::new_v4()`, in its hyphenated string form; used for fresh tab,
/// bookmark, history and operation identifiers.
///
/// Trusted. The value is random; the contract claims only its length: the
/// hyphenated form that `Display` writes is 36 characters (32 hexadecimal
/// digits and 4 hyphens) for every id.
#[verifier::external_body]
pub fn new_id_string() -> (r: String)
    ensures
        r@.len() == 36,
{
    uuid::Uuid::new_v4().to_string()
}

} // verus!
