//! Which origin responses are restyled, and what is served in the end.
use vstd::prelude::*;

verus! {

/// The one content type whose responses are restyled.
pub const HTML_CONTENT_TYPE: &'static str = "text/html; charset=UTF-8";

/// The path that every request is sent to at the origin.
pub const ORIGIN_PATH: &'static str = "/";

/// The host that requests to the origin name in their `Host` header.
pub const ORIGIN_HOST: &'static str = "example.com";

/// The backend that serves the origin.
pub const ORIGIN_BACKEND: &'static str = "example_com";

/// Whether a response whose `Content-Type` header reads `content_type`
/// (`None`: no such header, or one that is not text) is to be restyled:
/// only when the header is exactly the HTML content type.
pub fn should_restyle(content_type: Option<&str>) -> (r: bool)
    ensures
        r == (content_type matches Some(t) && t@ == HTML_CONTENT_TYPE@),
{
    match content_type {
        Some(t) => t.to_owned() == HTML_CONTENT_TYPE.to_owned(),
        None => false,
    }
}

/// The body that is served for an HTML response: the restyled page where
/// restyling succeeded, and the page as the origin sent it where it failed.
pub fn body_to_serve(original: String, restyled: Option<String>) -> (r: String)
    ensures
        restyled matches Some(s) ==> r == s,
        restyled is None ==> r == original,
{
    match restyled {
        Some(s) => s,
        None => original,
    }
}

} // verus!
