//! From a snippet's URI to the path of the file it names.

use vstd::prelude::*;
use crate::path::{FilePath, PathView, parse_path};

verus! {

/// A parsed URL of the `url` crate. It is carried from the parser to the
/// conversion below and never looked into.
#[verifier::external_type_specification]
#[verifier::external_body]
pub struct ExUrl(url::Url);

/// The URL that the text `uri` parses to, as `url::Url::parse` decides it;
/// `None` where it rejects the text.
pub uninterp spec fn parsed_url(uri: Seq<char>) -> Option<url::Url>;

/// The bytes of the local path that the URL `url` names, as
/// `url::Url::to_file_path` computes it; `None` where the URL names no local
/// file.
pub uninterp spec fn url_path_bytes(url: url::Url) -> Option<Seq<u8>>;

/// The local path that the URI `uri` names, if it names one.
pub open spec fn local_path_of(uri: Seq<char>) -> Option<PathView> {
    match parsed_url(uri) {
        Some(url) => match url_path_bytes(url) {
            Some(bytes) => Some(parse_path(bytes)),
            None => None,
        },
        None => None,
    }
}

/// `url::Url::parse`. It computes on the text alone, so its result is named
/// as a function of the text; nothing else is claimed of it. A text that it
/// rejects gives `None`.
#[verifier::external_body]
fn parse_url(uri: &str) -> (r: Option<url::Url>)
    ensures
        r == parsed_url(uri@),
{
    url::Url::parse(uri).ok()
}

/// `url::Url::to_file_path`, and the path handed on as its bytes. It
/// computes on the URL alone, so its result is named as a function of the
/// URL; nothing else is claimed of it. A URL that it rejects gives `None`.
#[verifier::external_body]
fn url_file_path(url: &url::Url) -> (r: Option<Vec<u8>>)
    ensures
        match r {
            Some(bytes) => url_path_bytes(*url) == Some(bytes@),
            None => url_path_bytes(*url) is None,
        },
{
    Some(url.to_file_path().ok()?.into_os_string().into_encoded_bytes())
}

/// The path of the local file that `uri` names, if it names one.
pub fn local_path(uri: &str) -> (r: Option<FilePath>)
    ensures
        match r {
            Some(p) => local_path_of(uri@) == Some(p@),
            None => local_path_of(uri@) is None,
        },
{
    match parse_url(uri) {
        Some(url) => match url_file_path(&url) {
            Some(bytes) => Some(FilePath::from_bytes(bytes.as_slice())),
            None => None,
        },
        None => None,
    }
}

} // verus!
