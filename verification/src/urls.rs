//! URLs, parsed and joined by `url`.

use vstd::prelude::*;

verus! {

/// `url::Url`, carried as it is.
#[verifier::external_type_specification]
#[verifier::external_body]
pub struct ExUrl(url::Url);

/// `url::ParseError`, carried as it is.
#[verifier::external_type_specification]
#[verifier::external_body]
pub struct ExParseError(url::ParseError);

/// A URL written out.
pub uninterp spec fn url_text(url: url::Url) -> Seq<char>;

/// The URL, written out, that `input` parses to; none where it is no
/// absolute URL.
pub uninterp spec fn url_parsed(input: Seq<char>) -> Option<Seq<char>>;

/// The URL, written out, that `input` is relative to the URL written `base`;
/// none where there is none.
pub uninterp spec fn url_joined(base: Seq<char>, input: Seq<char>) -> Option<Seq<char>>;

/// `url::Url::parse`: the absolute URL that a text writes, or why it writes
/// none.
#[verifier::external_body]
pub(crate) fn parse(input: &str) -> (url: Result<url::Url, url::ParseError>)
    ensures
        match url {
            Ok(u) => url_parsed(input@) == Some(url_text(u)),
            Err(_) => url_parsed(input@) is None,
        },
{
    url::Url::parse(input)
}

/// `url::Url::join`: the text parsed as a URL with `base` as its base.
#[verifier::external_body]
pub(crate) fn join(base: &url::Url, input: &str) -> (url: Result<url::Url, url::ParseError>)
    ensures
        match url {
            Ok(u) => url_joined(url_text(*base), input@) == Some(url_text(u)),
            Err(_) => url_joined(url_text(*base), input@) is None,
        },
{
    base.join(input)
}

/// `url::Url::as_str`: the URL written out.
#[verifier::external_body]
pub(crate) fn as_text(url: &url::Url) -> (text: String)
    ensures
        text@ == url_text(*url),
{
    url.as_str().to_owned()
}

} // verus!
