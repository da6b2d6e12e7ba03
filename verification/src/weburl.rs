use vstd::prelude::*;

verus! {

/// The parts of a parsed URL that the library reads, as character sequences.
pub struct UrlParts {
    pub serialization: Seq<char>,
    pub scheme: Seq<char>,
    pub host: Option<Seq<char>>,
    pub path: Seq<char>,
}

/// A URL as the `url` crate parsed it: its serialization, its scheme, its
/// host (absent for URLs such as `mailto:` ones) and its path.
#[derive(Debug, Clone)]
pub struct ParsedUrl {
    pub serialization: String,
    pub scheme: String,
    pub host: Option<String>,
    pub path: String,
}

impl View for ParsedUrl {
    type V = UrlParts;

    open spec fn view(&self) -> UrlParts {
        UrlParts {
            serialization: self.serialization@,
            scheme: self.scheme@,
            host: match self.host {
                Some(h) => Some(h@),
                None => None,
            },
            path: self.path@,
        }
    }
}

/// What `url::Url::parse` makes of a text: `None` where it refuses the text,
/// else the serialization, scheme, host and path of the URL it builds
/// (WHATWG URL parsing, which this library does not restate).
pub uninterp spec fn url_parse(text: Seq<char>) -> Option<UrlParts>;

/// Parses an absolute URL with `url::Url::parse` and reads its
/// serialization (`as_str`), `scheme`, `host_str` and `path`.
/// Claimed: success exactly where [`url_parse`] gives a URL, and then the parts it gives.
/// The error value is left unsaid.
#[verifier::external_body]
fn url_crate_parse(text: &str) -> (r: Result<ParsedUrl, url::ParseError>)
    ensures
        r is Ok <==> url_parse(text@) is Some,
        r matches Ok(u) ==> url_parse(text@) == Some(u@),
{
    match url::Url::parse(text) {
        Ok(u) => Ok(ParsedUrl {
            serialization: u.as_str().to_string(),
            scheme: u.scheme().to_string(),
            host: u.host_str().map(|h| h.to_string()),
            path: u.path().to_string(),
        }),
        Err(e) => Err(e),
    }
}

/// Parses an absolute URL: success exactly where the `url` crate accepts
/// the text, and then the parts of the URL it builds.
pub fn parse_url(text: &str) -> (r: Result<ParsedUrl, url::ParseError>)
    ensures
        r is Ok <==> url_parse(text@) is Some,
        r matches Ok(u) ==> url_parse(text@) == Some(u@),
{
    url_crate_parse(text)
}

/// `url::ParseError::EmptyHost`, the error of a URL without a host.
#[verifier::external_body]
pub(crate) fn empty_host_error() -> url::ParseError {
    url::ParseError::EmptyHost
}

impl ParsedUrl {
    /// The serialization of the URL.
    pub fn as_str(&self) -> (r: &str)
        ensures
            r@ == self.serialization@,
    {
        self.serialization.as_str()
    }

    /// A copy of the URL.
    pub fn duplicate(&self) -> (r: ParsedUrl)
        ensures
            r == *self,
    {
        ParsedUrl {
            serialization: self.serialization.clone(),
            scheme: self.scheme.clone(),
            host: crate::config::copy_opt_string(&self.host),
            path: self.path.clone(),
        }
    }
}

} // verus!
