//! URLs, as `reqwest::Url` parses them.
use vstd::prelude::*;

verus! {

/// The components of a parsed URL: scheme, host, user name, password, query and fragment.
pub type UrlView = (
    Seq<char>,
    Option<Seq<char>>,
    Seq<char>,
    Option<Seq<char>>,
    Option<Seq<char>>,
    Option<Seq<char>>,
);

/// What `reqwest::Url::parse` makes of a text, read through `scheme`,
/// `host_str`, `username`, `password`, `query` and `fragment`; `None` when it
/// rejects the text.
pub uninterp spec fn url_parse(s: Seq<char>) -> Option<UrlView>;

/// The parts of a parsed URL that the settings rules read.
pub struct UrlParts {
    pub scheme: String,
    pub host: Option<String>,
    pub username: String,
    pub password: Option<String>,
    pub query: Option<String>,
    pub fragment: Option<String>,
}

pub open spec fn opt_view(o: Option<String>) -> Option<Seq<char>> {
    match o {
        Some(s) => Some(s@),
        None => None,
    }
}

impl UrlParts {
    pub open spec fn view_tuple(&self) -> UrlView {
        (
            self.scheme@,
            opt_view(self.host),
            self.username@,
            opt_view(self.password),
            opt_view(self.query),
            opt_view(self.fragment),
        )
    }
}

/// The view of an optional parse result.
pub open spec fn opt_parts(o: Option<UrlParts>) -> Option<UrlView> {
    match o {
        Some(p) => Some(p.view_tuple()),
        None => None,
    }
}

/// Calls `reqwest::Url::parse` and copies out the components it reports; the
/// result is named by `url_parse`, nothing more is claimed of it.
#[verifier::external_body]
pub(crate) fn parse_url(s: &str) -> (r: Option<UrlParts>)
    ensures
        url_parse(s@) == opt_parts(r),
{
    match reqwest::Url::parse(s) {
        Ok(url) => Some(UrlParts {
            scheme: url.scheme().to_owned(),
            host: url.host_str().map(str::to_owned),
            username: url.username().to_owned(),
            password: url.password().map(str::to_owned),
            query: url.query().map(str::to_owned),
            fragment: url.fragment().map(str::to_owned),
        }),
        Err(_) => None,
    }
}

} // verus!
