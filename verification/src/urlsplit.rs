//! Best-effort URL decomposition. The request target of a log line is kept
//! verbatim; in addition the url crate is asked, behind a trusted wrapper,
//! to split it into scheme, host, port, path and query. A target that the
//! crate cannot parse as an absolute URL (in particular a relative target)
//! simply yields no components; it never rejects the record.

use vstd::prelude::*;

verus! {

/// Mathematical shape of a decomposed URL.
pub ghost struct UrlModel {
    pub scheme: Seq<char>,
    pub host: Option<Seq<char>>,
    pub port: Option<u16>,
    pub path: Seq<char>,
    pub query: Option<Seq<char>>,
}

/// Components of an absolute URL, as the url crate reports them.
#[derive(Clone, Debug, PartialEq)]
pub struct UrlParts {
    pub scheme: String,
    pub host: Option<String>,
    pub port: Option<u16>,
    pub path: String,
    pub query: Option<String>,
}

impl View for UrlParts {
    type V = UrlModel;

    open spec fn view(&self) -> UrlModel {
        UrlModel {
            scheme: self.scheme@,
            host: self.host.deep_view(),
            port: self.port,
            path: self.path@,
            query: self.query.deep_view(),
        }
    }
}

/// What the url crate's decomposition returns for a request target: `None`
/// when the text does not parse as an absolute URL. The result depends on
/// the text alone.
pub uninterp spec fn url_parts_of(s: Seq<char>) -> Option<UrlModel>;

/// Relies on `url::Url::parse` and the accessors `scheme`, `host_str`,
/// `port`, `path` and `query` for best-effort decomposition; a relative
/// reference fails to parse, so every component is reported absent. The
/// decomposition depends on the text alone, so it is named by
/// [`url_parts_of`].
#[verifier::external_body]
pub(crate) fn split_url(s: &str) -> (r: Option<UrlParts>)
    ensures
        match r {
            Some(p) => url_parts_of(s@) == Some(p@),
            None => url_parts_of(s@) is None,
        },
{
    match url::Url::parse(s) {
        Ok(u) => Some(UrlParts {
            scheme: u.scheme().to_string(),
            host: u.host_str().map(|h| h.to_string()),
            port: u.port(),
            path: u.path().to_string(),
            query: u.query().map(|q| q.to_string()),
        }),
        Err(_) => None,
    }
}

} // verus!
