//! Request URLs: parsed by the `url` crate into the parts a request needs.

use vstd::prelude::*;
use vstd::string::StringExecFns;

use crate::error::{Error, Kind, Source};
use crate::text::str_eq;

verus! {

#[verifier::external_type_specification]
#[verifier::external_body]
pub struct ExParseError(url::ParseError);

/// What `url::Url::parse` makes of a text, read back through the URL's
/// accessors: its serialization, scheme, authority, path and query; `None`
/// when the text is not a URL.
pub uninterp spec fn url_components(text: Seq<char>) -> Option<
    (Seq<char>, Seq<char>, Seq<char>, Seq<char>, Option<Seq<char>>),
>;

/// A parsed absolute URL, held as the parts that a request reads.
#[derive(Debug)]
pub struct ParsedUrl {
    serialization: String,
    scheme: String,
    authority: String,
    path: String,
    query: Option<String>,
}

impl View for ParsedUrl {
    /// (serialization, scheme, authority, path, query).
    type V = (Seq<char>, Seq<char>, Seq<char>, Seq<char>, Option<Seq<char>>);

    closed spec fn view(&self) -> Self::V {
        (
            self.serialization@,
            self.scheme@,
            self.authority@,
            self.path@,
            match self.query {
                Some(q) => Some(q@),
                None => None,
            },
        )
    }
}

/// `url::Url::parse`, with the parsed URL read back through `as_str`,
/// `scheme`, `authority`, `path` and `query`.
#[verifier::external_body]
fn url_parse(text: &str) -> (r: Result<ParsedUrl, url::ParseError>)
    ensures
        r is Ok <==> url_components(text@) is Some,
        r matches Ok(u) ==> Some(u@) == url_components(text@),
{
    match url::Url::parse(text) {
        Ok(u) => Ok(
            ParsedUrl {
                serialization: u.as_str().to_string(),
                scheme: u.scheme().to_string(),
                authority: u.authority().to_string(),
                path: u.path().to_string(),
                query: u.query().map(|q| q.to_string()),
            },
        ),
        Err(e) => Err(e),
    }
}

/// How a URL's scheme is given to the WASI HTTP interface.
#[derive(Debug)]
pub enum WasiScheme {
    Http,
    Https,
    Other(String),
}

/// The text of a path with its query, if any, after a `?`.
pub open spec fn path_with_query_of(path: Seq<char>, query: Option<Seq<char>>) -> Seq<char> {
    match query {
        Some(q) => path + "?"@ + q,
        None => path,
    }
}

/// The text sent as a request's path: the URL's path, then, when the URL
/// has a query, a `?` and the whole query, whatever the path is.
pub proof fn law_path_with_query(path: Seq<char>, query: Option<Seq<char>>)
    ensures
        query is None ==> path_with_query_of(path, query) == path,
        query matches Some(q) ==> ({
            let t = path_with_query_of(path, query);
            &&& t.len() == path.len() + 1 + q.len()
            &&& t.take(path.len() as int) == path
            &&& t[path.len() as int] == '?'
            &&& t.skip(path.len() + 1int) == q
        }),
{
    if let Some(q) = query {
        reveal_strlit("?");
        let t = path_with_query_of(path, query);
        assert(t == path + "?"@ + q);
        assert(t.take(path.len() as int) =~= path);
        assert(t.skip(path.len() + 1int) =~= q);
    }
}

impl ParsedUrl {
    /// Parses an absolute URL; text that is not one gives a builder error.
    pub fn parse(text: &str) -> (r: Result<ParsedUrl, Error>)
        ensures
            r is Ok <==> url_components(text@) is Some,
            r matches Ok(u) ==> Some(u@) == url_components(text@),
            r matches Err(e) ==> e.kind == Kind::Builder && e.source == Some(Source::InvalidUrl),
    {
        match url_parse(text) {
            Ok(u) => Ok(u),
            Err(_) => Err(Error::new(Kind::Builder, Some(Source::InvalidUrl))),
        }
    }

    pub fn as_str(&self) -> (r: &str)
        ensures
            r@ == self@.0,
    {
        self.serialization.as_str()
    }

    pub fn scheme(&self) -> (r: &str)
        ensures
            r@ == self@.1,
    {
        self.scheme.as_str()
    }

    pub fn authority(&self) -> (r: &str)
        ensures
            r@ == self@.2,
    {
        self.authority.as_str()
    }

    pub fn path(&self) -> (r: &str)
        ensures
            r@ == self@.3,
    {
        self.path.as_str()
    }

    pub fn query(&self) -> (r: Option<&str>)
        ensures
            r is Some <==> self@.4 is Some,
            r matches Some(q) ==> q@ == self@.4.unwrap(),
    {
        match &self.query {
            Some(q) => Some(q.as_str()),
            None => None,
        }
    }

    /// A copy of the URL.
    pub fn duplicate(&self) -> (r: ParsedUrl)
        ensures
            r@ == self@,
    {
        ParsedUrl {
            serialization: self.serialization.clone(),
            scheme: self.scheme.clone(),
            authority: self.authority.clone(),
            path: self.path.clone(),
            query: match &self.query {
                Some(q) => Some(q.clone()),
                None => None,
            },
        }
    }

    /// The scheme as the WASI HTTP interface takes it: `http` and `https`
    /// by name, any other scheme as text.
    pub fn wasi_scheme(&self) -> (r: WasiScheme)
        ensures
            self@.1 == "http"@ ==> r == WasiScheme::Http,
            self@.1 == "https"@ ==> r == WasiScheme::Https,
            self@.1 != "http"@ && self@.1 != "https"@ ==> (r matches WasiScheme::Other(s)
                && s@ == self@.1),
    {
        proof {
            reveal_strlit("http");
            reveal_strlit("https");
            assert("http"@.len() != "https"@.len());
        }
        if str_eq(self.scheme.as_str(), "http") {
            WasiScheme::Http
        } else if str_eq(self.scheme.as_str(), "https") {
            WasiScheme::Https
        } else {
            WasiScheme::Other(self.scheme.clone())
        }
    }

    /// The path, followed by `?` and the query when there is one.
    pub fn path_with_query(&self) -> (r: String)
        ensures
            r@ == path_with_query_of(self@.3, self@.4),
    {
        let mut s = self.path.clone();
        match &self.query {
            Some(q) => {
                s.append("?");
                s.append(q.as_str());
            },
            None => {},
        }
        s
    }
}

} // verus!
