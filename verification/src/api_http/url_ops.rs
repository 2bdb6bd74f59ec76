//! URL parsing, query and form encoding, and JSON syntax checks, done by the `url` and
//! `serde_json` crates; the library sees their results as plain values.
use vstd::prelude::*;

verus! {

#[verifier::external_type_specification]
#[verifier::external_body]
pub struct ExUrl(url::Url);

/// Plain content of a URL: its serialization, whether it has a host, and its scheme.
pub ghost struct UrlView {
    pub text: Seq<char>,
    pub has_host: bool,
    pub scheme: Seq<char>,
}

/// A URL held by the `url` crate together with the plain values that the library reads.
pub struct ParsedUrl {
    url: url::Url,
    text: String,
    has_host: bool,
    scheme: String,
}

impl View for ParsedUrl {
    type V = UrlView;

    closed spec fn view(&self) -> UrlView {
        UrlView { text: self.text@, has_host: self.has_host, scheme: self.scheme@ }
    }
}

impl ParsedUrl {
    pub fn text(&self) -> (r: &String)
        ensures
            r@ == self@.text,
    {
        &self.text
    }

    pub fn has_host(&self) -> (r: bool)
        ensures
            r == self@.has_host,
    {
        self.has_host
    }

    pub fn scheme(&self) -> (r: &String)
        ensures
            r@ == self@.scheme,
    {
        &self.scheme
    }
}

/// What `url::Url::parse` gives for a text: the URL, or the error's message.
pub uninterp spec fn url_parse(s: Seq<char>) -> Result<UrlView, Seq<char>>;

/// What `url::Url::join` gives for the URL whose serialization is `base` and a reference.
pub uninterp spec fn url_join(base: Seq<char>, input: Seq<char>) -> Result<UrlView, Seq<char>>;

/// The URL with serialization `url` after its query serializer took `pairs`.
pub uninterp spec fn url_with_query(url: Seq<char>, pairs: Seq<(Seq<char>, Seq<char>)>) -> UrlView;

/// `application/x-www-form-urlencoded` serialization of `pairs`.
pub uninterp spec fn form_encoded(pairs: Seq<(Seq<char>, Seq<char>)>) -> Seq<char>;

/// The message of the error `serde_json::from_str::<serde_json::Value>` gives, if any.
pub uninterp spec fn json_error(s: Seq<char>) -> Option<Seq<char>>;

pub open spec fn pair_views(v: Seq<(String, String)>) -> Seq<(Seq<char>, Seq<char>)> {
    Seq::new(v.len(), |i: int| (v[i].0@, v[i].1@))
}

/// Calls `url::Url::parse`; the contract only names the result and the error text.
#[verifier::external_body]
pub(crate) fn parse_url(s: &str) -> (r: Result<ParsedUrl, String>)
    ensures
        match url_parse(s@) {
            Ok(u) => r is Ok && r->Ok_0@ == u,
            Err(e) => r is Err && r->Err_0@ == e,
        },
{
    match url::Url::parse(s) {
        Ok(u) => Ok(ParsedUrl { text: u.as_str().to_owned(), has_host: u.has_host(), scheme: u.scheme().to_owned(), url: u }),
        Err(e) => Err(e.to_string()),
    }
}

/// Calls `url::Url::join` on `base`; the contract only names the result and the error text.
#[verifier::external_body]
pub(crate) fn join_url(base: &ParsedUrl, input: &str) -> (r: Result<ParsedUrl, String>)
    ensures
        match url_join(base@.text, input@) {
            Ok(u) => r is Ok && r->Ok_0@ == u,
            Err(e) => r is Err && r->Err_0@ == e,
        },
{
    match base.url.join(input) {
        Ok(u) => Ok(ParsedUrl { text: u.as_str().to_owned(), has_host: u.has_host(), scheme: u.scheme().to_owned(), url: u }),
        Err(e) => Err(e.to_string()),
    }
}

/// Hands `pairs` to `form_urlencoded::Serializer::extend_pairs` of the URL's
/// `query_pairs_mut`; the contract only names the resulting URL.
#[verifier::external_body]
pub(crate) fn append_query_pairs(u: ParsedUrl, pairs: &Vec<(String, String)>) -> (r: ParsedUrl)
    ensures
        r@ == url_with_query(u@.text, pair_views(pairs@)),
{
    let mut url = u.url;
    url.query_pairs_mut().extend_pairs(pairs.iter());
    ParsedUrl { text: url.as_str().to_owned(), has_host: url.has_host(), scheme: url.scheme().to_owned(), url }
}

/// Calls `form_urlencoded::Serializer::extend_pairs` on an empty serializer. Every pair
/// writes at least its `=`, so the text is empty exactly when there is no pair.
#[verifier::external_body]
pub(crate) fn form_urlencode(pairs: &Vec<(String, String)>) -> (r: String)
    ensures
        r@ == form_encoded(pair_views(pairs@)),
        (r@.len() == 0) == (pairs@.len() == 0),
{
    url::form_urlencoded::Serializer::new(String::new()).extend_pairs(pairs.iter()).finish()
}

/// Calls `serde_json::from_str::<serde_json::Value>` and keeps the error's message.
#[verifier::external_body]
pub(crate) fn json_syntax_error(s: &str) -> (r: Option<String>)
    ensures
        match json_error(s@) {
            Some(e) => r is Some && r->0@ == e,
            None => r is None,
        },
{
    serde_json::from_str::<serde_json::Value>(s).err().map(|e| e.to_string())
}

} // verus!
