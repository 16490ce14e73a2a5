//! The service's URL, read and changed through the `url` crate.
//!
//! A [`ServiceUrl`] holds a parsed `url::Url` together with its serialization; the
//! serialization is the URL's value for the contracts here. Only the functions of
//! this file build or change one, each keeping the two in step.

use vstd::prelude::*;

verus! {

/// What `url::Url::parse` makes of `input`: the serialization of the parsed URL,
/// or, when `input` is not a valid absolute URL, the rendering of the parse error.
pub uninterp spec fn url_parse(input: Seq<char>) -> Result<Seq<char>, Seq<char>>;

/// The path of the URL serialized as `url` (`url::Url::path`).
pub uninterp spec fn url_path(url: Seq<char>) -> Seq<char>;

/// The serialization of the URL serialized as `url` after `url::Url::set_path(path)`.
pub uninterp spec fn url_with_path(url: Seq<char>, path: Seq<char>) -> Seq<char>;

/// What `url::Url::join(input)` makes of the URL serialized as `base`: the
/// serialization of the resolved URL, or, when resolution fails, the rendering of
/// the parse error.
pub uninterp spec fn url_join(base: Seq<char>, input: Seq<char>) -> Result<Seq<char>, Seq<char>>;

/// The serialization of the URL serialized as `url` after appending the query pair
/// `key=value` (form-urlencoded) with `url::Url::query_pairs_mut().append_pair`.
pub uninterp spec fn url_with_query_pair(url: Seq<char>, key: Seq<char>, value: Seq<char>) -> Seq<
    char,
>;

/// An absolute URL and its serialization.
#[derive(Debug, Clone)]
pub struct ServiceUrl {
    url: url::Url,
    text: String,
}

impl View for ServiceUrl {
    type V = Seq<char>;

    /// The URL's serialization.
    closed spec fn view(&self) -> Seq<char> {
        self.text@
    }
}

impl ServiceUrl {
    /// Parses an absolute URL with `url::Url::parse`.
    ///
    /// Trusted: the result, or the rendering of the parse error, is what
    /// `Url::parse` makes of `input`, named by `url_parse`.
    #[verifier::external_body]
    pub(crate) fn parse(input: &str) -> (r: Result<ServiceUrl, String>)
        ensures
            r is Ok <==> url_parse(input@) is Ok,
            r matches Ok(u) ==> (url_parse(input@) matches Ok(t) && t == u@),
            r matches Err(e) ==> (url_parse(input@) matches Err(m) && m == e@),
    {
        match url::Url::parse(input) {
            Ok(url) => {
                let text = url.as_str().to_owned();
                Ok(ServiceUrl { url, text })
            },
            Err(e) => Err(e.to_string()),
        }
    }

    /// The URL's path (`url::Url::path`).
    ///
    /// Trusted: the result is the path of the URL, named by `url_path`.
    #[verifier::external_body]
    pub(crate) fn path(&self) -> (r: &str)
        ensures
            r@ == url_path(self@),
    {
        self.url.path()
    }

    /// Replaces the URL's path (`url::Url::set_path`).
    ///
    /// Trusted: the new serialization is the one named by `url_with_path`.
    #[verifier::external_body]
    pub(crate) fn set_path(&mut self, path: &str)
        ensures
            final(self)@ == url_with_path(old(self)@, path@),
    {
        self.url.set_path(path);
        self.text = self.url.as_str().to_owned();
    }

    /// Resolves `input` against this URL (`url::Url::join`).
    ///
    /// Trusted: the result, or the rendering of the parse error, is the one named
    /// by `url_join`.
    #[verifier::external_body]
    pub(crate) fn join(&self, input: &str) -> (r: Result<ServiceUrl, String>)
        ensures
            r is Ok <==> url_join(self@, input@) is Ok,
            r matches Ok(u) ==> (url_join(self@, input@) matches Ok(t) && t == u@),
            r matches Err(e) ==> (url_join(self@, input@) matches Err(m) && m == e@),
    {
        match self.url.join(input) {
            Ok(url) => {
                let text = url.as_str().to_owned();
                Ok(ServiceUrl { url, text })
            },
            Err(e) => Err(e.to_string()),
        }
    }

    /// Appends one query parameter (`url::Url::query_pairs_mut().append_pair`).
    ///
    /// Trusted: the new serialization is the one named by `url_with_query_pair`.
    #[verifier::external_body]
    pub(crate) fn append_pair(&mut self, key: &str, value: &str)
        ensures
            final(self)@ == url_with_query_pair(old(self)@, key@, value@),
    {
        self.url.query_pairs_mut().append_pair(key, value);
        self.text = self.url.as_str().to_owned();
    }

    /// The URL's serialization.
    pub fn as_str(&self) -> (r: &str)
        ensures
            r@ == self@,
    {
        self.text.as_str()
    }

    /// A copy of this URL.
    pub fn duplicate(&self) -> (r: ServiceUrl)
        ensures
            r@ == self@,
    {
        ServiceUrl { url: self.url.clone(), text: self.text.clone() }
    }
}

} // verus!
