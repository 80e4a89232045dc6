//! URLs as this library sees them: the normal form of a text that parses as
//! an absolute URL, with the components that the logic reads.

use vstd::prelude::*;
use crate::error::{Error, ErrorView};
use crate::text::string_views;

verus! {

/// The components of a parsed URL, as plain values.
#[derive(Debug)]
pub struct UrlParts {
    /// The serialization: the normal form of the text that was parsed.
    pub text: String,
    /// The scheme, without the colon.
    pub scheme: String,
    /// The host, if it is a domain name.
    pub domain: Option<String>,
    /// The path, as it stands in the serialization.
    pub path: String,
    /// The parts of the path between slashes; `None` for a URL that cannot
    /// be a base, whose path is opaque.
    pub segments: Option<Vec<String>>,
}

/// [`UrlParts`] with texts in place of strings.
pub struct UrlView {
    pub text: Seq<char>,
    pub scheme: Seq<char>,
    pub domain: Option<Seq<char>>,
    pub path: Seq<char>,
    pub segments: Option<Seq<Seq<char>>>,
}

/// The view of an optional string.
pub open spec fn option_view(s: Option<String>) -> Option<Seq<char>> {
    match s {
        Some(t) => Some(t@),
        None => None,
    }
}

impl View for UrlParts {
    type V = UrlView;

    open spec fn view(&self) -> UrlView {
        UrlView {
            text: self.text@,
            scheme: self.scheme@,
            domain: option_view(self.domain),
            path: self.path@,
            segments: match self.segments {
                Some(v) => Some(string_views(v@)),
                None => None,
            },
        }
    }
}

/// What the URL parser makes of `text`: the components of the URL, or
/// `None` where `text` is no absolute URL.
pub uninterp spec fn url_parts(text: Seq<char>) -> Option<UrlView>;

/// The serialization of the URL `text` after its path has been set to
/// `path`; `None` where `text` is no absolute URL.
pub uninterp spec fn url_with_path(text: Seq<char>, path: Seq<char>) -> Option<Seq<char>>;

/// The serialization of the URL `text` after its query has been removed;
/// `None` where `text` is no absolute URL.
pub uninterp spec fn url_without_query(text: Seq<char>) -> Option<Seq<char>>;

/// The length in bytes from which on a URL or a path is too long to have
/// its path replaced.
pub const PATH_LIMIT: usize = 0x100_0000;

/// The number of bytes that a text takes.
pub open spec fn byte_len(text: Seq<char>) -> nat {
    vstd::utf8::encode_utf8(text).len()
}

/// The URL `u` with its path replaced by `path`, where that gives a URL.
/// It gives none where the URL or the path is too long.
pub open spec fn path_set(u: UrlView, path: Seq<char>) -> Option<UrlView> {
    if byte_len(u.text) >= PATH_LIMIT || byte_len(path) >= PATH_LIMIT {
        None
    } else {
        match url_with_path(u.text, path) {
            Some(t) => url_of(t),
            None => None,
        }
    }
}

/// The URL `u` without its query, where that gives a URL.
pub open spec fn query_removed(u: UrlView) -> Option<UrlView> {
    match url_without_query(u.text) {
        Some(t) => url_of(t),
        None => None,
    }
}

/// `text` is the normal form of a URL: parsing it gives components whose
/// serialization is `text` itself.
pub open spec fn is_url(text: Seq<char>) -> bool {
    url_parts(text) matches Some(p) && p.text == text
}

/// The URL that `input` stands for: its components, provided that their
/// serialization is a normal form. Any other text stands for no URL.
pub open spec fn url_of(input: Seq<char>) -> Option<UrlView> {
    match url_parts(input) {
        Some(p) => if url_parts(p.text) == Some(p) {
            Some(p)
        } else {
            None
        },
        None => None,
    }
}

/// A normal form stands for the URL that it parses to.
pub proof fn lemma_normal_form_stands_for_itself(text: Seq<char>)
    requires
        is_url(text),
    ensures
        url_of(text) == url_parts(text),
        url_of(text) is Some,
        url_of(text)->0.text == text,
{
}

/// `Url::parse` of the `url` crate, with `as_str`, `scheme`, `domain`, `path`
/// and `path_segments` of the URL it returns. The components are those that
/// the parser finds in `text`; the error is the parser's own description.
#[verifier::external_body]
fn parse_outside(text: &str) -> (r: Result<UrlParts, String>)
    ensures
        r matches Ok(p) ==> url_parts(text@) == Some(p@),
        r is Err ==> url_parts(text@) is None,
{
    match url::Url::parse(text) {
        Ok(u) => Ok(UrlParts {
            text: u.as_str().to_owned(),
            scheme: u.scheme().to_owned(),
            domain: u.domain().map(str::to_owned),
            path: u.path().to_owned(),
            segments: u.path_segments().map(|s| s.map(str::to_owned).collect()),
        }),
        Err(e) => Err(e.to_string()),
    }
}

/// `Url::set_path` of the `url` crate on the URL that `text` parses to,
/// then the serialization of the result. The crate counts the bytes of a
/// serialization in 32 bits and stops the program where they do not fit:
/// texts of that size are kept away from it.
#[verifier::external_body]
fn set_path_outside(text: &str, path: &str) -> (r: Option<String>)
    requires
        byte_len(text@) < PATH_LIMIT,
        byte_len(path@) < PATH_LIMIT,
    ensures
        option_view(r) == url_with_path(text@, path@),
{
    match url::Url::parse(text) {
        Ok(mut u) => {
            u.set_path(path);
            Some(u.into_string())
        },
        Err(_) => None,
    }
}

/// `Url::set_query` of the `url` crate with `None` on the URL that `text`
/// parses to, then the serialization of the result.
#[verifier::external_body]
fn remove_query_outside(text: &str) -> (r: Option<String>)
    ensures
        option_view(r) == url_without_query(text@),
{
    match url::Url::parse(text) {
        Ok(mut u) => {
            u.set_query(None);
            Some(u.into_string())
        },
        Err(_) => None,
    }
}

/// Whether two lists of strings hold the same texts.
pub fn same_strings(a: &Vec<String>, b: &Vec<String>) -> (r: bool)
    ensures
        r == (string_views(a@) == string_views(b@)),
{
    if a.len() != b.len() {
        assert(string_views(a@).len() != string_views(b@).len());
        return false;
    }
    let mut i: usize = 0;
    while i < a.len()
        invariant
            i <= a.len() == b.len(),
            forall|j: int| 0 <= j < i ==> a@[j]@ == b@[j]@,
        decreases a.len() - i,
    {
        if a[i] != b[i] {
            assert(string_views(a@)[i as int] != string_views(b@)[i as int]);
            return false;
        }
        i += 1;
    }
    assert(string_views(a@) =~= string_views(b@));
    true
}

/// Whether two optional strings hold the same text, or both none.
pub fn same_option(a: &Option<String>, b: &Option<String>) -> (r: bool)
    ensures
        r == (option_view(*a) == option_view(*b)),
{
    match (a, b) {
        (Some(x), Some(y)) => *x == *y,
        (None, None) => true,
        _ => false,
    }
}

impl UrlParts {
    /// Whether the two hold the same components.
    pub fn same(&self, other: &UrlParts) -> (r: bool)
        ensures
            r == (self@ == other@),
    {
        let segments = match (&self.segments, &other.segments) {
            (Some(x), Some(y)) => same_strings(x, y),
            (None, None) => true,
            _ => false,
        };
        self.text == other.text && self.scheme == other.scheme && same_option(
            &self.domain,
            &other.domain,
        ) && self.path == other.path && segments
    }

    /// A copy with the same components.
    pub fn duplicate(&self) -> (r: UrlParts)
        ensures
            r@ == self@,
    {
        let domain = match &self.domain {
            Some(d) => Some(d.clone()),
            None => None,
        };
        let segments = match &self.segments {
            Some(v) => {
                let mut copy: Vec<String> = Vec::new();
                let mut i: usize = 0;
                while i < v.len()
                    invariant
                        i <= v.len(),
                        string_views(copy@) == string_views(v@).take(i as int),
                    decreases v.len() - i,
                {
                    let ghost before = string_views(copy@);
                    copy.push(v[i].clone());
                    assert(string_views(copy@) =~= before.push(v@[i as int]@));
                    assert(string_views(v@).take(i + 1) =~= string_views(v@).take(
                        i as int,
                    ).push(v@[i as int]@));
                    i += 1;
                }
                assert(string_views(v@).take(i as int) =~= string_views(v@));
                Some(copy)
            },
            None => None,
        };
        UrlParts {
            text: self.text.clone(),
            scheme: self.scheme.clone(),
            domain,
            path: self.path.clone(),
            segments,
        }
    }
}

/// An absolute URL in normal form.
#[derive(Debug)]
pub struct Url {
    parts: UrlParts,
}

impl View for Url {
    type V = UrlView;

    closed spec fn view(&self) -> UrlView {
        self.parts@
    }
}

impl Url {
    #[verifier::type_invariant]
    spec fn stable(self) -> bool {
        url_parts(self.parts.text@) == Some(self.parts@)
    }

    /// Reads a URL. Succeeds exactly on the texts that stand for one, with
    /// the components that the text stands for.
    pub fn parse(input: &str) -> (r: Result<Url, Error>)
        ensures
            r matches Ok(u) ==> url_of(input@) == Some(u@) && is_url(u@.text),
            r matches Err(e) ==> url_of(input@) is None && e@ is InvalidUrl,
    {
        match parse_outside(input) {
            Ok(parts) => match parse_outside(parts.text.as_str()) {
                Ok(again) => {
                    if again.same(&parts) {
                        Ok(Url { parts })
                    } else {
                        Err(Error::InvalidUrl("url has no stable form".to_owned()))
                    }
                },
                Err(e) => Err(Error::InvalidUrl(e)),
            },
            Err(e) => Err(Error::InvalidUrl(e)),
        }
    }

    /// States what holds of every URL: it is the URL that its own
    /// serialization stands for.
    pub fn normal(&self)
        ensures
            is_url(self@.text),
            url_of(self@.text) == Some(self@),
    {
        proof {
            use_type_invariant(self);
        }
    }

    /// The serialization.
    pub fn as_str(&self) -> (s: &str)
        ensures
            s@ == self@.text,
    {
        self.parts.text.as_str()
    }

    /// The scheme, without the colon.
    pub fn scheme(&self) -> (s: &str)
        ensures
            s@ == self@.scheme,
    {
        self.parts.scheme.as_str()
    }

    /// The host, if it is a domain name.
    pub fn domain(&self) -> (d: Option<&str>)
        ensures
            d is Some == self@.domain is Some,
            d matches Some(s) ==> s@ == self@.domain->0,
    {
        match &self.parts.domain {
            Some(d) => Some(d.as_str()),
            None => None,
        }
    }

    /// The path.
    pub fn path(&self) -> (p: &str)
        ensures
            p@ == self@.path,
    {
        self.parts.path.as_str()
    }

    /// The parts of the path between slashes, if the path is made of such.
    pub fn path_segments(&self) -> (s: Option<&Vec<String>>)
        ensures
            s is Some == self@.segments is Some,
            s matches Some(v) ==> string_views(v@) == self@.segments->0,
    {
        match &self.parts.segments {
            Some(v) => Some(v),
            None => None,
        }
    }

    /// This URL with its path replaced by `path`.
    pub fn with_path(&self, path: &str) -> (r: Result<Url, Error>)
        ensures
            r matches Ok(u) ==> path_set(self@, path@) == Some(u@) && is_url(u@.text),
            r matches Err(e) ==> path_set(self@, path@) is None && e@ is InvalidUrl,
    {
        if self.parts.text.as_str().as_bytes().len() >= PATH_LIMIT || path.as_bytes().len()
            >= PATH_LIMIT {
            return Err(Error::InvalidUrl("url is too long".to_owned()));
        }
        match set_path_outside(self.parts.text.as_str(), path) {
            Some(t) => Url::parse(t.as_str()),
            None => Err(Error::InvalidUrl("url has no stable form".to_owned())),
        }
    }

    /// This URL without its query.
    pub fn without_query(&self) -> (r: Result<Url, Error>)
        ensures
            r matches Ok(u) ==> query_removed(self@) == Some(u@) && is_url(u@.text),
            r matches Err(e) ==> query_removed(self@) is None && e@ is InvalidUrl,
    {
        match remove_query_outside(self.parts.text.as_str()) {
            Some(t) => Url::parse(t.as_str()),
            None => Err(Error::InvalidUrl("url has no stable form".to_owned())),
        }
    }
}

impl Clone for Url {
    fn clone(&self) -> (r: Url)
        ensures
            r@ == self@,
    {
        proof {
            use_type_invariant(self);
        }
        Url { parts: self.parts.duplicate() }
    }
}

/// The name of the file behind a URL: the last part of its path.
pub open spec fn last_segment(u: UrlView) -> Option<Seq<char>> {
    match u.segments {
        Some(s) => if s.len() > 0 {
            Some(s.last())
        } else {
            None
        },
        None => None,
    }
}

impl Url {
    /// The last part of the path, if the path is made of parts.
    pub fn last_segment(&self) -> (s: Option<&str>)
        ensures
            s is Some == last_segment(self@) is Some,
            s matches Some(t) ==> t@ == last_segment(self@)->0,
    {
        match &self.parts.segments {
            Some(v) => {
                if v.len() > 0 {
                    Some(v[v.len() - 1].as_str())
                } else {
                    None
                }
            },
            None => None,
        }
    }
}

/// Reads a URL from a text.
pub fn parse_url(url: &str) -> (r: Result<Url, Error>)
    ensures
        r matches Ok(u) ==> url_of(url@) == Some(u@) && is_url(u@.text),
        r matches Err(e) ==> url_of(url@) is None && e@ is InvalidUrl,
{
    Url::parse(url)
}

} // verus!
