//! Requests and answers as plain values, and the transport that a service is
//! reached through.

use vstd::prelude::*;
use crate::bins::Bins;
use crate::error::Error;
use crate::ordered::pair_views;
use crate::paste::PasteFile;
use crate::url::{option_view, Url};

verus! {

/// One header of a request.
#[derive(Debug)]
pub struct Header {
    pub name: String,
    pub value: String,
}

/// What a service adds to a request: a body and headers.
#[derive(Debug)]
pub struct RequestModifiers {
    pub body: Option<String>,
    pub headers: Option<Vec<Header>>,
}

/// The answer to a request: the status, the URL that answered in the end,
/// and the text of the answer.
#[derive(Debug)]
pub struct Response {
    pub status: u16,
    pub url: Url,
    pub body: String,
}

/// The name and the value of each header.
pub open spec fn header_views(headers: Seq<Header>) -> Seq<(Seq<char>, Seq<char>)> {
    Seq::new(headers.len(), |i: int| (headers[i].name@, headers[i].value@))
}

/// The headers of a request, none where none are set.
pub open spec fn headers_of(modifiers: RequestModifiers) -> Seq<(Seq<char>, Seq<char>)> {
    match modifiers.headers {
        Some(headers) => header_views(headers@),
        None => Seq::empty(),
    }
}

/// The body of a request, empty where none is set.
pub open spec fn body_of(modifiers: RequestModifiers) -> Seq<char> {
    match modifiers.body {
        Some(body) => body@,
        None => Seq::empty(),
    }
}

impl Default for RequestModifiers {
    fn default() -> (modifiers: RequestModifiers)
        ensures
            modifiers.body is None,
            modifiers.headers is None,
    {
        RequestModifiers { body: None, headers: None }
    }
}

/// The pairs in the form `application/x-www-form-urlencoded`, as the
/// serializer of the `url` crate writes them.
pub uninterp spec fn form_encoded(pairs: Seq<(Seq<char>, Seq<char>)>) -> Seq<char>;

/// `form_urlencoded::Serializer` of the `url` crate: a new serializer on an
/// empty string, `extend_pairs` with the pairs in their order, `finish`.
#[verifier::external_body]
pub(crate) fn form_encode(pairs: &Vec<(String, String)>) -> (r: String)
    ensures
        r@ == form_encoded(pair_views(pairs@)),
{
    url::form_urlencoded::Serializer::new(String::new()).extend_pairs(pairs).finish()
}

/// The header that announces a body of form fields.
pub open spec fn form_content_type() -> (Seq<char>, Seq<char>) {
    ("Content-Type"@, "application/x-www-form-urlencoded"@)
}

/// The header that announces a body of form fields.
pub fn form_header() -> (header: Header)
    ensures
        (header.name@, header.value@) == form_content_type(),
{
    Header {
        name: "Content-Type".to_owned(),
        value: "application/x-www-form-urlencoded".to_owned(),
    }
}

/// The body and the headers of a request with the given additions: an
/// empty body and no headers where none are set.
pub fn body_and_headers(modifiers: RequestModifiers) -> (r: (String, Vec<Header>))
    ensures
        r.0@ == body_of(modifiers),
        header_views(r.1@) == headers_of(modifiers),
{
    let body = match modifiers.body {
        Some(body) => body,
        None => String::new(),
    };
    let headers = match modifiers.headers {
        Some(headers) => headers,
        None => Vec::new(),
    };
    assert(header_views(Seq::<Header>::empty()) =~= Seq::<(Seq<char>, Seq<char>)>::empty());
    (body, headers)
}

/// The text of an answer.
pub fn read_response(response: &Response) -> (body: String)
    ensures
        body@ == response.body@,
{
    response.body.clone()
}

/// What a service adds to the request that uploads a file.
pub trait ModifyUploadRequest {
    /// Unless a service says otherwise, it adds nothing: no body and no
    /// headers.
    fn modify_request(&self, bins: &Bins, content: &PasteFile) -> (r: Result<
        RequestModifiers,
        Error,
    >)
        default_ensures
            r matches Ok(m) && m.body is None && m.headers is None,
    {
        Ok(RequestModifiers::default())
    }
}

/// What a service adds to the request that downloads a text.
pub trait ModifyDownloadRequest {
    /// Unless a service says otherwise, it adds nothing: no body and no
    /// headers.
    fn modify_request(&self) -> (r: Result<RequestModifiers, Error>)
        default_ensures
            r matches Ok(m) && m.body is None && m.headers is None,
    {
        Ok(RequestModifiers::default())
    }
}

/// Sends the content of a file to a URL of the service.
pub trait Uploader: ModifyUploadRequest {
    /// Posts the body with the headers to the URL.
    fn send(&self, url: &Url, body: &str, headers: &Vec<Header>) -> Result<Response, Error>;

    /// Posts to the URL what the service makes of the file: its body, or an
    /// empty one, and its headers, or none.
    fn upload(&self, url: &Url, bins: &Bins, content: &PasteFile) -> (r: Result<Response, Error>) {
        let modifiers = self.modify_request(bins, content)?;
        let (body, headers) = body_and_headers(modifiers);
        self.send(url, body.as_str(), &headers)
    }
}

/// Fetches the answer behind a URL.
pub trait Downloader: ModifyDownloadRequest {
    /// Gets the URL, with the body and the headers in the request.
    fn fetch(&self, url: &Url, body: &str, headers: &Vec<Header>) -> Result<Response, Error>;

    /// Gets the URL with what the service adds to the request: its body, or
    /// an empty one, and its headers, or none.
    fn download(&self, url: &Url) -> (r: Result<Response, Error>) {
        let modifiers = self.modify_request()?;
        let (body, headers) = body_and_headers(modifiers);
        self.fetch(url, body.as_str(), &headers)
    }
}

} // verus!
