//! Snippets at Bitbucket: the address of a snippet in the API, the settings
//! that an upload needs, and the body of an upload, which holds the
//! properties of the snippet and every file as a part of its own.

use vstd::prelude::*;
use rustc_serialize::base64::{ToBase64, MIME};
use crate::bins::Bins;
use crate::configuration::{text_at, BetterLookups};
use crate::engines::ConvertUrlsToRawUrls;
use crate::error::{Error, ErrorView};
use crate::paste::{paste_views, PasteFile, PasteFileView};
use crate::services::Bitbucket;
use crate::text::string_views;
use crate::url::{parse_url, url_of, Url};

verus! {

/// The bytes in base 64 as MIME has it: the standard alphabet, padded, in
/// lines of 76 characters.
pub uninterp spec fn base64_mime(bytes: Seq<u8>) -> Seq<char>;

/// `ToBase64::to_base64` of the `rustc-serialize` crate on a byte slice,
/// with the configuration `MIME`.
#[verifier::external_body]
fn to_base64_mime(bytes: &[u8]) -> (r: String)
    ensures
        r@ == base64_mime(bytes@),
{
    bytes.to_base64(MIME)
}

/// The line that opens a part.
pub open spec fn opening(boundary: Seq<char>) -> Seq<char> {
    "--"@ + boundary + "\r\n"@
}

/// The line that closes the body.
pub open spec fn closing(boundary: Seq<char>) -> Seq<char> {
    "--"@ + boundary + "--"@ + "\r\n"@
}

/// The part that holds the properties of the snippet.
pub open spec fn json_part(boundary: Seq<char>, json: Seq<char>) -> Seq<char> {
    opening(boundary) + "Content-Type: application/json; charset=\"utf-8\""@ + "\r\n"@
        + "MIME-Version: 1.0"@ + "\r\n"@ + "Content-ID: snippet"@ + "\r\n"@ + "\r\n"@ + json
        + "\r\n"@ + "\r\n"@
}

/// The part that holds a file, its content in base 64.
pub open spec fn file_part(boundary: Seq<char>, filename: Seq<char>, encoded: Seq<char>) -> Seq<
    char,
> {
    opening(boundary) + "Content-Type: text/plain; charset=\"utf-8\""@ + "\r\n"@
        + "MIME-Version: 1.0"@ + "\r\n"@ + "Content-Transfer-Encoding: base64"@ + "\r\n"@
        + "Content-ID: \""@ + filename + "\""@ + "\r\n"@
        + "Content-Disposition: attachment; filename=\""@ + filename + "\""@ + "\r\n"@ + "\r\n"@
        + encoded + "\r\n"@
}

/// The parts of the files, one after another.
pub open spec fn file_parts(boundary: Seq<char>, files: Seq<PasteFileView>) -> Seq<char>
    decreases files.len(),
{
    if files.len() == 0 {
        Seq::<char>::empty()
    } else {
        file_parts(boundary, files.drop_last()) + file_part(
            boundary,
            files.last().name,
            base64_mime(vstd::utf8::encode_utf8(files.last().data)),
        )
    }
}

/// The body of an upload: the properties, the files, the closing line.
pub open spec fn snippet_body(boundary: Seq<char>, json: Seq<char>, files: Seq<PasteFileView>) -> Seq<
    char,
> {
    json_part(boundary, json) + file_parts(boundary, files) + closing(boundary)
}

/// A body of the kind `multipart/related` while it is written.
pub struct MultipartRelatedBody<'a> {
    pub boundary: &'a str,
    pub content: String,
}

impl<'a> MultipartRelatedBody<'a> {
    /// An empty body whose parts the given boundary will separate.
    pub fn new(boundary: &'a str) -> (body: MultipartRelatedBody<'a>)
        ensures
            body.boundary@ == boundary@,
            body.content@ == Seq::<char>::empty(),
    {
        MultipartRelatedBody { boundary, content: String::new() }
    }

    /// Adds the part that holds the properties of the snippet.
    pub fn add_json(&mut self, json: &str)
        ensures
            final(self).boundary@ == old(self).boundary@,
            final(self).content@ == old(self).content@ + json_part(old(self).boundary@, json@),
    {
        self.add_boundary();
        self.add_line("Content-Type: application/json; charset=\"utf-8\"");
        self.add_line("MIME-Version: 1.0");
        self.add_line("Content-ID: snippet");
        self.end_line();
        self.add_line(json);
        self.end_line();
        assert(self.content@ =~= old(self).content@ + json_part(old(self).boundary@, json@));
    }

    /// Adds the part that holds a file.
    pub fn add_file(&mut self, filename: &str, content: &[u8])
        ensures
            final(self).boundary@ == old(self).boundary@,
            final(self).content@ == old(self).content@ + file_part(
                old(self).boundary@,
                filename@,
                base64_mime(content@),
            ),
    {
        self.add_boundary();
        self.add_line("Content-Type: text/plain; charset=\"utf-8\"");
        self.add_line("MIME-Version: 1.0");
        self.add_line("Content-Transfer-Encoding: base64");
        self.add("Content-ID: \"");
        self.add(filename);
        self.add("\"");
        self.end_line();
        self.add("Content-Disposition: attachment; filename=\"");
        self.add(filename);
        self.add("\"");
        self.end_line();
        self.end_line();
        let encoded = to_base64_mime(content);
        self.content.append(encoded.as_str());
        self.end_line();
        assert(self.content@ =~= old(self).content@ + file_part(
            old(self).boundary@,
            filename@,
            base64_mime(content@),
        ));
    }

    /// Closes the body and hands it out.
    pub fn end(self) -> (text: String)
        ensures
            text@ == self.content@ + closing(self.boundary@),
    {
        let mut body = self;
        body.content.append("--");
        body.content.append(body.boundary);
        body.content.append("--");
        body.end_line();
        assert(body.content@ =~= self.content@ + closing(self.boundary@));
        body.content
    }

    /// Adds the line that opens a part.
    pub fn add_boundary(&mut self)
        ensures
            final(self).boundary@ == old(self).boundary@,
            final(self).content@ == old(self).content@ + opening(old(self).boundary@),
    {
        self.content.append("--");
        self.content.append(self.boundary);
        self.end_line();
        assert(self.content@ =~= old(self).content@ + opening(old(self).boundary@));
    }

    /// Adds a text.
    pub fn add(&mut self, s: &str)
        ensures
            final(self).boundary@ == old(self).boundary@,
            final(self).content@ == old(self).content@ + s@,
    {
        self.content.append(s);
    }

    /// Adds a text and ends the line.
    pub fn add_line(&mut self, line: &str)
        ensures
            final(self).boundary@ == old(self).boundary@,
            final(self).content@ == old(self).content@ + line@ + "\r\n"@,
    {
        self.content.append(line);
        self.end_line();
    }

    /// Ends the line.
    pub fn end_line(&mut self)
        ensures
            final(self).boundary@ == old(self).boundary@,
            final(self).content@ == old(self).content@ + "\r\n"@,
    {
        self.content.append("\r\n");
    }
}

/// The message about a setting that is missing.
pub open spec fn missing_setting(key: Seq<char>) -> Seq<char> {
    "no "@ + key + " set in configuration"@
}

/// The message about a setting that is empty.
pub open spec fn empty_setting(key: Seq<char>) -> Seq<char> {
    key + " in configuration was empty"@
}

/// The parts of the path of a snippet page: `snippets`, the user, the
/// snippet, and whatever follows.
pub open spec fn is_snippet_path(segments: Seq<Seq<char>>) -> bool {
    segments.len() >= 3 && segments[0] == "snippets"@
}

/// The address of a snippet in the API.
pub open spec fn snippet_address(user: Seq<char>, id: Seq<char>) -> Seq<char> {
    "https://api.bitbucket.org/2.0/snippets/"@ + user + "/"@ + id
}

impl Bitbucket {
    /// The text of a setting that an upload cannot do without.
    pub fn config_value<'a>(&self, bins: &'a Bins, key: &'a str) -> (r: Result<&'a str, Error>)
        ensures
            match text_at(bins.config@, key@) {
                None => r matches Err(e) && e@ == ErrorView::Config(missing_setting(key@)),
                Some(value) => if value.len() == 0 {
                    r matches Err(e) && e@ == ErrorView::Config(empty_setting(key@))
                } else {
                    r matches Ok(text) && text@ == value
                },
            },
    {
        let value = match bins.config.lookup_str(key) {
            Some(value) => value,
            None => {
                let mut message = "no ".to_owned();
                message.append(key);
                message.append(" set in configuration");
                return Err(Error::Config(message));
            },
        };
        if value.is_empty() {
            let mut message = key.to_owned();
            message.append(" in configuration was empty");
            return Err(Error::Config(message));
        }
        Ok(value)
    }

    /// The address in the API of the snippet that the page at `url` shows.
    pub fn api_url(&self, url: &Url) -> (r: Result<Url, Error>)
        ensures
            match url@.segments {
                None => r matches Err(e) && e@ == ErrorView::Service("url has no path"@),
                Some(segments) => if !is_snippet_path(segments) {
                    r matches Err(e) && e@ == ErrorView::Service(
                        "url path expected to be of form /snippets/{username}/{id}"@,
                    )
                } else {
                    match url_of(snippet_address(segments[1], segments[2])) {
                        Some(address) => r matches Ok(u) && u@ == address,
                        None => r matches Err(e) && e@ is InvalidUrl,
                    }
                },
            },
    {
        let segments = match url.path_segments() {
            Some(segments) => segments,
            None => {
                return Err(Error::Service("url has no path".to_owned()));
            },
        };
        assert(segments.len() == string_views(segments@).len());
        if segments.len() < 3 || segments[0] != "snippets".to_owned() {
            assert(string_views(segments@).len() >= 3 ==> string_views(segments@)[0]
                == segments@[0]@);
            return Err(
                Error::Service(
                    "url path expected to be of form /snippets/{username}/{id}".to_owned(),
                ),
            );
        }
        assert(string_views(segments@)[0] == segments@[0]@);
        assert(string_views(segments@)[1] == segments@[1]@);
        assert(string_views(segments@)[2] == segments@[2]@);
        let mut address = "https://api.bitbucket.org/2.0/snippets/".to_owned();
        address.append(segments[1].as_str());
        address.append("/");
        address.append(segments[2].as_str());
        parse_url(address.as_str())
    }

    /// The body of the upload of a snippet with the given properties and
    /// files.
    pub fn prepare_body(&self, properties_json: &str, data: &Vec<PasteFile>, boundary: &str) -> (r:
        String)
        ensures
            r@ == snippet_body(boundary@, properties_json@, paste_views(data@)),
    {
        let ghost files = paste_views(data@);
        let mut body = MultipartRelatedBody::new(boundary);
        body.add_json(properties_json);
        let mut i: usize = 0;
        assert(files.take(0) =~= Seq::<PasteFileView>::empty());
        while i < data.len()
            invariant
                i <= data.len(),
                files == paste_views(data@),
                body.boundary@ == boundary@,
                body.content@ == json_part(boundary@, properties_json@) + file_parts(
                    boundary@,
                    files.take(i as int),
                ),
            decreases data.len() - i,
        {
            proof {
                assert(files.take(i + 1).drop_last() =~= files.take(i as int));
                assert(files.take(i + 1).last() == data@[i as int]@);
            }
            let ghost before = body.content@;
            body.add_file(data[i].name.as_str(), data[i].data.as_str().as_bytes());
            assert(body.content@ =~= json_part(boundary@, properties_json@) + file_parts(
                boundary@,
                files.take(i + 1),
            ));
            i += 1;
        }
        assert(files.take(i as int) =~= files);
        body.end()
    }
}

impl ConvertUrlsToRawUrls for Bitbucket {
    /// The page of a snippet does not tell where its raw files are: they
    /// are found through the API alone.
    fn convert_url_to_raw_url(&self, url: &Url) -> (r: Result<Url, Error>)
        ensures
            r matches Err(e) && e@ == ErrorView::Service(
                "Bitbucket snippet URLs are not a one-to-one conversion (this is a bug)"@,
            ),
    {
        Err(
            Error::Service(
                "Bitbucket snippet URLs are not a one-to-one conversion (this is a bug)".to_owned(),
            ),
        )
    }
}

} // verus!
