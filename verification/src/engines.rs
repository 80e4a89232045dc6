//! The capabilities of a paste service and what is built from them.
//!
//! A service brings a few primitives: it uploads one file, downloads the
//! text behind a URL, and turns the URL of a paste into the URL of its raw
//! text. Listing the files of a paste, uploading several files as one paste
//! and producing the content that the user asked for are built on top, the
//! same way for every service that bundles files with an index.

use vstd::prelude::*;
use crate::error::{Error, ErrorView};
use crate::index::{read_index, Entries, Index, Reading};
use crate::network::{read_response, Downloader, Response, Uploader};
use crate::ordered::collected;
use crate::bins::{Arguments, Bins};
use crate::paste::{
    assemble, files_of, join_files, join_urls, joined, lists_urls, paste_views, remote_views,
    url_lines, PasteFile, PasteFileView, RemoteFileView, RemotePasteFile,
};
use crate::prepare::{all_distinct, paste_names};
use crate::select::{range_view, select, selection};
use crate::text::string_views;
use crate::url::{last_segment, parse_url, url_of, Url, UrlView};

verus! {

/// Uploads one file and returns the URL under which the service shows it.
pub trait UploadContent {
    fn upload_paste(&self, bins: &Bins, content: PasteFile) -> Result<Url, Error>;
}

/// The URL that uploads go to, for a service that answers an upload with the
/// URL of the paste.
pub trait UploadUrl {
    fn get_upload_url(&self) -> &str;
}

/// Marks a service that holds several files as one paste by means of an
/// index.
pub trait UsesIndices {
}

/// Turns the URL of a paste into the URL of its raw text.
pub trait ConvertUrlsToRawUrls {
    fn convert_url_to_raw_url(&self, url: &Url) -> Result<Url, Error>;

    /// Turns each URL in its turn; the first that cannot be turned ends it.
    /// Unless a service says otherwise, there is one raw URL for each URL, and
    /// none to turn gives none.
    fn convert_urls_to_raw_urls(&self, urls: Vec<&Url>) -> (r: Result<Vec<Url>, Error>)
        default_ensures
            r matches Ok(raw) ==> raw.len() == urls.len(),
            urls.len() == 0 ==> r is Ok,
    {
        let mut raw: Vec<Url> = Vec::new();
        let mut i: usize = 0;
        while i < urls.len()
            invariant
                i <= urls.len(),
                raw.len() == i,
            decreases urls.len() - i,
        {
            let url = self.convert_url_to_raw_url(urls[i])?;
            raw.push(url);
            i += 1;
        }
        Ok(raw)
    }
}

/// A paste service: its name and the domain it serves.
pub trait Bin {
    fn get_name(&self) -> &str;

    fn get_domain(&self) -> &str;
}

/// The files that an index lists: each entry with its name and URL, the
/// content not yet fetched.
pub open spec fn listed_files(entries: Entries) -> Seq<RemoteFileView> {
    Seq::new(
        entries.len(),
        |i: int|
            RemoteFileView { name: entries[i].0, url: url_of(entries[i].1)->0, contents: None },
    )
}

/// The one file of a paste that is no index: named after the last part of
/// the URL's path, with the text that was fetched as its content.
pub open spec fn single_file(url: UrlView, content: Seq<char>) -> Option<RemoteFileView> {
    match last_segment(url) {
        Some(name) => Some(RemoteFileView { name, url, contents: Some(content) }),
        None => None,
    }
}

/// The files of the paste at `url`, given the text fetched from it. A text
/// that is an index lists them. A text that has not the shape of an index
/// is itself the only file.
pub fn list_files(url: &Url, content: String) -> (r: Result<Vec<RemotePasteFile>, Error>)
    ensures
        match read_index(content@) {
            Reading::Index(entries) => r matches Ok(files) && remote_views(files@) == listed_files(
                entries,
            ),
            Reading::NoIndex => match single_file(url@, content@) {
                Some(file) => r matches Ok(files) && remote_views(files@) == seq![file],
                None => r matches Err(e) && e@ == ErrorView::RootUrl,
            },
            Reading::BadUrl => r matches Err(e) && e@ is InvalidUrl,
        },
{
    match Index::parse(content.as_str()) {
        Ok(index) => {
            let entries = index.entries();
            let ghost shown = index@;
            let mut files: Vec<RemotePasteFile> = Vec::new();
            let mut i: usize = 0;
            while i < entries.len()
                invariant
                    i <= entries.len(),
                    files.len() == i,
                    shown.len() == entries.len(),
                    forall|j: int|
                        0 <= j < entries.len() ==> (#[trigger] entries@[j]).0@ == shown[j].0
                            && url_of(shown[j].1) == Some(entries@[j].1@),
                    forall|j: int| 0 <= j < i ==> (#[trigger] files@[j])@ == listed_files(shown)[j],
                decreases entries.len() - i,
            {
                files.push(
                    RemotePasteFile {
                        name: entries[i].0.clone(),
                        url: entries[i].1.clone(),
                        contents: None,
                    },
                );
                i += 1;
            }
            assert(remote_views(files@) =~= listed_files(shown));
            Ok(files)
        },
        Err(e) => {
            match e {
                Error::InvalidIndex => {},
                _ => {
                    return Err(e);
                },
            }
            let name = match url.last_segment() {
                Some(name) => name.to_owned(),
                None => {
                    return Err(Error::RootUrl);
                },
            };
            let mut files: Vec<RemotePasteFile> = Vec::new();
            files.push(RemotePasteFile { name, url: url.clone(), contents: Some(content) });
            assert(remote_views(files@) =~= seq![single_file(url@, content@)->0]);
            Ok(files)
        },
    }
}

/// The files that `list_files` finds for a text, where it finds any.
pub open spec fn listing(url: UrlView, content: Seq<char>) -> Option<Seq<RemoteFileView>> {
    match read_index(content) {
        Reading::Index(entries) => Some(listed_files(entries)),
        Reading::NoIndex => match single_file(url, content) {
            Some(file) => Some(seq![file]),
            None => None,
        },
        Reading::BadUrl => None,
    }
}

/// The names of the files with the URLs under which they were uploaded.
pub open spec fn uploaded(content: Seq<PasteFile>, urls: Seq<Seq<char>>) -> Entries {
    Seq::new(content.len(), |i: int| (content[i]@.name, urls[i]))
}

/// `entries` are the entries of the index of the files, for some URLs that
/// their uploads have returned.
pub open spec fn is_index_of(content: Seq<PasteFile>, entries: Entries) -> bool {
    exists|urls: Seq<Seq<char>>|
        urls.len() == content.len() && entries == collected(#[trigger] uploaded(content, urls))
}

/// `files` are the files of the paste at `url`, for some text that the
/// download of its raw URL has returned.
pub open spec fn is_listing(url: UrlView, files: Seq<RemoteFileView>) -> bool {
    exists|content: Seq<char>| #[trigger] listing(url, content) == Some(files)
}

/// What is uploaded for several files can be read back: the text of the
/// index of the uploads is an index with the same names and URLs in the same
/// order, whatever URLs the uploads returned. This holds where no two files
/// share a name and names and URLs are words.
pub proof fn lemma_uploaded_index_reads_back(content: Seq<PasteFile>, urls: Seq<Seq<char>>)
    requires
        content.len() >= 1,
        urls.len() == content.len(),
        crate::ordered::distinct_keys(uploaded(content, urls)),
        forall|i: int|
            0 <= i < content.len() ==> crate::index::is_word((#[trigger] content[i])@.name)
                && crate::index::is_word(urls[i]) && crate::url::is_url(urls[i]),
    ensures
        collected(uploaded(content, urls)) == uploaded(content, urls),
        read_index(crate::index::index_text(collected(uploaded(content, urls)))) == Reading::Index(
            uploaded(content, urls),
        ),
{
    let entries = uploaded(content, urls);
    crate::ordered::lemma_collected_keeps_distinct_pairs(entries);
    assert forall|i: int| 0 <= i < entries.len() implies crate::index::is_word(
        (#[trigger] entries[i]).0,
    ) && crate::index::is_word(entries[i].1) && crate::url::is_url(entries[i].1) by {
        assert(crate::index::is_word(content[i]@.name));
    }
    crate::index::lemma_index_round_trip(entries);
}

/// The paste that holds an index: the file `index.md` with the text of the
/// index.
pub fn index_paste(index: &Index) -> (file: PasteFile)
    ensures
        file@ == (PasteFileView { name: "index.md"@, data: crate::index::index_text(index@) }),
{
    PasteFile { name: "index.md".to_owned(), data: index.to_string() }
}

/// Builds the index of several files by uploading each of them.
pub trait GenerateIndex {
    fn generate_index(&self, bins: &Bins, content: Vec<PasteFile>) -> Result<Index, Error>;
}

impl<T> GenerateIndex for T where T: UploadContent + UsesIndices {
    /// Uploads the files one after another, in their order, and stops at the
    /// first failure. The index holds each name with the URL that its upload
    /// returned; where no two files share a name, it has an entry for every
    /// file.
    fn generate_index(&self, bins: &Bins, content: Vec<PasteFile>) -> (r: Result<Index, Error>)
        ensures
            content.len() == 0 ==> (r matches Err(e) && e@ == ErrorView::NothingToUpload),
            r matches Ok(index) ==> is_index_of(content@, index@),
            r matches Ok(index) ==> (all_distinct(paste_names(paste_views(content@)))
                ==> index@.len() == content.len()),
    {
        let mut names: Vec<String> = Vec::new();
        let mut urls: Vec<Url> = Vec::new();
        let mut i: usize = 0;
        while i < content.len()
            invariant
                i <= content.len(),
                names.len() == i,
                urls.len() == i,
                forall|j: int| 0 <= j < i ==> (#[trigger] names@[j])@ == content@[j]@.name,
            decreases content.len() - i,
        {
            names.push(content[i].name.clone());
            let url = self.upload_paste(bins, content[i].clone())?;
            urls.push(url);
            i += 1;
        }
        match Index::from_pairs(&names, &urls) {
            Some(index) => {
                proof {
                    let texts = Seq::new(urls.len() as nat, |i: int| urls@[i]@.text);
                    let pairs = uploaded(content@, texts);
                    assert(pairs =~= crate::index::paired(names@, urls@));
                    if all_distinct(paste_names(paste_views(content@))) {
                        assert forall|a: int, b: int| 0 <= a < b < pairs.len() implies (
                        #[trigger] pairs[a]).0 != (#[trigger] pairs[b]).0 by {
                            assert(paste_names(paste_views(content@))[a] == pairs[a].0);
                            assert(paste_names(paste_views(content@))[b] == pairs[b].0);
                        }
                        crate::ordered::lemma_collected_keeps_distinct_pairs(pairs);
                    }
                }
                Ok(index)
            },
            None => Err(Error::NothingToUpload),
        }
    }
}

/// The URL of the paste in the answer of a service that answers an upload
/// with that URL: the URL that the text of the answer stands for.
pub fn paste_url_in(response: &Response) -> (r: Result<Url, Error>)
    ensures
        match url_of(response.body@) {
            Some(url) => r matches Ok(u) && u@ == url,
            None => r matches Err(e) && e@ is InvalidUrl,
        },
{
    parse_url(response.body.as_str())
}

impl<T> UploadContent for T where T: UploadUrl + Uploader {
    /// Sends the file to the upload URL of the service and reads the URL of
    /// the paste from the answer.
    fn upload_paste(&self, bins: &Bins, content: PasteFile) -> (r: Result<Url, Error>) {
        let url = parse_url(self.get_upload_url())?;
        let response = self.upload(&url, bins, &content)?;
        paste_url_in(&response)
    }
}

/// Uploads several files as one paste.
pub trait UploadBatchContent: UploadContent {
    fn upload_all(&self, bins: &Bins, content: Vec<PasteFile>) -> Result<Url, Error>;
}

impl<T> UploadBatchContent for T where T: GenerateIndex + UploadContent {
    /// A single file is uploaded as it is. Several files are uploaded one by
    /// one, then their index is uploaded, and the URL of the index is the
    /// URL of the paste.
    fn upload_all(&self, bins: &Bins, content: Vec<PasteFile>) -> (r: Result<Url, Error>)
        ensures
            content.len() == 0 ==> (r matches Err(e) && e@ == ErrorView::NothingToUpload),
    {
        if content.len() == 0 {
            return Err(Error::NothingToUpload);
        }
        if content.len() == 1 {
            return self.upload_paste(bins, content[0].clone());
        }
        let index = self.generate_index(bins, content)?;
        self.upload_paste(bins, index_paste(&index))
    }
}

/// Lists the files of a paste, with the URLs under which the service shows
/// them.
pub trait ProduceInfo {
    fn produce_info(&self, bins: &Bins, url: &Url) -> Result<Vec<RemotePasteFile>, Error>;

    /// The files of several pastes, those of the first paste first; the first
    /// paste that cannot be listed ends it. Unless a service says otherwise,
    /// no paste gives no files.
    fn produce_info_all(&self, bins: &Bins, urls: Vec<&Url>) -> (r: Result<
        Vec<RemotePasteFile>,
        Error,
    >)
        default_ensures
            urls.len() == 0 ==> (r matches Ok(all) && all.len() == 0),
    {
        let mut all: Vec<RemotePasteFile> = Vec::new();
        let mut i: usize = 0;
        while i < urls.len()
            invariant
                i <= urls.len(),
                i == 0 ==> all.len() == 0,
            decreases urls.len() - i,
        {
            let mut info = self.produce_info(bins, urls[i])?;
            all.append(&mut info);
            i += 1;
        }
        Ok(all)
    }
}

impl<T> ProduceInfo for T where T: UsesIndices + ConvertUrlsToRawUrls + Downloader {
    /// Fetches the raw text behind the URL. If it is an index, the paste
    /// holds the files that the index lists; if it has not the shape of one,
    /// the text is the only file of the paste.
    fn produce_info(&self, bins: &Bins, url: &Url) -> (r: Result<Vec<RemotePasteFile>, Error>)
        ensures
            r matches Ok(files) ==> is_listing(url@, remote_views(files@)),
    {
        let raw_url = self.convert_url_to_raw_url(url)?;
        let response = self.download(&raw_url)?;
        let content = read_response(&response);
        let ghost text = content@;
        let files = list_files(url, content)?;
        assert(listing(url@, text) == Some(remote_views(files@)));
        Ok(files)
    }
}

/// The files with the given URLs in place of their own: the first URL for
/// the first file, as far as both lists go.
pub open spec fn with_urls_of(files: Seq<RemoteFileView>, urls: Seq<UrlView>) -> Seq<
    RemoteFileView,
> {
    Seq::new(
        if files.len() <= urls.len() {
            files.len()
        } else {
            urls.len()
        },
        |i: int| RemoteFileView { name: files[i].name, url: urls[i], contents: files[i].contents },
    )
}

/// The views of a list of URLs.
pub open spec fn url_views(urls: Seq<Url>) -> Seq<UrlView> {
    Seq::new(urls.len(), |i: int| urls[i]@)
}

/// `files` are the files `info`, each with some other URL: names, contents
/// and order are the same.
pub open spec fn differ_in_urls_only(info: Seq<RemoteFileView>, files: Seq<RemoteFileView>) -> bool {
    &&& files.len() == info.len()
    &&& forall|i: int|
        0 <= i < files.len() ==> (#[trigger] files[i]).name == info[i].name && files[i].contents
            == info[i].contents
}

/// The files with the given URLs in place of their own: the first URL for
/// the first file, as far as both lists go.
pub fn with_urls(info: &Vec<RemotePasteFile>, urls: &Vec<Url>) -> (files: Vec<RemotePasteFile>)
    ensures
        remote_views(files@) == with_urls_of(remote_views(info@), url_views(urls@)),
{
    let n = if info.len() <= urls.len() {
        info.len()
    } else {
        urls.len()
    };
    let mut files: Vec<RemotePasteFile> = Vec::new();
    let mut i: usize = 0;
    while i < n
        invariant
            i <= n,
            n <= info.len(),
            n <= urls.len(),
            files.len() == i,
            forall|j: int|
                0 <= j < i ==> (#[trigger] files@[j])@ == (RemoteFileView {
                    name: info@[j]@.name,
                    url: urls@[j]@,
                    contents: info@[j]@.contents,
                }),
        decreases n - i,
    {
        let contents = match &info[i].contents {
            Some(c) => Some(c.clone()),
            None => None,
        };
        files.push(RemotePasteFile { name: info[i].name.clone(), url: urls[i].clone(), contents });
        i += 1;
    }
    assert(remote_views(files@) =~= with_urls_of(remote_views(info@), url_views(urls@)));
    files
}

/// The files with each URL turned into the URL of the raw text. Names,
/// contents and order stay; the first URL that cannot be turned ends it, and
/// no file gives no file.
pub fn with_raw_urls<T: ConvertUrlsToRawUrls>(bin: &T, info: Vec<RemotePasteFile>) -> (r: Result<
    Vec<RemotePasteFile>,
    Error,
>)
    ensures
        r matches Ok(files) ==> differ_in_urls_only(remote_views(info@), remote_views(files@)),
        info.len() == 0 ==> r is Ok,
{
    let mut urls: Vec<Url> = Vec::new();
    let mut i: usize = 0;
    while i < info.len()
        invariant
            i <= info.len(),
            urls.len() == i,
        decreases info.len() - i,
    {
        let raw_url = bin.convert_url_to_raw_url(&info[i].url)?;
        urls.push(raw_url);
        i += 1;
    }
    Ok(with_urls(&info, &urls))
}

/// Lists the files of a paste, with the URLs of their raw texts.
pub trait ProduceRawInfo {
    fn produce_raw_info(&self, bins: &Bins, url: &Url) -> Result<Vec<RemotePasteFile>, Error>;

    /// The files of several pastes, those of the first paste first; the first
    /// paste that cannot be listed ends it. Unless a service says otherwise,
    /// no paste gives no files.
    fn produce_raw_info_all(&self, bins: &Bins, urls: Vec<&Url>) -> (r: Result<
        Vec<RemotePasteFile>,
        Error,
    >)
        default_ensures
            urls.len() == 0 ==> (r matches Ok(all) && all.len() == 0),
    {
        let mut all: Vec<RemotePasteFile> = Vec::new();
        let mut i: usize = 0;
        while i < urls.len()
            invariant
                i <= urls.len(),
                i == 0 ==> all.len() == 0,
            decreases urls.len() - i,
        {
            let mut info = self.produce_raw_info(bins, urls[i])?;
            all.append(&mut info);
            i += 1;
        }
        Ok(all)
    }
}

/// `files` are the files of the paste at `url`, for some text that the
/// download of its raw URL has returned, each with some other URL.
pub open spec fn is_raw_listing(url: UrlView, files: Seq<RemoteFileView>) -> bool {
    exists|info: Seq<RemoteFileView>| #[trigger]
        is_listing(url, info) && differ_in_urls_only(info, files)
}

impl<T> ProduceRawInfo for T where T: ConvertUrlsToRawUrls + Downloader + UsesIndices {
    /// The files that `produce_info` lists, each with the URL of its raw
    /// text in place of its own.
    fn produce_raw_info(&self, bins: &Bins, url: &Url) -> (r: Result<Vec<RemotePasteFile>, Error>)
        ensures
            r matches Ok(files) ==> is_raw_listing(url@, remote_views(files@)),
    {
        let info = self.produce_info(bins, url)?;
        let ghost listed = remote_views(info@);
        let files = with_raw_urls(self, info)?;
        assert(is_listing(url@, listed) && differ_in_urls_only(listed, remote_views(files@)));
        Ok(files)
    }
}

/// For every file there is a content, and it is the one that the listing
/// brought along where it brought one.
pub open spec fn agrees(chosen: Seq<RemoteFileView>, contents: Seq<Seq<char>>) -> bool {
    &&& contents.len() == chosen.len()
    &&& forall|i: int|
        0 <= i < chosen.len() ==> ((#[trigger] chosen[i]).contents matches Some(c) ==> contents[i]
            == c)
}

/// The listing brought the content of every file along.
pub open spec fn all_embedded(chosen: Seq<RemoteFileView>) -> bool {
    forall|i: int| 0 <= i < chosen.len() ==> (#[trigger] chosen[i]).contents is Some
}

/// The contents that the listing brought along.
pub open spec fn embedded(chosen: Seq<RemoteFileView>) -> Seq<Seq<char>> {
    Seq::new(chosen.len(), |i: int| chosen[i].contents->0)
}

/// The contents of the chosen files: what the listing brought along, and
/// for the others what a download of their URL returns. The first download
/// that fails ends it; where the listing brought every content along, there
/// is nothing to download and nothing that fails.
pub fn fetch_contents<T: Downloader + ?Sized>(bin: &T, files: &Vec<RemotePasteFile>) -> (r: Result<
    Vec<String>,
    Error,
>)
    ensures
        r matches Ok(contents) ==> agrees(remote_views(files@), string_views(contents@)),
        all_embedded(remote_views(files@)) ==> (r matches Ok(contents) && string_views(contents@)
            == embedded(remote_views(files@))),
{
    let ghost chosen = remote_views(files@);
    let mut contents: Vec<String> = Vec::new();
    let mut i: usize = 0;
    while i < files.len()
        invariant
            i <= files.len(),
            contents.len() == i,
            chosen == remote_views(files@),
            forall|j: int|
                0 <= j < i ==> ((#[trigger] chosen[j]).contents matches Some(text)
                    ==> contents@[j]@ == text),
        decreases files.len() - i,
    {
        assert(chosen[i as int] == files@[i as int]@);
        let text = match &files[i].contents {
            Some(c) => c.clone(),
            None => {
                assert(!all_embedded(chosen));
                let response = bin.download(&files[i].url)?;
                read_response(&response)
            },
        };
        contents.push(text);
        i += 1;
    }
    proof {
        let texts = string_views(contents@);
        assert forall|j: int| 0 <= j < chosen.len() implies ((#[trigger] chosen[j]).contents matches Some(
            c,
        ) ==> texts[j] == c) by {}
        if all_embedded(chosen) {
            assert(texts =~= embedded(chosen));
        }
    }
    Ok(contents)
}

/// What is shown for the chosen files and the contents that were fetched
/// for them: their URLs, one on each line, or their contents.
pub open spec fn shown(arguments: Arguments, chosen: Seq<RemoteFileView>, contents: Seq<Seq<char>>) -> Seq<
    char,
> {
    if arguments.raw_urls || arguments.urls {
        url_lines(chosen)
    } else {
        joined(
            files_of(collected(Seq::new(chosen.len(), |i: int| (chosen[i].name, contents[i])))),
        )
    }
}

/// `text` shows the chosen files with some contents that agree with what
/// the listing brought along.
pub open spec fn is_shown(arguments: Arguments, chosen: Seq<RemoteFileView>, text: Seq<char>) -> bool {
    exists|contents: Seq<Seq<char>>| #[trigger]
        agrees(chosen, contents) && text == shown(arguments, chosen, contents)
}

/// What the request asks for of a paste with the given files.
///
/// The request chooses among the files; a choice that fails is the failure.
/// Where URLs are asked for, the URLs of the chosen files are returned, one
/// on each line. Else their contents are returned: those that the listing
/// brought along, and for the others what a download returns. Where the
/// listing brought every content along, nothing is downloaded and the text
/// is decided.
pub fn answer_listing<T: Downloader + ?Sized>(
    bin: &T,
    arguments: &Arguments,
    raw_info: Vec<RemotePasteFile>,
) -> (r: Result<String, Error>)
    ensures
        match selection(
            remote_views(raw_info@),
            string_views(arguments.files@),
            range_view(arguments.range),
            arguments.all,
        ) {
            Err(error) => r matches Err(e) && e@ == error,
            Ok(chosen) => if arguments.raw_urls || arguments.urls {
                r matches Ok(text) && text@ == url_lines(chosen) && lists_urls(text@)
            } else {
                &&& r matches Ok(text) ==> is_shown(*arguments, chosen, text@)
                &&& all_embedded(chosen) ==> (r matches Ok(text) && text@ == shown(
                    *arguments,
                    chosen,
                    embedded(chosen),
                ))
            },
        },
{
    let chosen = select(raw_info, arguments)?;
    if arguments.raw_urls || arguments.urls {
        return Ok(join_urls(&chosen));
    }
    let names = crate::select::file_names(&chosen);
    let contents = fetch_contents(bin, &chosen)?;
    let files = assemble(&names, &contents);
    let text = join_files(&files);
    proof {
        let picked = remote_views(chosen@);
        let texts = string_views(contents@);
        assert(crate::paste::named_contents(names@, contents@) =~= Seq::new(
            picked.len(),
            |i: int| (picked[i].name, texts[i]),
        )) by {
            assert(string_views(names@).len() == names.len());
            assert forall|i: int| 0 <= i < picked.len() implies names@[i]@ == picked[i].name by {
                assert(string_views(names@)[i] == names@[i]@);
            }
        }
        assert(agrees(picked, texts) && text@ == shown(*arguments, picked, texts));
    }
    Ok(text)
}

/// Lists the files of the paste, chooses among them as the request says,
/// and returns either their URLs, one on each line, or their contents.
///
/// The listing and the contents are what the service returns, and
/// `answer_listing` says what is made of them. Of every outcome this much
/// holds: where the request asks for URLs, the text is made of normal forms
/// of URLs, one on each line. Of contents nothing holds of every outcome,
/// since any text may be the content of a file.
pub fn produce_contents<T: ProduceRawInfo + ProduceInfo + Downloader + ?Sized>(
    bin: &T,
    bins: &Bins,
    url: &Url,
) -> (r: Result<String, Error>)
    ensures
        bins.arguments.raw_urls || bins.arguments.urls ==> (r matches Ok(text) ==> lists_urls(
            text@,
        )),
{
    let raw_info = if bins.arguments.urls {
        bin.produce_info(bins, url)?
    } else {
        bin.produce_raw_info(bins, url)?
    };
    answer_listing(bin, &bins.arguments, raw_info)
}

/// Produces what the user asked for from the URL of a paste.
pub trait ProduceRawContent: ProduceRawInfo + ProduceInfo + Downloader {
    /// The URLs or the contents of the files that the request chooses from
    /// the paste. Where the request asks for URLs, the text is made of
    /// normal forms of URLs, one on each line, whatever the service returns.
    fn produce_raw_contents(&self, bins: &Bins, url: &Url) -> (r: Result<String, Error>)
        ensures
            bins.arguments.raw_urls || bins.arguments.urls ==> (r matches Ok(text)
                ==> lists_urls(text@)),
    {
        produce_contents(self, bins, url)
    }
}

} // verus!
