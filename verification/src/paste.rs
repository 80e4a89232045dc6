//! The files of a paste: what is uploaded, and what is found at a service.

use vstd::prelude::*;
use crate::ordered::{collected, entries_of, map_entries, map_insert, new_map, pair_views};
use crate::text::{join, join_strings, string_views};
use crate::url::{is_url, option_view, Url, UrlView};

verus! {

/// A named text to upload, or one that was downloaded.
#[derive(Debug)]
pub struct PasteFile {
    pub name: String,
    pub data: String,
}

/// A [`PasteFile`] with texts in place of strings.
pub struct PasteFileView {
    pub name: Seq<char>,
    pub data: Seq<char>,
}

impl View for PasteFile {
    type V = PasteFileView;

    open spec fn view(&self) -> PasteFileView {
        PasteFileView { name: self.name@, data: self.data@ }
    }
}

impl PasteFile {
    /// The file with the given name and content.
    pub fn new(name: String, data: String) -> (file: PasteFile)
        ensures
            file@ == (PasteFileView { name: name@, data: data@ }),
    {
        PasteFile { name, data }
    }
}

impl Clone for PasteFile {
    fn clone(&self) -> (file: PasteFile)
        ensures
            file@ == self@,
    {
        PasteFile { name: self.name.clone(), data: self.data.clone() }
    }
}

/// A file found in a paste at a service. `contents` holds its text where the
/// service sent it along with the listing.
#[derive(Debug)]
pub struct RemotePasteFile {
    pub name: String,
    pub url: Url,
    pub contents: Option<String>,
}

/// A [`RemotePasteFile`] with texts in place of strings.
pub struct RemoteFileView {
    pub name: Seq<char>,
    pub url: UrlView,
    pub contents: Option<Seq<char>>,
}

impl View for RemotePasteFile {
    type V = RemoteFileView;

    open spec fn view(&self) -> RemoteFileView {
        RemoteFileView { name: self.name@, url: self.url@, contents: option_view(self.contents) }
    }
}

impl Clone for RemotePasteFile {
    fn clone(&self) -> (file: RemotePasteFile)
        ensures
            file@ == self@,
    {
        let contents = match &self.contents {
            Some(c) => Some(c.clone()),
            None => None,
        };
        RemotePasteFile { name: self.name.clone(), url: self.url.clone(), contents }
    }
}

/// The views of a list of files to upload.
pub open spec fn paste_views(files: Seq<PasteFile>) -> Seq<PasteFileView> {
    Seq::new(files.len(), |i: int| files[i]@)
}

/// The views of a list of files found at a service.
pub open spec fn remote_views(files: Seq<RemotePasteFile>) -> Seq<RemoteFileView> {
    Seq::new(files.len(), |i: int| files[i]@)
}

/// A file under its title: the name between dashes, an empty line, then
/// the content.
pub open spec fn titled(file: PasteFileView) -> Seq<char> {
    seq!['-', '-', '-', ' '] + file.name + seq![' ', '-', '-', '-', '\n', '\n'] + file.data
}

/// The text shown for downloaded files: the content alone where there is one
/// file; else every file under its title, with an empty line between them.
pub open spec fn joined(files: Seq<PasteFileView>) -> Seq<char> {
    if files.len() == 1 {
        files[0].data
    } else {
        join(Seq::new(files.len(), |i: int| titled(files[i])), seq!['\n', '\n'])
    }
}

/// The URLs of the files, one on each line.
pub open spec fn url_lines(files: Seq<RemoteFileView>) -> Seq<char> {
    join(Seq::new(files.len(), |i: int| files[i].url.text), seq!['\n'])
}

/// `text` is made of normal forms of URLs, one on each line.
pub open spec fn lists_urls(text: Seq<char>) -> bool {
    exists|urls: Seq<Seq<char>>|
        (forall|i: int| 0 <= i < urls.len() ==> is_url(#[trigger] urls[i])) && text == join(
            urls,
            seq!['\n'],
        )
}

/// Each name paired with the content at the same place, as far as both
/// lists go.
pub open spec fn named_contents(names: Seq<String>, contents: Seq<String>) -> Seq<
    (Seq<char>, Seq<char>),
> {
    Seq::new(
        if names.len() <= contents.len() {
            names.len()
        } else {
            contents.len()
        },
        |i: int| (names[i]@, contents[i]@),
    )
}

/// The files made of pairs of name and content.
pub open spec fn files_of(pairs: Seq<(Seq<char>, Seq<char>)>) -> Seq<PasteFileView> {
    Seq::new(pairs.len(), |i: int| PasteFileView { name: pairs[i].0, data: pairs[i].1 })
}

/// The text shown for downloaded files.
pub fn join_files(files: &Vec<PasteFile>) -> (s: String)
    ensures
        s@ == joined(paste_views(files@)),
{
    if files.len() == 1 {
        return files[0].data.clone();
    }
    let ghost shown = paste_views(files@);
    let mut parts: Vec<String> = Vec::new();
    let mut i: usize = 0;
    while i < files.len()
        invariant
            i <= files.len(),
            parts.len() == i,
            shown == paste_views(files@),
            forall|j: int| 0 <= j < i ==> (#[trigger] parts@[j])@ == titled(shown[j]),
        decreases files.len() - i,
    {
        let mut part = String::new();
        part.push('-');
        part.push('-');
        part.push('-');
        part.push(' ');
        part.append(files[i].name.as_str());
        part.push(' ');
        part.push('-');
        part.push('-');
        part.push('-');
        part.push('\n');
        part.push('\n');
        part.append(files[i].data.as_str());
        assert(part@ =~= titled(shown[i as int]));
        parts.push(part);
        i += 1;
    }
    assert(string_views(parts@) =~= Seq::new(shown.len(), |i: int| titled(shown[i])));
    let mut sep = String::new();
    sep.push('\n');
    sep.push('\n');
    assert(sep@ =~= seq!['\n', '\n']);
    join_strings(&parts, sep.as_str())
}

/// The URLs of the files, one on each line.
pub fn join_urls(files: &Vec<RemotePasteFile>) -> (s: String)
    ensures
        s@ == url_lines(remote_views(files@)),
        lists_urls(s@),
{
    let mut parts: Vec<String> = Vec::new();
    let mut i: usize = 0;
    while i < files.len()
        invariant
            i <= files.len(),
            parts.len() == i,
            forall|j: int|
                0 <= j < i ==> (#[trigger] parts@[j])@ == files@[j].url@.text && is_url(
                    parts@[j]@,
                ),
        decreases files.len() - i,
    {
        files[i].url.normal();
        parts.push(files[i].url.as_str().to_owned());
        i += 1;
    }
    assert(string_views(parts@) =~= Seq::new(
        remote_views(files@).len(),
        |i: int| remote_views(files@)[i].url.text,
    ));
    let mut sep = String::new();
    sep.push('\n');
    assert(sep@ =~= seq!['\n']);
    let text = join_strings(&parts, sep.as_str());
    proof {
        let urls = string_views(parts@);
        assert forall|i: int| 0 <= i < urls.len() implies is_url(#[trigger] urls[i]) by {
            assert(urls[i] == parts@[i]@);
        }
        assert(text@ == join(urls, seq!['\n']));
    }
    text
}

/// The downloaded files: each name with the content at the same place. A
/// name that comes again counts once, with the later content and at the later
/// place.
pub fn assemble(names: &Vec<String>, contents: &Vec<String>) -> (files: Vec<PasteFile>)
    ensures
        paste_views(files@) == files_of(collected(named_contents(names@, contents@))),
{
    let n = if names.len() <= contents.len() {
        names.len()
    } else {
        contents.len()
    };
    let ghost pairs = named_contents(names@, contents@);
    let mut map = new_map();
    let mut i: usize = 0;
    assert(pairs.take(0) =~= Seq::<(Seq<char>, Seq<char>)>::empty());
    while i < n
        invariant
            i <= n,
            n <= names.len(),
            n <= contents.len(),
            n == pairs.len(),
            pairs == named_contents(names@, contents@),
            entries_of(map) == collected(pairs.take(i as int)),
        decreases n - i,
    {
        proof {
            assert(pairs.take(i + 1).drop_last() =~= pairs.take(i as int));
            assert(pairs.take(i + 1).last() == pairs[i as int]);
        }
        map_insert(&mut map, names[i].clone(), contents[i].clone());
        i += 1;
    }
    assert(pairs.take(i as int) =~= pairs);
    let entries = map_entries(&map);
    assert(pair_views(entries@).len() == entries.len());
    let mut files: Vec<PasteFile> = Vec::new();
    let mut k: usize = 0;
    while k < entries.len()
        invariant
            k <= entries.len(),
            files.len() == k,
            forall|j: int|
                0 <= j < k ==> (#[trigger] files@[j])@ == (PasteFileView {
                    name: entries@[j].0@,
                    data: entries@[j].1@,
                }),
        decreases entries.len() - k,
    {
        files.push(PasteFile { name: entries[k].0.clone(), data: entries[k].1.clone() });
        k += 1;
    }
    assert(paste_views(files@) =~= files_of(pair_views(entries@)));
    files
}

} // verus!
