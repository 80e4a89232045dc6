//! What can go wrong, and what the user is told about it.

use vstd::prelude::*;
use crate::range::{range_error_text, RangeError};
use crate::text::{join, join_strings, string_views};

verus! {

/// A failure of this library or of a transport behind it. None is retried:
/// the first failure ends the operation it occurs in.
#[derive(Debug)]
pub enum Error {
    /// A network or HTTP failure, with the transport's own description.
    Transport(String),
    /// A file or the standard input that could not be read or written,
    /// with its description.
    Io(String),
    /// A missing or empty credential or setting, with its description.
    Config(String),
    /// A URL or an answer that a service cannot work with, with its
    /// description.
    Service(String),
    /// A request that asks for what does not go together, with its
    /// description.
    Usage(String),
    /// The text is no index: the paste it came from is a single file.
    InvalidIndex,
    /// The text is no well-formed URL, with the parser's description.
    InvalidUrl(String),
    /// The selector names a file or a position that the paste does not hold.
    FileNotFound(String),
    /// The paste holds several files and nothing says which are wanted; holds
    /// the names of all of them, in the order of the paste.
    AmbiguousSelection(Vec<String>),
    /// The range expression is malformed.
    RangeParse(RangeError),
    /// The URL of a paste has no path to take a file name from.
    RootUrl,
    /// There is nothing to paste, or nothing but blank files.
    NoFiles,
    /// An upload was asked for without any file.
    NothingToUpload,
    /// No service was named and none is configured as the default.
    NoService,
    /// No service has the given name.
    UnknownService(String),
    /// The URL to download from has no domain.
    NoDomain,
    /// No service serves the given domain.
    UnknownDomain(String),
    /// The URL points at a private paste of a service that hands those out
    /// to nobody.
    PrivatePaste,
}

/// An [`Error`] with texts in place of strings.
pub enum ErrorView {
    Transport(Seq<char>),
    Io(Seq<char>),
    Config(Seq<char>),
    Service(Seq<char>),
    Usage(Seq<char>),
    InvalidIndex,
    InvalidUrl(Seq<char>),
    FileNotFound(Seq<char>),
    AmbiguousSelection(Seq<Seq<char>>),
    RangeParse(RangeError),
    RootUrl,
    NoFiles,
    NothingToUpload,
    NoService,
    UnknownService(Seq<char>),
    NoDomain,
    UnknownDomain(Seq<char>),
    PrivatePaste,
}

impl View for Error {
    type V = ErrorView;

    open spec fn view(&self) -> ErrorView {
        match *self {
            Error::Transport(s) => ErrorView::Transport(s@),
            Error::Io(s) => ErrorView::Io(s@),
            Error::Config(s) => ErrorView::Config(s@),
            Error::Service(s) => ErrorView::Service(s@),
            Error::Usage(s) => ErrorView::Usage(s@),
            Error::InvalidIndex => ErrorView::InvalidIndex,
            Error::InvalidUrl(s) => ErrorView::InvalidUrl(s@),
            Error::FileNotFound(s) => ErrorView::FileNotFound(s@),
            Error::AmbiguousSelection(names) => ErrorView::AmbiguousSelection(
                string_views(names@),
            ),
            Error::RangeParse(e) => ErrorView::RangeParse(e),
            Error::RootUrl => ErrorView::RootUrl,
            Error::NoFiles => ErrorView::NoFiles,
            Error::NothingToUpload => ErrorView::NothingToUpload,
            Error::NoService => ErrorView::NoService,
            Error::UnknownService(s) => ErrorView::UnknownService(s@),
            Error::NoDomain => ErrorView::NoDomain,
            Error::UnknownDomain(s) => ErrorView::UnknownDomain(s@),
            Error::PrivatePaste => ErrorView::PrivatePaste,
        }
    }
}

/// Each name on a line of its own, two blanks before it.
pub open spec fn listed(names: Seq<Seq<char>>) -> Seq<char> {
    join(Seq::new(names.len(), |i: int| seq![' ', ' '] + names[i]), seq!['\n'])
}

/// What a user is told about an error.
pub open spec fn error_text(e: ErrorView) -> Seq<char> {
    match e {
        ErrorView::Transport(s) => s,
        ErrorView::Io(s) => s,
        ErrorView::Config(s) => s,
        ErrorView::Service(s) => s,
        ErrorView::Usage(s) => s,
        ErrorView::InvalidIndex => "invalid index"@,
        ErrorView::InvalidUrl(s) => s,
        ErrorView::FileNotFound(s) => "file "@ + s + " not found"@,
        ErrorView::AmbiguousSelection(names) =>
            "paste had multiple files, but no behavior was specified on the command line\n\navailable files:\n"@
            + listed(names),
        ErrorView::RangeParse(e) => range_error_text(e),
        ErrorView::RootUrl => "paste url was a root url"@,
        ErrorView::NoFiles => "no files (or all empty files) to paste"@,
        ErrorView::NothingToUpload => "no files to upload"@,
        ErrorView::NoService => "no service was specified and no default service was set."@,
        ErrorView::UnknownService(s) => "unknown service \""@ + s + "\""@,
        ErrorView::NoDomain => "input url had no domain"@,
        ErrorView::UnknownDomain(s) => "could not find a bin for domain "@ + s,
        ErrorView::PrivatePaste => "pastie private pastes are not supported in input mode"@,
    }
}

/// `needle` stands somewhere in `hay`, character by character.
pub open spec fn occurs_in(needle: Seq<char>, hay: Seq<char>) -> bool {
    exists|k: int|
        0 <= k && k + needle.len() <= hay.len() && #[trigger] hay.subrange(
            k,
            k + needle.len(),
        ) == needle
}

/// What occurs in a text still occurs in it when text is put before and
/// after it.
pub proof fn lemma_occurs_in_wider(needle: Seq<char>, before: Seq<char>, hay: Seq<char>, after: Seq<char>)
    requires
        occurs_in(needle, hay),
    ensures
        occurs_in(needle, before + hay + after),
{
    let k = choose|k: int|
        0 <= k && k + needle.len() <= hay.len() && #[trigger] hay.subrange(k, k + needle.len())
            == needle;
    let wide = before + hay + after;
    let j = before.len() + k;
    assert(wide.subrange(j, j + needle.len()) =~= needle);
}

/// Every name of the list occurs in the listing.
pub proof fn lemma_listed_holds_each(names: Seq<Seq<char>>, i: int)
    requires
        0 <= i < names.len(),
    ensures
        occurs_in(names[i], listed(names)),
    decreases names.len(),
{
    let lines = Seq::new(names.len(), |j: int| seq![' ', ' '] + names[j]);
    let nl = seq!['\n'];
    let line = lines[i];
    assert(line.subrange(2, 2 + names[i].len() as int) =~= names[i]);
    assert(occurs_in(names[i], line));
    if names.len() == 1 {
        assert(join(lines, nl) == line);
    } else {
        let shorter = names.drop_last();
        let short_lines = Seq::new(shorter.len(), |j: int| seq![' ', ' '] + shorter[j]);
        assert(lines.drop_last() =~= short_lines);
        let head = join(short_lines, nl);
        assert(join(lines, nl) == head + nl + lines.last());
        if i == names.len() - 1 {
            lemma_occurs_in_wider(names[i], head + nl, line, Seq::<char>::empty());
            assert(head + nl + line + Seq::<char>::empty() =~= head + nl + line);
        } else {
            lemma_listed_holds_each(shorter, i);
            assert(shorter[i] == names[i]);
            lemma_occurs_in_wider(names[i], Seq::<char>::empty(), head, nl + lines.last());
            assert(Seq::<char>::empty() + head + (nl + lines.last()) =~= head + nl
                + lines.last());
        }
    }
}

/// The message about a paste with several files and no selector names every
/// file of the paste.
pub proof fn lemma_ambiguity_names_every_file(names: Seq<Seq<char>>, i: int)
    requires
        0 <= i < names.len(),
    ensures
        occurs_in(names[i], error_text(ErrorView::AmbiguousSelection(names))),
{
    lemma_listed_holds_each(names, i);
    lemma_occurs_in_wider(
        names[i],
        "paste had multiple files, but no behavior was specified on the command line\n\navailable files:\n"@,
        listed(names),
        Seq::<char>::empty(),
    );
    let head =
        "paste had multiple files, but no behavior was specified on the command line\n\navailable files:\n"@;
    assert(head + listed(names) + Seq::<char>::empty() =~= head + listed(names));
}

/// The string that holds `a` followed by `b`.
pub fn followed_by(a: &str, b: &str) -> (s: String)
    ensures
        s@ == a@ + b@,
{
    let mut s = a.to_owned();
    s.append(b);
    s
}

/// The names, each on a line of its own after two blanks.
pub fn list_names(names: &Vec<String>) -> (s: String)
    ensures
        s@ == listed(string_views(names@)),
{
    let mut lines: Vec<String> = Vec::new();
    let mut i: usize = 0;
    while i < names.len()
        invariant
            i <= names.len(),
            lines.len() == i,
            forall|j: int| 0 <= j < i ==> (#[trigger] lines@[j])@ == seq![' ', ' '] + names@[j]@,
        decreases names.len() - i,
    {
        let mut line = String::new();
        line.push(' ');
        line.push(' ');
        line.append(names[i].as_str());
        assert(line@ =~= seq![' ', ' '] + names@[i as int]@);
        lines.push(line);
        i += 1;
    }
    assert(string_views(lines@) =~= Seq::new(
        string_views(names@).len(),
        |j: int| seq![' ', ' '] + string_views(names@)[j],
    ));
    let mut newline = String::new();
    newline.push('\n');
    assert(newline@ =~= seq!['\n']);
    join_strings(&lines, newline.as_str())
}

impl Error {
    /// What a user is told about this error.
    pub fn message(&self) -> (s: String)
        ensures
            s@ == error_text(self@),
    {
        match self {
            Error::Transport(m) => m.clone(),
            Error::Io(m) => m.clone(),
            Error::Config(m) => m.clone(),
            Error::Service(m) => m.clone(),
            Error::Usage(m) => m.clone(),
            Error::InvalidIndex => "invalid index".to_owned(),
            Error::InvalidUrl(m) => m.clone(),
            Error::FileNotFound(name) => {
                let mut s = followed_by("file ", name.as_str());
                s.append(" not found");
                s
            },
            Error::AmbiguousSelection(names) => {
                let list = list_names(names);
                followed_by(
                    "paste had multiple files, but no behavior was specified on the command line\n\navailable files:\n",
                    list.as_str(),
                )
            },
            Error::RangeParse(e) => e.message(),
            Error::RootUrl => "paste url was a root url".to_owned(),
            Error::NoFiles => "no files (or all empty files) to paste".to_owned(),
            Error::NothingToUpload => "no files to upload".to_owned(),
            Error::NoService => "no service was specified and no default service was set.".to_owned(),
            Error::UnknownService(name) => {
                let mut s = followed_by("unknown service \"", name.as_str());
                s.append("\"");
                s
            },
            Error::NoDomain => "input url had no domain".to_owned(),
            Error::UnknownDomain(domain) => followed_by(
                "could not find a bin for domain ",
                domain.as_str(),
            ),
            Error::PrivatePaste => "pastie private pastes are not supported in input mode".to_owned(),
        }
    }
}

} // verus!
