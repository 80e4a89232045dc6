//! The services that are known, each with its name, its domain and the way
//! it forms the URL of a raw text.

use vstd::prelude::*;
use crate::engines::{Bin, ConvertUrlsToRawUrls, UploadUrl, UsesIndices};
use crate::error::{Error, ErrorView};
use crate::text::{
    append_chars, chars_of, last_dot_of, lowercase, slice_of, starts_with, stem, string_of,
};
use crate::url::{last_segment, path_set, query_removed, url_of, Url};

verus! {

/// A service that can be asked for by name or found by the domain of a URL.
#[derive(Clone, Copy, Debug, PartialEq, Eq, Structural)]
pub enum Service {
    Gist,
    Sprunge,
    Hastebin,
    Pastebin,
    Pastie,
}

/// gist.github.com
#[derive(Debug)]
pub struct Gist;

/// sprunge.us
#[derive(Debug)]
pub struct Sprunge;

/// hastebin.com
#[derive(Debug)]
pub struct Hastebin;

/// pastebin.com
#[derive(Debug)]
pub struct Pastebin;

/// pastie.org
#[derive(Debug)]
pub struct Pastie;

/// bitbucket.org snippets
#[derive(Debug)]
pub struct Bitbucket;

/// The name of a service.
pub open spec fn service_name(s: Service) -> Seq<char> {
    match s {
        Service::Gist => "gist"@,
        Service::Sprunge => "sprunge"@,
        Service::Hastebin => "hastebin"@,
        Service::Pastebin => "pastebin"@,
        Service::Pastie => "pastie"@,
    }
}

/// The domain that a service serves.
pub open spec fn service_domain(s: Service) -> Seq<char> {
    match s {
        Service::Gist => "gist.github.com"@,
        Service::Sprunge => "sprunge.us"@,
        Service::Hastebin => "hastebin.com"@,
        Service::Pastebin => "pastebin.com"@,
        Service::Pastie => "pastie.org"@,
    }
}

/// The known services, in the order in which they are searched.
pub open spec fn services() -> Seq<Service> {
    seq![Service::Gist, Service::Sprunge, Service::Hastebin, Service::Pastebin, Service::Pastie]
}

/// The first of the texts that equals `key` when case is ignored.
pub open spec fn first_match(texts: Seq<Seq<char>>, key: Seq<char>) -> Option<int>
    decreases texts.len(),
{
    if texts.len() == 0 {
        None
    } else if lowercase(texts.first()) == lowercase(key) {
        Some(0)
    } else {
        match first_match(texts.drop_first(), key) {
            Some(i) => Some(i + 1),
            None => None,
        }
    }
}

/// The service with the given name, case ignored.
pub open spec fn service_by_name(name: Seq<char>) -> Option<Service> {
    match first_match(Seq::new(services().len(), |i: int| service_name(services()[i])), name) {
        Some(i) => Some(services()[i]),
        None => None,
    }
}

/// The service that serves the given domain, case ignored.
pub open spec fn service_by_domain(domain: Seq<char>) -> Option<Service> {
    match first_match(Seq::new(services().len(), |i: int| service_domain(services()[i])), domain) {
        Some(i) => Some(services()[i]),
        None => None,
    }
}

impl Gist {
    pub fn new() -> (bin: Gist) {
        Gist {  }
    }
}

impl Sprunge {
    pub fn new() -> (bin: Sprunge) {
        Sprunge {  }
    }
}

impl Hastebin {
    pub fn new() -> (bin: Hastebin) {
        Hastebin {  }
    }
}

impl Pastebin {
    pub fn new() -> (bin: Pastebin) {
        Pastebin {  }
    }
}

impl Pastie {
    pub fn new() -> (bin: Pastie) {
        Pastie {  }
    }
}

impl Bitbucket {
    pub fn new() -> (bin: Bitbucket) {
        Bitbucket {  }
    }
}

impl Bin for Gist {
    fn get_name(&self) -> (name: &str)
        ensures
            name@ == "gist"@,
    {
        "gist"
    }

    fn get_domain(&self) -> (domain: &str)
        ensures
            domain@ == "gist.github.com"@,
    {
        "gist.github.com"
    }
}

impl Bin for Sprunge {
    fn get_name(&self) -> (name: &str)
        ensures
            name@ == "sprunge"@,
    {
        "sprunge"
    }

    fn get_domain(&self) -> (domain: &str)
        ensures
            domain@ == "sprunge.us"@,
    {
        "sprunge.us"
    }
}

impl Bin for Hastebin {
    fn get_name(&self) -> (name: &str)
        ensures
            name@ == "hastebin"@,
    {
        "hastebin"
    }

    fn get_domain(&self) -> (domain: &str)
        ensures
            domain@ == "hastebin.com"@,
    {
        "hastebin.com"
    }
}

impl Bin for Pastebin {
    fn get_name(&self) -> (name: &str)
        ensures
            name@ == "pastebin"@,
    {
        "pastebin"
    }

    fn get_domain(&self) -> (domain: &str)
        ensures
            domain@ == "pastebin.com"@,
    {
        "pastebin.com"
    }
}

impl Bin for Pastie {
    fn get_name(&self) -> (name: &str)
        ensures
            name@ == "pastie"@,
    {
        "pastie"
    }

    fn get_domain(&self) -> (domain: &str)
        ensures
            domain@ == "pastie.org"@,
    {
        "pastie.org"
    }
}

impl Bin for Bitbucket {
    fn get_name(&self) -> (name: &str)
        ensures
            name@ == "bitbucket"@,
    {
        "bitbucket"
    }

    fn get_domain(&self) -> (domain: &str)
        ensures
            domain@ == "bitbucket.org"@,
    {
        "bitbucket.org"
    }
}

impl Bin for Service {
    fn get_name(&self) -> (name: &str)
        ensures
            name@ == service_name(*self),
    {
        match self {
            Service::Gist => "gist",
            Service::Sprunge => "sprunge",
            Service::Hastebin => "hastebin",
            Service::Pastebin => "pastebin",
            Service::Pastie => "pastie",
        }
    }

    fn get_domain(&self) -> (domain: &str)
        ensures
            domain@ == service_domain(*self),
    {
        match self {
            Service::Gist => "gist.github.com",
            Service::Sprunge => "sprunge.us",
            Service::Hastebin => "hastebin.com",
            Service::Pastebin => "pastebin.com",
            Service::Pastie => "pastie.org",
        }
    }
}

impl UsesIndices for Sprunge {
}

impl UsesIndices for Hastebin {
}

impl UsesIndices for Pastebin {
}

impl UsesIndices for Pastie {
}

impl UploadUrl for Sprunge {
    fn get_upload_url(&self) -> (url: &str)
        ensures
            url@ == "http://sprunge.us/"@,
    {
        "http://sprunge.us/"
    }
}

/// The known services, in the order in which they are searched.
pub fn known_services() -> (list: Vec<Service>)
    ensures
        list@ == services(),
{
    let mut list: Vec<Service> = Vec::new();
    list.push(Service::Gist);
    list.push(Service::Sprunge);
    list.push(Service::Hastebin);
    list.push(Service::Pastebin);
    list.push(Service::Pastie);
    assert(list@ =~= services());
    list
}

/// The names of the known services.
pub fn get_bin_names() -> (names: Vec<&'static str>)
    ensures
        names@.len() == services().len(),
        forall|i: int| 0 <= i < names@.len() ==> (#[trigger] names@[i])@ == service_name(services()[i]),
{
    let mut names: Vec<&'static str> = Vec::new();
    names.push("gist");
    names.push("sprunge");
    names.push("hastebin");
    names.push("pastebin");
    names.push("pastie");
    names
}

/// The service with the given name, case ignored.
pub fn get_bin_by_name(name: &str) -> (r: Option<Service>)
    ensures
        r == service_by_name(name@),
{
    let list = known_services();
    let key = name.to_lowercase();
    let ghost names = Seq::new(services().len(), |i: int| service_name(services()[i]));
    let mut i: usize = 0;
    assert(names.skip(0) =~= names);
    while i < list.len()
        invariant
            i <= list.len(),
            list@ == services(),
            key@ == lowercase(name@),
            names == Seq::new(services().len(), |i: int| service_name(services()[i])),
            first_match(names, name@) == match first_match(names.skip(i as int), name@) {
                Some(k) => Some(k + i),
                None => None,
            },
        decreases list.len() - i,
    {
        proof {
            assert(names.skip(i as int).first() == service_name(list@[i as int]));
            assert(names.skip(i as int).drop_first() =~= names.skip(i + 1));
        }
        if list[i].get_name().to_lowercase() == key {
            return Some(list[i]);
        }
        i += 1;
    }
    None
}

/// The service that serves the given domain, case ignored.
pub fn get_bin_by_domain(domain: &str) -> (r: Option<Service>)
    ensures
        r == service_by_domain(domain@),
{
    let list = known_services();
    let key = domain.to_lowercase();
    let ghost domains = Seq::new(services().len(), |i: int| service_domain(services()[i]));
    let mut i: usize = 0;
    assert(domains.skip(0) =~= domains);
    while i < list.len()
        invariant
            i <= list.len(),
            list@ == services(),
            key@ == lowercase(domain@),
            domains == Seq::new(services().len(), |i: int| service_domain(services()[i])),
            first_match(domains, domain@) == match first_match(domains.skip(i as int), domain@) {
                Some(k) => Some(k + i),
                None => None,
            },
        decreases list.len() - i,
    {
        proof {
            assert(domains.skip(i as int).first() == service_domain(list@[i as int]));
            assert(domains.skip(i as int).drop_first() =~= domains.skip(i + 1));
        }
        if list[i].get_domain().to_lowercase() == key {
            return Some(list[i]);
        }
        i += 1;
    }
    None
}

/// The path of the raw text at hastebin: `/raw/`, then the last part of the
/// path without its extension.
pub open spec fn hastebin_raw_path(name: Seq<char>) -> Seq<char> {
    seq!['/', 'r', 'a', 'w', '/'] + stem(name)
}

/// The path of the raw text at pastebin: `/download` before the path.
pub open spec fn pastebin_raw_path(path: Seq<char>) -> Seq<char> {
    seq!['/', 'd', 'o', 'w', 'n', 'l', 'o', 'a', 'd'] + path
}

/// The path of a private paste at pastie begins with this.
pub open spec fn pastie_private() -> Seq<char> {
    seq!['/', 'p', 'r', 'i', 'v', 'a', 't', 'e']
}

/// The path of the raw text at pastie: `/download` after the path, and
/// `/pastes` before a path of a single part.
pub open spec fn pastie_raw_path(path: Seq<char>, parts: nat) -> Seq<char> {
    let tail = seq!['/', 'd', 'o', 'w', 'n', 'l', 'o', 'a', 'd'];
    if parts > 1 {
        path + tail
    } else {
        seq!['/', 'p', 'a', 's', 't', 'e', 's'] + path + tail
    }
}

/// Whether the path is that of a private paste at pastie.
pub open spec fn is_private_path(path: Seq<char>) -> bool {
    pastie_private().len() <= path.len() && path.take(pastie_private().len() as int)
        == pastie_private()
}

impl ConvertUrlsToRawUrls for Sprunge {
    /// The raw text is at the URL of the paste without its query.
    fn convert_url_to_raw_url(&self, url: &Url) -> (r: Result<Url, Error>)
        ensures
            r matches Ok(u) ==> query_removed(url@) == Some(u@),
            r matches Err(e) ==> query_removed(url@) is None && e@ is InvalidUrl,
    {
        url.without_query()
    }
}

impl ConvertUrlsToRawUrls for Hastebin {
    /// The raw text is at `/raw/` and the key of the paste: the last part of
    /// the path without its extension.
    fn convert_url_to_raw_url(&self, url: &Url) -> (r: Result<Url, Error>)
        ensures
            last_segment(url@) is None ==> (r matches Err(e) && e@ == ErrorView::Service(
                "url was root url"@,
            )),
            last_segment(url@) matches Some(name) ==> (match path_set(
                url@,
                hastebin_raw_path(name),
            ) {
                Some(raw) => r matches Ok(u) && u@ == raw,
                None => r matches Err(e) && e@ is InvalidUrl,
            }),
    {
        let name = match url.last_segment() {
            Some(name) => chars_of(name),
            None => {
                return Err(Error::Service("url was root url".to_owned()));
            },
        };
        let dot = last_dot_of(&name);
        let key = if dot == 0 {
            slice_of(&name, 0, name.len())
        } else {
            slice_of(&name, 0, dot - 1)
        };
        assert(key@ =~= stem(name@));
        let mut path: Vec<char> = Vec::new();
        path.push('/');
        path.push('r');
        path.push('a');
        path.push('w');
        path.push('/');
        append_chars(&mut path, &key);
        assert(path@ =~= hastebin_raw_path(name@));
        url.with_path(string_of(&path).as_str())
    }
}

impl ConvertUrlsToRawUrls for Pastebin {
    /// The raw text is at `/download` and the path of the paste.
    fn convert_url_to_raw_url(&self, url: &Url) -> (r: Result<Url, Error>)
        ensures
            match path_set(url@, pastebin_raw_path(url@.path)) {
                Some(raw) => r matches Ok(u) && u@ == raw,
                None => r matches Err(e) && e@ is InvalidUrl,
            },
    {
        let old = chars_of(url.path());
        let mut path: Vec<char> = Vec::new();
        path.push('/');
        path.push('d');
        path.push('o');
        path.push('w');
        path.push('n');
        path.push('l');
        path.push('o');
        path.push('a');
        path.push('d');
        append_chars(&mut path, &old);
        assert(path@ =~= pastebin_raw_path(url@.path));
        url.with_path(string_of(&path).as_str())
    }
}

impl ConvertUrlsToRawUrls for Pastie {
    /// A private paste has no raw text to hand out. Of any other, the raw
    /// text is at the path of the paste and `/download`, below `/pastes`
    /// where the path has a single part.
    fn convert_url_to_raw_url(&self, url: &Url) -> (r: Result<Url, Error>)
        ensures
            is_private_path(url@.path) ==> (r matches Err(e) && e@ == ErrorView::PrivatePaste),
            !is_private_path(url@.path) && url@.segments is None ==> (r matches Err(e) && e@
                == ErrorView::Service("could not get path for url"@)),
            !is_private_path(url@.path) && url@.segments is Some ==> (match path_set(
                url@,
                pastie_raw_path(url@.path, url@.segments->0.len()),
            ) {
                Some(raw) => r matches Ok(u) && u@ == raw,
                None => r matches Err(e) && e@ is InvalidUrl,
            }),
    {
        let old = chars_of(url.path());
        let mut private: Vec<char> = Vec::new();
        private.push('/');
        private.push('p');
        private.push('r');
        private.push('i');
        private.push('v');
        private.push('a');
        private.push('t');
        private.push('e');
        assert(private@ =~= pastie_private());
        if starts_with(&old, &private) {
            return Err(Error::PrivatePaste);
        }
        let parts = match url.path_segments() {
            Some(segments) => segments.len(),
            None => {
                return Err(Error::Service("could not get path for url".to_owned()));
            },
        };
        assert(parts == url@.segments->0.len());
        let mut path: Vec<char> = Vec::new();
        if parts <= 1 {
            path.push('/');
            path.push('p');
            path.push('a');
            path.push('s');
            path.push('t');
            path.push('e');
            path.push('s');
        }
        append_chars(&mut path, &old);
        path.push('/');
        path.push('d');
        path.push('o');
        path.push('w');
        path.push('n');
        path.push('l');
        path.push('o');
        path.push('a');
        path.push('d');
        assert(path@ =~= pastie_raw_path(url@.path, parts as nat));
        url.with_path(string_of(&path).as_str())
    }
}

/// The address of a paste at hastebin: scheme and domain of the URL that
/// the upload went to, then the key that the service answered with.
pub open spec fn hastebin_address(scheme: Seq<char>, domain: Seq<char>, key: Seq<char>) -> Seq<
    char,
> {
    scheme + seq![':', '/', '/'] + domain + seq!['/'] + key
}

impl Hastebin {
    /// The URL of a paste, from the URL that the upload went to and the key
    /// in the answer.
    pub fn paste_url(upload_url: &Url, key: &str) -> (r: Result<Url, Error>)
        ensures
            upload_url@.domain is None ==> (r matches Err(e) && e@ == ErrorView::Service(
                "response had no domain"@,
            )),
            upload_url@.domain matches Some(domain) ==> (match url_of(
                hastebin_address(upload_url@.scheme, domain, key@),
            ) {
                Some(u) => r matches Ok(url) && url@ == u,
                None => r matches Err(e) && e@ is InvalidUrl,
            }),
    {
        let domain = match upload_url.domain() {
            Some(domain) => domain,
            None => {
                return Err(Error::Service("response had no domain".to_owned()));
            },
        };
        let mut text = upload_url.scheme().to_owned();
        text.push(':');
        text.push('/');
        text.push('/');
        text.append(domain);
        text.push('/');
        text.append(key);
        assert(text@ =~= hastebin_address(upload_url@.scheme, domain@, key@));
        Url::parse(text.as_str())
    }
}

} // verus!
