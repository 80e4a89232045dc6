//! What the user asked for, and the decisions that follow from it.

use vstd::prelude::*;
use crate::configuration::Config;
use crate::engines::{ProduceRawContent, UploadBatchContent};
use crate::error::{Error, ErrorView};
use crate::paste::{lists_urls, paste_views, PasteFile};
use crate::prepare::{files_to_paste, to_paste, PasteInput, PasteInputView};
use crate::range::FlexibleRange;
use crate::services::{get_bin_by_domain, get_bin_by_name, service_by_domain, service_by_name, Service};
use crate::url::{is_url, option_view, parse_url, url_of, Url};

verus! {

/// The request of one run, as taken from the command line and the defaults.
#[derive(Debug)]
pub struct Arguments {
    /// Upload: the paths of the files to paste. Download: the names of the
    /// files wanted from the paste.
    pub files: Vec<String>,
    /// A text to paste in place of files.
    pub message: Option<String>,
    /// The name of the service to upload to.
    pub service: Option<String>,
    /// Whether the paste is to be private.
    pub private: bool,
    /// Whether credentials are to be used.
    pub auth: bool,
    /// Whether the output goes to the clipboard as well.
    pub copy: bool,
    /// The URL of a paste to download.
    pub input: Option<String>,
    /// Download: the positions of the files wanted from the paste.
    pub range: Option<FlexibleRange>,
    /// Download: print the URLs of the raw contents, not the contents.
    pub raw_urls: bool,
    /// Download: print the URLs of the files as the service shows them.
    pub urls: bool,
    /// Download: every file of the paste is wanted.
    pub all: bool,
    /// The server to use in place of the service's own.
    pub server: Option<Url>,
}

/// One run of the program: the settings of the user and the request.
#[derive(Debug)]
pub struct Bins {
    pub config: Config,
    pub arguments: Arguments,
}

/// Where the content of an upload comes from.
#[derive(Clone, Copy, Debug, PartialEq, Eq, Structural)]
pub enum PasteSource {
    /// The message given with the request.
    Message,
    /// The files named in the request.
    Files,
    /// The standard input.
    Stdin,
}

/// The services as they are reached in this run, and the place that the
/// content of an upload is read from.
pub trait Engines {
    /// Reads what there is to paste from the given source.
    fn gather(&self, bins: &Bins, source: PasteSource) -> Result<PasteInput, Error>;

    /// Uploads the files to the service and returns the URL of the paste.
    fn upload(&self, service: Service, bins: &Bins, files: Vec<PasteFile>) -> Result<
        String,
        Error,
    >;

    /// Downloads from the service what the request asks for of the paste at
    /// the URL.
    fn download(&self, service: Service, bins: &Bins, url: &Url) -> Result<String, Error>;
}

/// `files` are the files to upload for some input.
pub open spec fn is_made_ready(files: Seq<crate::paste::PasteFileView>) -> bool {
    exists|input: PasteInputView| #[trigger]
        files_to_paste(input) == Ok::<Seq<crate::paste::PasteFileView>, ErrorView>(files)
}

impl Bins {
    /// The run for the given settings and request.
    pub fn new(config: Config, arguments: Arguments) -> (bins: Bins)
        ensures
            bins.config == config,
            bins.arguments == arguments,
    {
        Bins { config, arguments }
    }

    /// Where the content of the upload is to be taken from: the message if
    /// there is one, else the files if any are named, else the standard
    /// input.
    pub fn paste_source(&self) -> (source: PasteSource)
        ensures
            source == if self.arguments.message is Some {
                PasteSource::Message
            } else if self.arguments.files@.len() > 0 {
                PasteSource::Files
            } else {
                PasteSource::Stdin
            },
    {
        if self.arguments.message.is_some() {
            PasteSource::Message
        } else if self.arguments.files.len() > 0 {
            PasteSource::Files
        } else {
            PasteSource::Stdin
        }
    }

    /// The service that the request names.
    pub fn get_engine(&self) -> (r: Result<Service, Error>)
        ensures
            match option_view(self.arguments.service) {
                None => r matches Err(e) && e@ == ErrorView::NoService,
                Some(name) => match service_by_name(name) {
                    Some(service) => r == Ok::<Service, Error>(service),
                    None => r matches Err(e) && e@ == ErrorView::UnknownService(name),
                },
            },
    {
        let name = match &self.arguments.service {
            Some(name) => name,
            None => {
                return Err(Error::NoService);
            },
        };
        match get_bin_by_name(name.as_str()) {
            Some(service) => Ok(service),
            None => Err(Error::UnknownService(name.clone())),
        }
    }

    /// The service that serves the domain of the URL.
    pub fn get_engine_for_url(&self, url: &Url) -> (r: Result<Service, Error>)
        ensures
            match url@.domain {
                None => r matches Err(e) && e@ == ErrorView::NoDomain,
                Some(domain) => match service_by_domain(domain) {
                    Some(service) => r == Ok::<Service, Error>(service),
                    None => r matches Err(e) && e@ == ErrorView::UnknownDomain(domain),
                },
            },
    {
        let domain = match url.domain() {
            Some(domain) => domain,
            None => {
                return Err(Error::NoDomain);
            },
        };
        match get_bin_by_domain(domain) {
            Some(service) => Ok(service),
            None => Err(Error::UnknownDomain(domain.to_owned())),
        }
    }

    /// Uploads the files to the service and returns the URL of the paste:
    /// one file as it is, several as one paste. Without a file there is
    /// nothing to upload. Whatever the service answers, what is returned is
    /// the normal form of a URL.
    pub fn upload<T: UploadBatchContent>(&self, engine: &T, to_paste: Vec<PasteFile>) -> (r: Result<
        String,
        Error,
    >)
        ensures
            to_paste.len() == 0 ==> (r matches Err(e) && e@ == ErrorView::NothingToUpload),
            r matches Ok(text) ==> is_url(text@),
    {
        let mut to_paste = to_paste;
        let url = if to_paste.len() > 1 {
            engine.upload_all(self, to_paste)?
        } else if to_paste.len() == 1 {
            let file = to_paste.remove(0);
            engine.upload_paste(self, file)?
        } else {
            return Err(Error::NothingToUpload);
        };
        url.normal();
        Ok(url.as_str().to_owned())
    }

    /// The files to upload: what is read from the source of the paste, made
    /// ready as `to_paste` says.
    pub fn get_to_paste<E: Engines>(&self, engines: &E) -> (r: Result<Vec<PasteFile>, Error>)
        ensures
            r matches Ok(files) ==> is_made_ready(paste_views(files@)),
    {
        let input = engines.gather(self, self.paste_source())?;
        let ghost given = input@;
        let files = to_paste(input)?;
        assert(files_to_paste(given) == Ok::<Seq<crate::paste::PasteFileView>, ErrorView>(
            paste_views(files@),
        ));
        Ok(files)
    }

    /// Does what the request asks for and returns what is to be printed.
    ///
    /// With a URL to download from, the service is found by the domain of
    /// the URL, and the content comes from there. Else the content to paste
    /// is gathered and prepared, the service is found by its name, and the
    /// URL of the new paste is returned. The first failure ends the run; an
    /// upload to a service that is not named or not known always fails.
    pub fn get_output<E: Engines>(&self, engines: &E) -> (r: Result<String, Error>)
        ensures
            option_view(self.arguments.input) matches Some(input) ==> (match url_of(input) {
                None => r matches Err(e) && e@ is InvalidUrl,
                Some(url) => match url.domain {
                    None => r matches Err(e) && e@ == ErrorView::NoDomain,
                    Some(domain) => service_by_domain(domain) is None ==> (r matches Err(e) && e@
                        == ErrorView::UnknownDomain(domain)),
                },
            }),
            option_view(self.arguments.input) is None && (match option_view(
                self.arguments.service,
            ) {
                None => true,
                Some(name) => service_by_name(name) is None,
            }) ==> r is Err,
    {
        match &self.arguments.input {
            Some(input) => {
                let url = parse_url(input.as_str())?;
                let service = self.get_engine_for_url(&url)?;
                return engines.download(service, self, &url);
            },
            None => {},
        }
        let files = self.get_to_paste(engines)?;
        let service = self.get_engine()?;
        engines.upload(service, self, files)
    }

    /// Downloads from the service what the request asks for of the paste at
    /// the URL. Where the request asks for URLs, the text is made of normal
    /// forms of URLs, one on each line.
    pub fn get_raw<T: ProduceRawContent>(&self, engine: &T, url: &Url) -> (r: Result<String, Error>)
        ensures
            self.arguments.raw_urls || self.arguments.urls ==> (r matches Ok(text)
                ==> lists_urls(text@)),
    {
        engine.produce_raw_contents(self, url)
    }
}

} // verus!
