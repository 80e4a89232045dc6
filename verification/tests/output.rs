use std::cell::RefCell;

use bins::bins::{Arguments, Bins, Engines, PasteSource};
use bins::configuration::Config;
use bins::error::Error;
use bins::paste::PasteFile;
use bins::prepare::PasteInput;
use bins::services::Service;
use bins::url::Url;

fn request() -> Arguments {
    Arguments {
        files: Vec::new(),
        message: None,
        service: None,
        private: true,
        auth: true,
        copy: false,
        input: None,
        range: None,
        raw_urls: false,
        urls: false,
        all: false,
        server: None,
    }
}

struct World {
    calls: RefCell<Vec<String>>,
}

impl World {
    fn new() -> World {
        World { calls: RefCell::new(Vec::new()) }
    }
}

impl Engines for World {
    fn gather(&self, bins: &Bins, source: PasteSource) -> Result<PasteInput, Error> {
        self.calls.borrow_mut().push(format!("gather {:?}", source));
        Ok(match source {
            PasteSource::Message => PasteInput::Message(bins.arguments.message.clone().unwrap()),
            PasteSource::Files => PasteInput::Files(
                bins.arguments
                    .files
                    .iter()
                    .map(|f| PasteFile::new(f.clone(), format!("content of {}", f)))
                    .collect(),
            ),
            PasteSource::Stdin => PasteInput::Stdin("from stdin".to_owned()),
        })
    }

    fn upload(&self, service: Service, _: &Bins, files: Vec<PasteFile>) -> Result<String, Error> {
        let names: Vec<String> = files.iter().map(|f| f.name.clone()).collect();
        self.calls.borrow_mut().push(format!("upload {:?} {}", service, names.join(",")));
        Ok("http://result.test/paste".to_owned())
    }

    fn download(&self, service: Service, _: &Bins, url: &Url) -> Result<String, Error> {
        self.calls.borrow_mut().push(format!("download {:?} {}", service, url.as_str()));
        Ok("downloaded".to_owned())
    }
}

fn run(arguments: Arguments) -> (Result<String, Error>, Vec<String>) {
    let world = World::new();
    let bins = Bins::new(Config { settings: Vec::new() }, arguments);
    let result = bins.get_output(&world);
    let calls = world.calls.borrow().clone();
    (result, calls)
}

#[test]
fn output_of_a_download_comes_from_the_service_of_the_domain() {
    let mut a = request();
    a.input = Some("http://hastebin.com/abc".to_owned());
    a.service = Some("gist".to_owned());
    let (result, calls) = run(a);
    assert_eq!(result.unwrap(), "downloaded");
    assert_eq!(calls, vec!["download Hastebin http://hastebin.com/abc"]);
}

#[test]
fn download_from_a_text_that_is_no_url_fails_before_any_transfer() {
    let mut a = request();
    a.input = Some("hastebin".to_owned());
    let (result, calls) = run(a);
    assert!(matches!(result, Err(Error::InvalidUrl(_))));
    assert!(calls.is_empty());
}

#[test]
fn download_from_an_unknown_domain_fails_before_any_transfer() {
    let mut a = request();
    a.input = Some("http://example.com/abc".to_owned());
    let (result, calls) = run(a);
    assert!(matches!(result, Err(Error::UnknownDomain(_))));
    assert!(calls.is_empty());
    let mut b = request();
    b.input = Some("http://1.2.3.4/abc".to_owned());
    assert!(matches!(run(b).0, Err(Error::NoDomain)));
}

#[test]
fn output_of_an_upload_is_the_url_of_the_paste() {
    let mut a = request();
    a.files = vec!["x.txt".to_owned(), "x.txt".to_owned(), "y".to_owned()];
    a.service = Some("sprunge".to_owned());
    let (result, calls) = run(a);
    assert_eq!(result.unwrap(), "http://result.test/paste");
    assert_eq!(calls, vec!["gather Files", "upload Sprunge x.txt,x_1.txt,y"]);
}

#[test]
fn message_is_pasted_in_place_of_files() {
    let mut a = request();
    a.files = vec!["x.txt".to_owned()];
    a.message = Some("hi".to_owned());
    a.service = Some("pastie".to_owned());
    let (result, calls) = run(a);
    assert!(result.is_ok());
    assert_eq!(calls, vec!["gather Message", "upload Pastie message"]);
}

#[test]
fn standard_input_is_pasted_where_nothing_else_is_given() {
    let mut a = request();
    a.service = Some("gist".to_owned());
    let (_, calls) = run(a);
    assert_eq!(calls, vec!["gather Stdin", "upload Gist stdin"]);
}

#[test]
fn upload_without_a_service_fails_after_gathering() {
    let (result, calls) = run(request());
    assert!(matches!(result, Err(Error::NoService)));
    assert_eq!(calls, vec!["gather Stdin"]);
    let mut a = request();
    a.service = Some("unknown".to_owned());
    assert!(matches!(run(a).0, Err(Error::UnknownService(_))));
}

#[test]
fn blank_message_is_refused_before_the_service_is_looked_up() {
    let mut a = request();
    a.message = Some("   ".to_owned());
    let (result, calls) = run(a);
    assert!(matches!(result, Err(Error::NoFiles)));
    assert_eq!(calls, vec!["gather Message"]);
}

#[test]
fn files_to_paste_are_gathered_and_made_ready() {
    let mut a = request();
    a.files = vec!["x".to_owned(), "x".to_owned()];
    let world = World::new();
    let bins = Bins::new(Config { settings: Vec::new() }, a);
    let files = bins.get_to_paste(&world).unwrap();
    let names: Vec<&str> = files.iter().map(|f| f.name.as_str()).collect();
    assert_eq!(names, vec!["x", "x_1"]);
}
