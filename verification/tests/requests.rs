use bins::bins::{Arguments, Bins};
use bins::configuration::{Config, Setting};
use bins::error::Error;
use bins::network::{body_and_headers, ModifyDownloadRequest, ModifyUploadRequest, RequestModifiers};
use bins::paste::PasteFile;
use bins::services::{Hastebin, Pastebin, Pastie, Sprunge};

fn bins_with(private: bool, settings: Vec<(String, Setting)>) -> Bins {
    Bins::new(
        Config { settings },
        Arguments {
            files: Vec::new(),
            message: None,
            service: None,
            private,
            auth: true,
            copy: false,
            input: None,
            range: None,
            raw_urls: false,
            urls: false,
            all: false,
            server: None,
        },
    )
}

fn file(name: &str, data: &str) -> PasteFile {
    PasteFile::new(name.to_owned(), data.to_owned())
}

fn headers(m: &RequestModifiers) -> Vec<(String, String)> {
    match &m.headers {
        Some(h) => h.iter().map(|x| (x.name.clone(), x.value.clone())).collect(),
        None => Vec::new(),
    }
}

fn form() -> Vec<(String, String)> {
    vec![("Content-Type".to_owned(), "application/x-www-form-urlencoded".to_owned())]
}

#[test]
fn default_modifiers_are_empty() {
    let m = RequestModifiers::default();
    assert!(m.body.is_none() && m.headers.is_none());
}

#[test]
fn hastebin_sends_the_content_as_it_is() {
    let m = Hastebin::new().modify_request(&bins_with(true, Vec::new()), &file("n", "a b&c")).unwrap();
    assert_eq!(m.body, Some("a b&c".to_owned()));
    assert!(m.headers.is_none());
}

#[test]
fn sprunge_sends_the_content_as_a_form_field() {
    let m =
        Sprunge::new().modify_request(&bins_with(true, Vec::new()), &file("n", "a b&c=d")).unwrap();
    assert_eq!(m.body, Some("sprunge=a+b%26c%3Dd".to_owned()));
    assert!(m.headers.is_none());
}

#[test]
fn pastie_sends_content_word_and_privacy() {
    let private = Pastie::new().modify_request(&bins_with(true, Vec::new()), &file("n", "x y")).unwrap();
    assert_eq!(
        private.body,
        Some("paste%5Bbody%5D=x+y&paste%5Bauthorization%5D=burger&paste%5Brestricted%5D=1".to_owned())
    );
    assert_eq!(headers(&private), form());
    let public = Pastie::new().modify_request(&bins_with(false, Vec::new()), &file("n", "x")).unwrap();
    assert_eq!(
        public.body,
        Some("paste%5Bbody%5D=x&paste%5Bauthorization%5D=burger&paste%5Brestricted%5D=0".to_owned())
    );
}

#[test]
fn pastebin_needs_an_api_key() {
    let none = Pastebin::new().modify_request(&bins_with(true, Vec::new()), &file("n", "x"));
    match none {
        Err(Error::Config(m)) => assert_eq!(m, "no pastebin.api_key defined in configuration file"),
        other => panic!("{:?}", other),
    }
    let empty = vec![("pastebin.api_key".to_owned(), Setting::Text(String::new()))];
    match Pastebin::new().modify_request(&bins_with(true, empty), &file("n", "x")) {
        Err(Error::Config(m)) => assert_eq!(m, "pastebin.api_key was empty"),
        other => panic!("{:?}", other),
    }
    let flag = vec![("pastebin.api_key".to_owned(), Setting::Flag(true))];
    assert!(matches!(
        Pastebin::new().modify_request(&bins_with(true, flag), &file("n", "x")),
        Err(Error::Config(_))
    ));
}

#[test]
fn pastebin_sends_key_privacy_content_and_name() {
    let settings = vec![("pastebin.api_key".to_owned(), Setting::Text("k3y".to_owned()))];
    let m = Pastebin::new().modify_request(&bins_with(false, settings), &file("a.txt", "x y")).unwrap();
    assert_eq!(
        m.body,
        Some(
            "api_option=paste&api_dev_key=k3y&api_paste_private=0&api_paste_code=x+y&api_paste_name=a.txt"
                .to_owned()
        )
    );
    assert_eq!(headers(&m), form());
}

#[test]
fn pastebin_download_names_the_last_page_as_referer() {
    let with = Pastebin::referer_request(Some("http://pastebin.com/abc"));
    assert_eq!(headers(&with), vec![("Referer".to_owned(), "http://pastebin.com/abc".to_owned())]);
    assert!(with.body.is_none());
    let without = Pastebin::referer_request(None);
    assert_eq!(without.headers.map(|h| h.len()), Some(0));
}

struct Plain;

impl ModifyUploadRequest for Plain {}

impl ModifyDownloadRequest for Plain {}

#[test]
fn a_service_that_says_nothing_adds_nothing_to_requests() {
    let up = ModifyUploadRequest::modify_request(&Plain, &bins_with(true, Vec::new()), &file("n", "x"))
        .unwrap();
    assert!(up.body.is_none() && up.headers.is_none());
    let down = ModifyDownloadRequest::modify_request(&Plain).unwrap();
    assert!(down.body.is_none() && down.headers.is_none());
    let (body, list) = body_and_headers(down);
    assert_eq!(body, "");
    assert!(list.is_empty());
}
