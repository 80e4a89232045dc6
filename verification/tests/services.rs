use bins::engines::{Bin, ConvertUrlsToRawUrls, UploadUrl};
use bins::error::Error;
use bins::services::{
    get_bin_by_domain, get_bin_by_name, get_bin_names, known_services, Bitbucket, Gist, Hastebin,
    Pastebin, Pastie, Service, Sprunge,
};
use bins::url::Url;

fn url(text: &str) -> Url {
    Url::parse(text).unwrap()
}

#[test]
fn names_and_domains_of_the_services() {
    assert_eq!((Gist::new().get_name(), Gist::new().get_domain()), ("gist", "gist.github.com"));
    assert_eq!((Sprunge::new().get_name(), Sprunge::new().get_domain()), ("sprunge", "sprunge.us"));
    assert_eq!(
        (Hastebin::new().get_name(), Hastebin::new().get_domain()),
        ("hastebin", "hastebin.com")
    );
    assert_eq!(
        (Pastebin::new().get_name(), Pastebin::new().get_domain()),
        ("pastebin", "pastebin.com")
    );
    assert_eq!((Pastie::new().get_name(), Pastie::new().get_domain()), ("pastie", "pastie.org"));
    assert_eq!(
        (Bitbucket::new().get_name(), Bitbucket::new().get_domain()),
        ("bitbucket", "bitbucket.org")
    );
}

#[test]
fn registry_lists_the_services_in_search_order() {
    assert_eq!(get_bin_names(), vec!["gist", "sprunge", "hastebin", "pastebin", "pastie"]);
    assert_eq!(
        known_services(),
        vec![
            Service::Gist,
            Service::Sprunge,
            Service::Hastebin,
            Service::Pastebin,
            Service::Pastie
        ]
    );
    for (service, name) in known_services().iter().zip(get_bin_names()) {
        assert_eq!(service.get_name(), name);
    }
}

#[test]
fn service_is_found_by_name_whatever_the_case() {
    assert_eq!(get_bin_by_name("hastebin"), Some(Service::Hastebin));
    assert_eq!(get_bin_by_name("GIST"), Some(Service::Gist));
    assert_eq!(get_bin_by_name("PasTie"), Some(Service::Pastie));
    assert_eq!(get_bin_by_name("bitbucket"), None);
    assert_eq!(get_bin_by_name(""), None);
}

#[test]
fn service_is_found_by_domain_whatever_the_case() {
    assert_eq!(get_bin_by_domain("pastebin.com"), Some(Service::Pastebin));
    assert_eq!(get_bin_by_domain("Gist.GitHub.com"), Some(Service::Gist));
    assert_eq!(get_bin_by_domain("sprunge.us"), Some(Service::Sprunge));
    assert_eq!(get_bin_by_domain("example.com"), None);
    assert_eq!(Service::Sprunge.get_domain(), "sprunge.us");
}

#[test]
fn sprunge_uploads_go_to_its_front_page() {
    assert_eq!(Sprunge::new().get_upload_url(), "http://sprunge.us/");
}

#[test]
fn sprunge_raw_url_has_no_query() {
    let raw = Sprunge::new().convert_url_to_raw_url(&url("http://sprunge.us/abcd?rust")).unwrap();
    assert_eq!(raw.as_str(), "http://sprunge.us/abcd");
}

#[test]
fn hastebin_raw_url_is_the_key_below_raw() {
    let bin = Hastebin::new();
    let raw = bin.convert_url_to_raw_url(&url("http://hastebin.com/abcdef.rs")).unwrap();
    assert_eq!(raw.as_str(), "http://hastebin.com/raw/abcdef");
    let plain = bin.convert_url_to_raw_url(&url("http://hastebin.com/abcdef")).unwrap();
    assert_eq!(plain.as_str(), "http://hastebin.com/raw/abcdef");
    let dotted = bin.convert_url_to_raw_url(&url("http://hastebin.com/x/a.b.c")).unwrap();
    assert_eq!(dotted.as_str(), "http://hastebin.com/raw/a.b");
}

#[test]
fn hastebin_refuses_a_url_without_path_parts() {
    match Hastebin::new().convert_url_to_raw_url(&url("mailto:a@b.c")) {
        Err(Error::Service(m)) => assert_eq!(m, "url was root url"),
        other => panic!("{:?}", other),
    }
}

#[test]
fn pastebin_raw_url_is_below_download() {
    let raw = Pastebin::new().convert_url_to_raw_url(&url("http://pastebin.com/AbCd12")).unwrap();
    assert_eq!(raw.as_str(), "http://pastebin.com/download/AbCd12");
}

#[test]
fn pastie_raw_url_ends_with_download() {
    let bin = Pastie::new();
    let short = bin.convert_url_to_raw_url(&url("http://pastie.org/123")).unwrap();
    assert_eq!(short.as_str(), "http://pastie.org/pastes/123/download");
    let long = bin.convert_url_to_raw_url(&url("http://pastie.org/pastes/123")).unwrap();
    assert_eq!(long.as_str(), "http://pastie.org/pastes/123/download");
}

#[test]
fn pastie_hands_out_no_private_paste() {
    let result = Pastie::new().convert_url_to_raw_url(&url("http://pastie.org/private/xyz"));
    assert!(matches!(result, Err(Error::PrivatePaste)));
    assert_eq!(
        Error::PrivatePaste.message(),
        "pastie private pastes are not supported in input mode"
    );
}

#[test]
fn pastie_refuses_a_url_without_path_parts() {
    match Pastie::new().convert_url_to_raw_url(&url("mailto:a@b.c")) {
        Err(Error::Service(m)) => assert_eq!(m, "could not get path for url"),
        other => panic!("{:?}", other),
    }
}

#[test]
fn hastebin_paste_url_is_built_from_upload_url_and_key() {
    let upload = url("http://hastebin.com/documents");
    assert_eq!(Hastebin::paste_url(&upload, "qwerty").unwrap().as_str(), "http://hastebin.com/qwerty");
    match Hastebin::paste_url(&url("http://10.0.0.1/documents"), "k") {
        Err(Error::Service(m)) => assert_eq!(m, "response had no domain"),
        other => panic!("{:?}", other),
    }
}
