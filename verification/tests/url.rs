use bins::error::Error;
use bins::url::{parse_url, Url};

#[test]
fn url_parse_gives_normal_form_and_components() {
    let url = Url::parse("HTTP://Example.COM/a/b.txt?x=1#frag").unwrap();
    assert_eq!(url.as_str(), "http://example.com/a/b.txt?x=1#frag");
    assert_eq!(url.scheme(), "http");
    assert_eq!(url.domain(), Some("example.com"));
    assert_eq!(url.path(), "/a/b.txt");
    assert_eq!(url.path_segments().unwrap(), &vec!["a".to_owned(), "b.txt".to_owned()]);
    assert_eq!(url.last_segment(), Some("b.txt"));
}

#[test]
fn url_without_path_gets_the_root_path() {
    let url = Url::parse("http://example.com").unwrap();
    assert_eq!(url.as_str(), "http://example.com/");
    assert_eq!(url.path(), "/");
    assert_eq!(url.last_segment(), Some(""));
}

#[test]
fn url_with_address_has_no_domain() {
    let url = Url::parse("http://127.0.0.1/x").unwrap();
    assert_eq!(url.domain(), None);
}

#[test]
fn url_that_cannot_be_a_base_has_no_segments() {
    let url = Url::parse("mailto:someone@example.com").unwrap();
    assert!(url.path_segments().is_none());
    assert_eq!(url.last_segment(), None);
}

#[test]
fn relative_text_is_no_url() {
    assert!(matches!(Url::parse("not a url"), Err(Error::InvalidUrl(_))));
    assert!(matches!(Url::parse(""), Err(Error::InvalidUrl(_))));
    assert!(matches!(parse_url("/just/a/path"), Err(Error::InvalidUrl(_))));
}

#[test]
fn invalid_url_carries_the_parser_description() {
    match Url::parse("nothing") {
        Err(e) => assert_eq!(e.message(), "relative URL without a base"),
        Ok(_) => panic!("parsed"),
    }
}

#[test]
fn with_path_replaces_the_path_only() {
    let url = Url::parse("http://example.com/a?q=1").unwrap();
    let changed = url.with_path("/raw/a").unwrap();
    assert_eq!(changed.as_str(), "http://example.com/raw/a?q=1");
    assert_eq!(url.as_str(), "http://example.com/a?q=1");
}

#[test]
fn without_query_drops_the_query_only() {
    let url = Url::parse("http://example.com/a?q=1#f").unwrap();
    assert_eq!(url.without_query().unwrap().as_str(), "http://example.com/a#f");
    let plain = Url::parse("http://example.com/a").unwrap();
    assert_eq!(plain.without_query().unwrap().as_str(), "http://example.com/a");
}

#[test]
fn clone_of_url_is_the_same_url() {
    let url = Url::parse("https://example.com/x/y").unwrap();
    let copy = url.clone();
    assert_eq!(copy.as_str(), url.as_str());
    assert_eq!(copy.domain(), url.domain());
    assert_eq!(copy.path_segments(), url.path_segments());
}

#[test]
fn parse_url_is_url_parse() {
    assert_eq!(parse_url("http://e.com/p").unwrap().as_str(), "http://e.com/p");
}

#[test]
fn a_path_of_sixteen_megabytes_is_too_long_to_set() {
    let url = Url::parse("http://example.com/a").unwrap();
    let long = "a".repeat(0x100_0000);
    match url.with_path(&long) {
        Err(e) => assert_eq!(e.message(), "url is too long"),
        Ok(_) => panic!("accepted"),
    }
    let short = "a".repeat(0x1000);
    assert_eq!(url.with_path(&short).unwrap().path().len(), 0x1001);
}
