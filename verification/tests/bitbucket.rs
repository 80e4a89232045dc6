use bins::bins::{Arguments, Bins};
use bins::bitbucket::MultipartRelatedBody;
use bins::configuration::{Config, Setting};
use bins::engines::ConvertUrlsToRawUrls;
use bins::error::Error;
use bins::paste::PasteFile;
use bins::services::Bitbucket;
use bins::url::Url;

fn bins_with(settings: Vec<(String, Setting)>) -> Bins {
    Bins::new(
        Config { settings },
        Arguments {
            files: Vec::new(),
            message: None,
            service: None,
            private: true,
            auth: true,
            copy: false,
            input: None,
            range: None,
            raw_urls: false,
            urls: false,
            all: false,
            server: None,
        },
    )
}

#[test]
fn multipart_body_starts_empty_and_ends_with_the_closing_line() {
    let body = MultipartRelatedBody::new("XYZ");
    assert_eq!(body.content, "");
    assert_eq!(body.end(), "--XYZ--\r\n");
}

#[test]
fn multipart_lines_end_with_carriage_return_and_line_feed() {
    let mut body = MultipartRelatedBody::new("b");
    body.add("a");
    body.add_line("bc");
    body.end_line();
    body.add_boundary();
    assert_eq!(body.content, "abc\r\n\r\n--b\r\n");
    assert_eq!(body.boundary, "b");
}

#[test]
fn multipart_json_part() {
    let mut body = MultipartRelatedBody::new("b");
    body.add_json("{\"title\":\"bins\"}");
    assert_eq!(
        body.content,
        "--b\r\nContent-Type: application/json; charset=\"utf-8\"\r\nMIME-Version: 1.0\r\nContent-ID: snippet\r\n\r\n{\"title\":\"bins\"}\r\n\r\n"
    );
}

#[test]
fn multipart_file_part_holds_the_content_in_base_64() {
    let mut body = MultipartRelatedBody::new("b");
    body.add_file("a.txt", b"hello");
    assert_eq!(
        body.content,
        "--b\r\nContent-Type: text/plain; charset=\"utf-8\"\r\nMIME-Version: 1.0\r\nContent-Transfer-Encoding: base64\r\nContent-ID: \"a.txt\"\r\nContent-Disposition: attachment; filename=\"a.txt\"\r\n\r\naGVsbG8=\r\n"
    );
}

#[test]
fn base_64_lines_are_wrapped() {
    let mut body = MultipartRelatedBody::new("b");
    let data = vec![b'a'; 60];
    body.add_file("f", &data);
    let text = body.content;
    let encoded = text.split("\r\n\r\n").nth(1).unwrap();
    let first = encoded.split("\r\n").next().unwrap();
    assert_eq!(first.len(), 76);
    assert!(encoded.starts_with("YWFh"));
}

#[test]
fn snippet_body_holds_properties_then_files_then_closing() {
    let files = vec![
        PasteFile::new("a".to_owned(), "x".to_owned()),
        PasteFile::new("b".to_owned(), "".to_owned()),
    ];
    let text = Bitbucket::new().prepare_body("{}", &files, "BOUND");
    let mut expected = MultipartRelatedBody::new("BOUND");
    expected.add_json("{}");
    expected.add_file("a", b"x");
    expected.add_file("b", b"");
    assert_eq!(text, expected.end());
    assert!(text.ends_with("\r\n--BOUND--\r\n"));
    assert!(text.contains("filename=\"a\"\r\n\r\neA==\r\n--BOUND\r\n"));
    assert_eq!(Bitbucket::new().prepare_body("{}", &Vec::new(), "B"),
        "--B\r\nContent-Type: application/json; charset=\"utf-8\"\r\nMIME-Version: 1.0\r\nContent-ID: snippet\r\n\r\n{}\r\n\r\n--B--\r\n");
}

#[test]
fn bitbucket_needs_its_settings() {
    let bitbucket = Bitbucket::new();
    let none = bins_with(Vec::new());
    match bitbucket.config_value(&none, "bitbucket.username") {
        Err(Error::Config(m)) => assert_eq!(m, "no bitbucket.username set in configuration"),
        other => panic!("{:?}", other),
    }
    let empty = bins_with(vec![("bitbucket.username".to_owned(), Setting::Text(String::new()))]);
    match bitbucket.config_value(&empty, "bitbucket.username") {
        Err(Error::Config(m)) => assert_eq!(m, "bitbucket.username in configuration was empty"),
        other => panic!("{:?}", other),
    }
    let set = bins_with(vec![("bitbucket.username".to_owned(), Setting::Text("me".to_owned()))]);
    assert_eq!(bitbucket.config_value(&set, "bitbucket.username").unwrap(), "me");
}

#[test]
fn bitbucket_api_address_of_a_snippet() {
    let bitbucket = Bitbucket::new();
    let page = Url::parse("https://bitbucket.org/snippets/user/AbC12/title").unwrap();
    assert_eq!(
        bitbucket.api_url(&page).unwrap().as_str(),
        "https://api.bitbucket.org/2.0/snippets/user/AbC12"
    );
    for bad in ["https://bitbucket.org/snippets/user", "https://bitbucket.org/other/user/id"] {
        match bitbucket.api_url(&Url::parse(bad).unwrap()) {
            Err(Error::Service(m)) => {
                assert_eq!(m, "url path expected to be of form /snippets/{username}/{id}")
            }
            other => panic!("{:?}", other),
        }
    }
    match bitbucket.api_url(&Url::parse("mailto:a@b.c").unwrap()) {
        Err(Error::Service(m)) => assert_eq!(m, "url has no path"),
        other => panic!("{:?}", other),
    }
}

#[test]
fn bitbucket_pages_do_not_convert_to_raw_urls() {
    let page = Url::parse("https://bitbucket.org/snippets/user/AbC12").unwrap();
    assert!(matches!(Bitbucket::new().convert_url_to_raw_url(&page), Err(Error::Service(_))));
}
