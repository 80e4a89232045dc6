use bins::error::Error;
use bins::index::Index;
use bins::url::Url;

fn url(text: &str) -> Url {
    Url::parse(text).unwrap()
}

fn names_and_urls(index: &Index) -> Vec<(String, String)> {
    index.entries().into_iter().map(|(name, url)| (name, url.as_str().to_owned())).collect()
}

fn pair(name: &str, url: &str) -> (String, String) {
    (name.to_owned(), url.to_owned())
}

#[test]
fn index_text_has_header_rule_blank_line_and_entries() {
    let names = vec!["a.txt".to_owned(), "b.txt".to_owned()];
    let urls = vec![url("http://example.com/a"), url("http://example.com/b")];
    let index = Index::from_pairs(&names, &urls).unwrap();
    assert_eq!(
        index.to_string(),
        "2 files\n-------\n\n1. a.txt: http://example.com/a\n2. b.txt: http://example.com/b\n"
    );
}

#[test]
fn index_rule_is_as_long_as_the_header() {
    let mut names = Vec::new();
    let mut urls = Vec::new();
    for i in 0..10 {
        names.push(format!("f{}", i));
        urls.push(url(&format!("http://example.com/{}", i)));
    }
    let index = Index::from_pairs(&names, &urls).unwrap();
    let text = index.to_string();
    let lines: Vec<&str> = text.split('\n').collect();
    assert_eq!(lines[0], "10 files");
    assert_eq!(lines[1], "--------");
    assert_eq!(lines[2], "");
    assert_eq!(lines[3], "1. f0: http://example.com/0");
    assert_eq!(lines[12], "10. f9: http://example.com/9");
    assert_eq!(lines[13], "");
    assert_eq!(lines.len(), 14);
}

#[test]
fn index_round_trip_keeps_pairs_and_order() {
    let names = vec!["z".to_owned(), "a.txt".to_owned(), "m:n".to_owned()];
    let urls =
        vec![url("http://example.com/z"), url("https://x.org/p?q=1"), url("ftp://h.net/d/e")];
    let index = Index::from_pairs(&names, &urls).unwrap();
    let read = Index::parse(&index.to_string()).unwrap();
    assert_eq!(
        names_and_urls(&read),
        vec![
            pair("z", "http://example.com/z"),
            pair("a.txt", "https://x.org/p?q=1"),
            pair("m:n", "ftp://h.net/d/e")
        ]
    );
    assert_eq!(names_and_urls(&read), names_and_urls(&index));
    assert_eq!(read.len(), 3);
}

#[test]
fn index_of_one_file_round_trips() {
    let index = Index::from_pairs(&vec!["only".to_owned()], &vec![url("http://e.com/1")]).unwrap();
    assert_eq!(index.to_string(), "1 files\n-------\n\n1. only: http://e.com/1\n");
    let read = Index::parse(&index.to_string()).unwrap();
    assert_eq!(names_and_urls(&read), vec![pair("only", "http://e.com/1")]);
}

#[test]
fn index_from_no_pairs_is_none() {
    assert!(Index::from_pairs(&Vec::new(), &Vec::new()).is_none());
}

#[test]
fn repeated_name_counts_once_at_the_later_place() {
    let names = vec!["a".to_owned(), "b".to_owned(), "a".to_owned()];
    let urls = vec![url("http://e.com/1"), url("http://e.com/2"), url("http://e.com/3")];
    let index = Index::from_pairs(&names, &urls).unwrap();
    assert_eq!(names_and_urls(&index), vec![pair("b", "http://e.com/2"), pair("a", "http://e.com/3")]);
    assert_eq!(index.len(), 2);
}

#[test]
fn three_lines_or_fewer_are_no_index() {
    for text in ["", "one", "a\nb", "a\nb\nc", "2 files\n-------\n"] {
        assert!(matches!(Index::parse(text), Err(Error::InvalidIndex)), "{:?}", text);
    }
}

#[test]
fn text_without_entry_lines_is_no_index() {
    for text in ["a\nb\nc\n", "0 files\n-------\n\n", "a\nb\nc\n  \n\t\n"] {
        assert!(matches!(Index::parse(text), Err(Error::InvalidIndex)), "{:?}", text);
    }
}

#[test]
fn entry_line_without_colon_after_name_is_no_index() {
    let text = "1 files\n-------\n\n1. name http://example.com/a\n";
    assert!(matches!(Index::parse(text), Err(Error::InvalidIndex)));
}

#[test]
fn entry_line_with_too_few_words_is_no_index() {
    for text in ["h\nr\n\n1.\n", "h\nr\n\n1. name:\n", "h\nr\n\nword\n", "h\nr\n\n1.  http://e.com/\n"] {
        assert!(matches!(Index::parse(text), Err(Error::InvalidIndex)), "{:?}", text);
    }
}

#[test]
fn one_bad_entry_line_spoils_the_index() {
    let text = "2 files\n-------\n\n1. a: http://example.com/a\nnot an entry\n";
    assert!(matches!(Index::parse(text), Err(Error::InvalidIndex)));
}

#[test]
fn malformed_url_in_entry_is_a_distinct_error() {
    let text = "1 files\n-------\n\n1. a: not-a-url\n";
    assert!(matches!(Index::parse(text), Err(Error::InvalidUrl(_))));
}

#[test]
fn shape_is_judged_before_urls() {
    let text = "2 files\n-------\n\n1. a: not-a-url\n2. b\n";
    assert!(matches!(Index::parse(text), Err(Error::InvalidIndex)));
}

#[test]
fn header_count_and_rule_are_not_checked_on_parse() {
    let text = "99 files\n-\nnot blank\n7. a: http://example.com/a\n\n3. b: http://example.com/b";
    let read = Index::parse(text).unwrap();
    assert_eq!(
        names_and_urls(&read),
        vec![pair("a", "http://example.com/a"), pair("b", "http://example.com/b")]
    );
}

#[test]
fn parsed_urls_are_in_normal_form() {
    let text = "1 files\n-------\n\n1. a: HTTP://EXAMPLE.com\n";
    let read = Index::parse(text).unwrap();
    assert_eq!(names_and_urls(&read), vec![pair("a", "http://example.com/")]);
}

#[test]
fn words_after_the_third_are_ignored() {
    let text = "1 files\n-------\n\n1. a: http://example.com/a trailing words\n";
    let read = Index::parse(text).unwrap();
    assert_eq!(names_and_urls(&read), vec![pair("a", "http://example.com/a")]);
}

#[test]
fn empty_name_is_accepted() {
    let text = "1 files\n-------\n\n1. : http://example.com/a\n";
    let read = Index::parse(text).unwrap();
    assert_eq!(names_and_urls(&read), vec![pair("", "http://example.com/a")]);
}

#[test]
fn name_with_a_blank_does_not_round_trip() {
    let index =
        Index::from_pairs(&vec!["a b".to_owned()], &vec![url("http://example.com/a")]).unwrap();
    assert!(matches!(Index::parse(&index.to_string()), Err(Error::InvalidIndex)));
}
