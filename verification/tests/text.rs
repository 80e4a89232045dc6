use bins::number::{decimal_chars, parse_number, NumberError};
use bins::paste::{assemble, join_files, join_urls, PasteFile, RemotePasteFile};
use bins::text::{
    chars_of, is_blank_chars, is_whitespace, join_strings, last_dot_of, same_chars, split_chars,
    starts_with, string_of, trim_chars,
};
use bins::url::Url;

fn text(v: &Vec<char>) -> String {
    v.iter().collect()
}

fn chars(s: &str) -> Vec<char> {
    s.chars().collect()
}

#[test]
fn characters_and_strings_convert_both_ways() {
    assert_eq!(chars_of("aü€𝄞"), vec!['a', 'ü', '€', '𝄞']);
    assert_eq!(string_of(&vec!['a', 'ü', '€', '𝄞']), "aü€𝄞");
    assert_eq!(chars_of(""), Vec::<char>::new());
}

#[test]
fn blanks_are_the_white_space_characters() {
    for c in ['\t', '\n', '\u{b}', '\u{c}', '\r', ' ', '\u{85}', '\u{a0}', '\u{1680}', '\u{2000}',
        '\u{200a}', '\u{2028}', '\u{2029}', '\u{202f}', '\u{205f}', '\u{3000}']
    {
        assert!(is_whitespace(c), "{:?}", c);
    }
    for c in ['a', '0', '-', '\u{8}', '\u{e}', '\u{200b}', '\u{feff}', '\u{1f}'] {
        assert!(!is_whitespace(c), "{:?}", c);
    }
    for n in 0..0x3100u32 {
        if let Some(c) = char::from_u32(n) {
            assert_eq!(is_whitespace(c), c.is_whitespace(), "{:x}", n);
        }
    }
}

#[test]
fn trim_removes_blanks_at_both_ends_only() {
    assert_eq!(text(&trim_chars(&chars("  a b \t\n"))), "a b");
    assert_eq!(text(&trim_chars(&chars("ab"))), "ab");
    assert_eq!(text(&trim_chars(&chars(" \u{3000} "))), "");
    assert_eq!(text(&trim_chars(&chars(""))), "");
    assert!(is_blank_chars(&chars(" \t")));
    assert!(is_blank_chars(&chars("")));
    assert!(!is_blank_chars(&chars(" . ")));
}

#[test]
fn split_yields_one_piece_more_than_separators() {
    let pieces = |s: &str| -> Vec<String> { split_chars(&chars(s), ',').iter().map(text).collect() };
    assert_eq!(pieces("a,b"), vec!["a", "b"]);
    assert_eq!(pieces(""), vec![""]);
    assert_eq!(pieces(","), vec!["", ""]);
    assert_eq!(pieces("a,,b,"), vec!["a", "", "b", ""]);
    assert_eq!(pieces("abc"), vec!["abc"]);
    for s in ["", "x", ",x,,y,", "no separator"] {
        let expected: Vec<&str> = s.split(',').collect();
        assert_eq!(pieces(s), expected);
    }
}

#[test]
fn join_puts_the_separator_between_neighbours() {
    let parts = vec!["a".to_owned(), "".to_owned(), "c".to_owned()];
    assert_eq!(join_strings(&parts, ", "), "a, , c");
    assert_eq!(join_strings(&vec!["one".to_owned()], "-"), "one");
    assert_eq!(join_strings(&Vec::new(), "-"), "");
}

#[test]
fn same_chars_and_starts_with() {
    assert!(same_chars(&chars("abc"), &chars("abc")));
    assert!(!same_chars(&chars("abc"), &chars("abd")));
    assert!(!same_chars(&chars("abc"), &chars("ab")));
    assert!(starts_with(&chars("/private/x"), &chars("/private")));
    assert!(starts_with(&chars("abc"), &chars("")));
    assert!(!starts_with(&chars("/priv"), &chars("/private")));
    assert!(!starts_with(&chars("/public/x"), &chars("/private")));
}

#[test]
fn last_dot_is_counted_from_one() {
    assert_eq!(last_dot_of(&chars("a.b.c")), 4);
    assert_eq!(last_dot_of(&chars(".a")), 1);
    assert_eq!(last_dot_of(&chars("abc")), 0);
    assert_eq!(last_dot_of(&chars("")), 0);
}

#[test]
fn decimal_form_and_back() {
    assert_eq!(text(&decimal_chars(0)), "0");
    assert_eq!(text(&decimal_chars(7)), "7");
    assert_eq!(text(&decimal_chars(10)), "10");
    assert_eq!(text(&decimal_chars(1234567890)), "1234567890");
    assert_eq!(text(&decimal_chars(usize::MAX)), usize::MAX.to_string());
    for n in [0usize, 1, 9, 10, 99, 100, 101, 65535, usize::MAX - 1, usize::MAX] {
        assert_eq!(parse_number(&decimal_chars(n)), Ok(n));
    }
}

#[test]
fn numbers_are_read_as_unsigned_decimals() {
    assert_eq!(parse_number(&chars("0042")), Ok(42));
    assert_eq!(parse_number(&chars("+42")), Ok(42));
    assert_eq!(parse_number(&chars("")), Err(NumberError::Empty));
    assert_eq!(parse_number(&chars("+")), Err(NumberError::InvalidDigit));
    assert_eq!(parse_number(&chars("-1")), Err(NumberError::InvalidDigit));
    assert_eq!(parse_number(&chars("1 ")), Err(NumberError::InvalidDigit));
    assert_eq!(parse_number(&chars("١٢")), Err(NumberError::InvalidDigit));
    assert_eq!(parse_number(&chars("18446744073709551616")), Err(NumberError::Overflow));
    assert_eq!(parse_number(&chars("184467440737095516150")), Err(NumberError::Overflow));
    assert_eq!(parse_number(&chars("99999999999999999999x")), Err(NumberError::Overflow));
    assert_eq!(parse_number(&chars("9x999999999999999999999")), Err(NumberError::InvalidDigit));
    for s in ["", "+", "-", "12", "+0", "00", "1a", "18446744073709551615", "18446744073709551616"] {
        assert_eq!(parse_number(&chars(s)).ok(), s.parse::<usize>().ok(), "{:?}", s);
    }
}

fn file(name: &str, data: &str) -> PasteFile {
    PasteFile::new(name.to_owned(), data.to_owned())
}

#[test]
fn one_downloaded_file_is_shown_bare_and_several_under_titles() {
    assert_eq!(join_files(&vec![file("a", "text")]), "text");
    assert_eq!(
        join_files(&vec![file("a", "1"), file("b", "2")]),
        "--- a ---\n\n1\n\n--- b ---\n\n2"
    );
    assert_eq!(join_files(&Vec::new()), "");
}

#[test]
fn downloaded_names_are_paired_with_contents() {
    let names = vec!["a".to_owned(), "b".to_owned()];
    let contents = vec!["1".to_owned(), "2".to_owned()];
    let files = assemble(&names, &contents);
    assert_eq!(files.len(), 2);
    assert_eq!((files[0].name.as_str(), files[0].data.as_str()), ("a", "1"));
    assert_eq!((files[1].name.as_str(), files[1].data.as_str()), ("b", "2"));
}

#[test]
fn a_downloaded_name_that_comes_again_counts_once() {
    let names = vec!["a".to_owned(), "b".to_owned(), "a".to_owned()];
    let contents = vec!["1".to_owned(), "2".to_owned(), "3".to_owned()];
    let files = assemble(&names, &contents);
    let pairs: Vec<(&str, &str)> = files.iter().map(|f| (f.name.as_str(), f.data.as_str())).collect();
    assert_eq!(pairs, vec![("b", "2"), ("a", "3")]);
}

#[test]
fn urls_of_files_stand_one_on_each_line() {
    let files = vec![
        RemotePasteFile { name: "a".to_owned(), url: Url::parse("http://e.com/a").unwrap(), contents: None },
        RemotePasteFile { name: "b".to_owned(), url: Url::parse("http://e.com/b").unwrap(), contents: None },
    ];
    assert_eq!(join_urls(&files), "http://e.com/a\nhttp://e.com/b");
    assert_eq!(join_urls(&Vec::new()), "");
}

#[test]
fn clones_of_files_hold_the_same() {
    let f = file("n", "d");
    let c = f.clone();
    assert_eq!((c.name, c.data), (f.name, f.data));
    let r = RemotePasteFile {
        name: "a".to_owned(),
        url: Url::parse("http://e.com/a").unwrap(),
        contents: Some("x".to_owned()),
    };
    let rc = r.clone();
    assert_eq!(rc.name, "a");
    assert_eq!(rc.url.as_str(), "http://e.com/a");
    assert_eq!(rc.contents, Some("x".to_owned()));
}
