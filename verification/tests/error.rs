use bins::error::{followed_by, list_names, Error};
use bins::number::NumberError;
use bins::range::RangeError;

#[test]
fn messages_of_errors() {
    assert_eq!(Error::Transport("timed out".to_owned()).message(), "timed out");
    assert_eq!(Error::Config("no key".to_owned()).message(), "no key");
    assert_eq!(Error::Io("no file".to_owned()).message(), "no file");
    assert_eq!(Error::Service("bad answer".to_owned()).message(), "bad answer");
    assert_eq!(Error::Usage("bad request".to_owned()).message(), "bad request");
    assert_eq!(Error::InvalidIndex.message(), "invalid index");
    assert_eq!(Error::InvalidUrl("empty host".to_owned()).message(), "empty host");
    assert_eq!(Error::RangeParse(RangeError::EmptyPart).message(), "empty part in range");
    assert_eq!(
        Error::RangeParse(RangeError::InvalidNumber(NumberError::Overflow)).message(),
        "number too large to fit in target type"
    );
    assert_eq!(Error::NoDomain.message(), "input url had no domain");
    assert_eq!(Error::UnknownDomain("x.org".to_owned()).message(), "could not find a bin for domain x.org");
    assert_eq!(Error::UnknownService("x".to_owned()).message(), "unknown service \"x\"");
}

#[test]
fn ambiguity_message_lists_every_name_on_its_own_line() {
    let names = vec!["first.txt".to_owned(), "second".to_owned()];
    let message = Error::AmbiguousSelection(names.clone()).message();
    assert!(message.ends_with("available files:\n  first.txt\n  second"));
    for name in &names {
        assert!(message.contains(name.as_str()));
    }
    assert!(Error::AmbiguousSelection(Vec::new()).message().ends_with("available files:\n"));
}

#[test]
fn helpers_for_messages() {
    assert_eq!(followed_by("ab", "cd"), "abcd");
    assert_eq!(list_names(&vec!["a".to_owned(), "b".to_owned()]), "  a\n  b");
    assert_eq!(list_names(&vec!["a".to_owned()]), "  a");
    assert_eq!(list_names(&Vec::new()), "");
}
