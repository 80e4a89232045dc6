use bins::arguments::{get_arguments, CommandLine};
use bins::bins::{Bins, PasteSource};
use bins::configuration::{BetterLookups, BinsConfiguration, Config, Setting};
use bins::error::Error;
use bins::range::{RangeError, Segment};
use bins::services::Service;
use bins::url::Url;

fn config(settings: &[(&str, Setting)]) -> Config {
    let mut list = Vec::new();
    for (path, value) in settings {
        let value = match value {
            Setting::Text(s) => Setting::Text(s.clone()),
            Setting::Flag(b) => Setting::Flag(*b),
            Setting::Other => Setting::Other,
        };
        list.push(((*path).to_owned(), value));
    }
    Config { settings: list }
}

fn command_line() -> CommandLine {
    CommandLine {
        files: Vec::new(),
        message: None,
        service: None,
        input: None,
        range: None,
        server: None,
        raw_urls: false,
        urls: false,
        all: false,
        private: false,
        public: false,
        auth: false,
        anon: false,
        copy: false,
        no_copy: false,
    }
}

#[test]
fn lookups_by_path_and_kind() {
    let c = config(&[
        ("gist.username", Setting::Text("me".to_owned())),
        ("defaults.private", Setting::Flag(false)),
        ("gist.count", Setting::Other),
        ("gist.username", Setting::Text("later".to_owned())),
    ]);
    assert_eq!(c.lookup_str("gist.username"), Some("me"));
    assert_eq!(c.lookup_str("defaults.private"), None);
    assert_eq!(c.lookup_str("gist.count"), None);
    assert_eq!(c.lookup_str("missing"), None);
    assert_eq!(c.lookup_str_or("missing", "fallback"), "fallback");
    assert_eq!(c.lookup_str_or("gist.username", "fallback"), "me");
    assert_eq!(c.lookup_bool("defaults.private"), Some(false));
    assert_eq!(c.lookup_bool("gist.username"), None);
    assert!(c.lookup_bool_or("missing", true));
    assert!(!c.lookup_bool_or("defaults.private", true));
}

#[test]
fn default_config_is_private_with_credentials_unset() {
    let c = BinsConfiguration::new().get_default_config();
    assert_eq!(c.lookup_bool("defaults.private"), Some(true));
    assert_eq!(c.lookup_bool("defaults.auth"), Some(true));
    assert_eq!(c.lookup_bool("defaults.copy"), Some(false));
    assert_eq!(c.lookup_str("defaults.service"), None);
    assert_eq!(c.lookup_str("gist.username"), Some(""));
    assert_eq!(c.lookup_str("gist.access_token"), Some(""));
    assert_eq!(c.lookup_str("pastebin.api_key"), Some(""));
    assert_eq!(c.settings.len(), 6);
}

#[test]
fn arguments_take_defaults_from_the_settings() {
    let c = config(&[
        ("defaults.service", Setting::Text("sprunge".to_owned())),
        ("defaults.private", Setting::Flag(false)),
        ("defaults.copy", Setting::Flag(true)),
    ]);
    let a = get_arguments(&c, command_line()).unwrap();
    assert_eq!(a.service, Some("sprunge".to_owned()));
    assert!(!a.private);
    assert!(a.auth);
    assert!(a.copy);
    assert!(a.files.is_empty() && a.message.is_none() && a.input.is_none());
    assert!(a.range.is_none() && a.server.is_none());
    assert!(!a.raw_urls && !a.urls && !a.all);
}

#[test]
fn arguments_without_settings_are_private_and_authenticated() {
    let a = get_arguments(&config(&[]), command_line()).unwrap();
    assert!(a.private && a.auth && !a.copy);
    assert_eq!(a.service, None);
}

#[test]
fn command_line_overrides_the_settings() {
    let c = config(&[
        ("defaults.service", Setting::Text("sprunge".to_owned())),
        ("defaults.private", Setting::Flag(true)),
        ("defaults.auth", Setting::Flag(true)),
        ("defaults.copy", Setting::Flag(true)),
    ]);
    let mut given = command_line();
    given.service = Some("gist".to_owned());
    given.public = true;
    given.anon = true;
    given.no_copy = true;
    given.files = vec!["a".to_owned()];
    given.message = Some("m".to_owned());
    given.input = Some("http://e.com/".to_owned());
    given.raw_urls = true;
    given.all = true;
    let a = get_arguments(&c, given).unwrap();
    assert_eq!(a.service, Some("gist".to_owned()));
    assert!(!a.private && !a.auth && !a.copy);
    assert_eq!(a.files, vec!["a"]);
    assert_eq!(a.message, Some("m".to_owned()));
    assert_eq!(a.input, Some("http://e.com/".to_owned()));
    assert!(a.raw_urls && a.all && !a.urls);
}

#[test]
fn of_two_opposite_flags_the_stronger_wins() {
    let mut given = command_line();
    given.private = true;
    given.public = true;
    given.auth = true;
    given.anon = true;
    given.copy = true;
    given.no_copy = true;
    let a = get_arguments(&config(&[]), given).unwrap();
    assert!(a.private);
    assert!(!a.auth);
    assert!(a.copy);
}

#[test]
fn range_of_the_command_line_is_parsed() {
    let mut given = command_line();
    given.range = Some("1-2,5".to_owned());
    let a = get_arguments(&config(&[]), given).unwrap();
    assert_eq!(
        a.range.unwrap().ranges,
        vec![Segment { lower: 1, upper: 2 }, Segment { lower: 5, upper: 5 }]
    );
    let mut bad = command_line();
    bad.range = Some("1-2-3".to_owned());
    bad.server = Some("not a url".to_owned());
    bad.service = Some("gist".to_owned());
    assert!(matches!(
        get_arguments(&config(&[]), bad),
        Err(Error::RangeParse(RangeError::TooManyDashes))
    ));
}

#[test]
fn server_goes_with_hastebin_alone() {
    let mut given = command_line();
    given.server = Some("http://haste.example.org".to_owned());
    given.service = Some("HasteBin".to_owned());
    let a = get_arguments(&config(&[]), given).unwrap();
    assert_eq!(a.server.unwrap().as_str(), "http://haste.example.org/");

    let mut other = command_line();
    other.server = Some("http://haste.example.org".to_owned());
    other.service = Some("gist".to_owned());
    match get_arguments(&config(&[]), other) {
        Err(Error::Usage(m)) => assert_eq!(m, "--server may only be used if --service is hastebin"),
        x => panic!("{:?}", x),
    }

    let by_default = config(&[("defaults.service", Setting::Text("pastie".to_owned()))]);
    let mut third = command_line();
    third.server = Some("http://haste.example.org".to_owned());
    assert!(matches!(get_arguments(&by_default, third), Err(Error::Usage(_))));

    let mut unnamed = command_line();
    unnamed.server = Some("http://haste.example.org".to_owned());
    assert!(get_arguments(&config(&[]), unnamed).unwrap().server.is_some());
}

#[test]
fn server_must_be_a_url() {
    let mut given = command_line();
    given.server = Some("nowhere".to_owned());
    given.service = Some("hastebin".to_owned());
    assert!(matches!(get_arguments(&config(&[]), given), Err(Error::InvalidUrl(_))));
}

fn bins_for(given: CommandLine) -> Bins {
    let c = config(&[]);
    let a = get_arguments(&c, given).unwrap();
    Bins::new(c, a)
}

#[test]
fn engine_is_found_by_the_name_of_the_request() {
    let mut given = command_line();
    given.service = Some("Pastebin".to_owned());
    assert_eq!(bins_for(given).get_engine().unwrap(), Service::Pastebin);
    match bins_for(command_line()).get_engine() {
        Err(e) => {
            assert!(matches!(e, Error::NoService));
            assert_eq!(e.message(), "no service was specified and no default service was set.");
        },
        Ok(s) => panic!("{:?}", s),
    }
    let mut unknown = command_line();
    unknown.service = Some("nopaste".to_owned());
    match bins_for(unknown).get_engine() {
        Err(e) => assert_eq!(e.message(), "unknown service \"nopaste\""),
        Ok(s) => panic!("{:?}", s),
    }
}

#[test]
fn engine_is_found_by_the_domain_of_a_url() {
    let bins = bins_for(command_line());
    let found = bins.get_engine_for_url(&Url::parse("https://GIST.github.com/u/1").unwrap());
    assert_eq!(found.unwrap(), Service::Gist);
    match bins.get_engine_for_url(&Url::parse("http://example.com/x").unwrap()) {
        Err(e) => assert_eq!(e.message(), "could not find a bin for domain example.com"),
        Ok(s) => panic!("{:?}", s),
    }
    match bins.get_engine_for_url(&Url::parse("http://127.0.0.1/x").unwrap()) {
        Err(e) => assert_eq!(e.message(), "input url had no domain"),
        Ok(s) => panic!("{:?}", s),
    }
}

#[test]
fn source_of_the_paste_is_message_then_files_then_stdin() {
    let mut both = command_line();
    both.message = Some("m".to_owned());
    both.files = vec!["f".to_owned()];
    assert_eq!(bins_for(both).paste_source(), PasteSource::Message);
    let mut files = command_line();
    files.files = vec!["f".to_owned()];
    assert_eq!(bins_for(files).paste_source(), PasteSource::Files);
    assert_eq!(bins_for(command_line()).paste_source(), PasteSource::Stdin);
}
