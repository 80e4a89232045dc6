//! From the command line and the settings to the request of a run.

use vstd::prelude::*;
use crate::bins::Arguments;
use crate::configuration::{flag_at, text_at, BetterLookups, Config};
use crate::error::{Error, ErrorView};
use crate::range::{range_of, FlexibleRange, RangeError, Segment};
use crate::text::{lowercase, string_views};
use crate::url::{option_view, parse_url, url_of};

verus! {

/// What the command line holds, option by option.
#[derive(Debug)]
pub struct CommandLine {
    pub files: Vec<String>,
    pub message: Option<String>,
    pub service: Option<String>,
    pub input: Option<String>,
    pub range: Option<String>,
    pub server: Option<String>,
    pub raw_urls: bool,
    pub urls: bool,
    pub all: bool,
    pub private: bool,
    pub public: bool,
    pub auth: bool,
    pub anon: bool,
    pub copy: bool,
    pub no_copy: bool,
}

/// The value of a flag: `first` if the first option is given, else `!first`
/// if the second is given, else the default.
pub open spec fn choose_flag(default: bool, first_given: bool, first: bool, second_given: bool) -> bool {
    if first_given {
        first
    } else if second_given {
        !first
    } else {
        default
    }
}

/// A flag of the settings, or `default` where it is not set.
pub open spec fn flag_or(config: Seq<(Seq<char>, crate::configuration::SettingView)>, path: Seq<char>, default: bool) -> bool {
    match flag_at(config, path) {
        Some(b) => b,
        None => default,
    }
}

/// The service of the request: the one on the command line, else the
/// default of the settings.
pub open spec fn chosen_service(config: &Config, given: &CommandLine) -> Option<Seq<char>> {
    match given.service {
        Some(s) => Some(s@),
        None => text_at(config@, "defaults.service"@),
    }
}

/// A server can be given for hastebin alone, or where no service is named.
pub open spec fn server_fits(service: Option<Seq<char>>) -> bool {
    match service {
        Some(s) => lowercase(s) == "hastebin"@,
        None => true,
    }
}

/// The range of the command line is malformed.
pub open spec fn range_fails(given: &CommandLine) -> bool {
    given.range matches Some(text) && range_of(text@) is Err
}

/// The request of the run: what the command line says, with the settings
/// where it says nothing.
///
/// A malformed range is refused; so is a server for a service other than
/// hastebin, and a server that is no URL.
pub fn get_arguments(config: &Config, given: CommandLine) -> (r: Result<Arguments, Error>)
    ensures
        range_fails(&given) ==> (r matches Err(e) && e@ == ErrorView::RangeParse(
            range_of(given.range->0@)->Err_0,
        )),
        !range_fails(&given) && given.server is Some && !server_fits(
            chosen_service(config, &given),
        ) ==> (r matches Err(e) && e@ == ErrorView::Usage(
            "--server may only be used if --service is hastebin"@,
        )),
        !range_fails(&given) && given.server is Some && server_fits(
            chosen_service(config, &given),
        ) && url_of(given.server->0@) is None ==> (r matches Err(e) && e@ is InvalidUrl),
        !range_fails(&given) && (given.server matches Some(s) ==> server_fits(
            chosen_service(config, &given),
        ) && url_of(s@) is Some) ==> (r matches Ok(a) && {
            &&& string_views(a.files@) == string_views(given.files@)
            &&& option_view(a.message) == option_view(given.message)
            &&& option_view(a.service) == chosen_service(config, &given)
            &&& option_view(a.input) == option_view(given.input)
            &&& (given.range matches Some(text) ==> a.range matches Some(range) && range_of(text@)
                == Ok::<Seq<Segment>, RangeError>(range.ranges@))
            &&& (given.range is None ==> a.range is None)
            &&& (given.server matches Some(s) ==> a.server matches Some(url) && url_of(s@) == Some(
                url@,
            ))
            &&& (given.server is None ==> a.server is None)
            &&& a.raw_urls == given.raw_urls
            &&& a.urls == given.urls
            &&& a.all == given.all
            &&& a.private == choose_flag(
                flag_or(config@, "defaults.private"@, true),
                given.private,
                true,
                given.public,
            )
            &&& a.auth == choose_flag(
                flag_or(config@, "defaults.auth"@, true),
                given.anon,
                false,
                given.auth,
            )
            &&& a.copy == choose_flag(
                flag_or(config@, "defaults.copy"@, false),
                given.copy,
                true,
                given.no_copy,
            )
        }),
{
    let service = match given.service {
        Some(s) => Some(s),
        None => match config.lookup_str("defaults.service") {
            Some(s) => Some(s.to_owned()),
            None => None,
        },
    };
    let range = match &given.range {
        Some(text) => match FlexibleRange::parse(text.as_str()) {
            Ok(range) => Some(range),
            Err(e) => {
                return Err(Error::RangeParse(e));
            },
        },
        None => None,
    };
    let server = match &given.server {
        Some(text) => {
            match &service {
                Some(name) => {
                    if name.as_str().to_lowercase() != "hastebin".to_owned() {
                        return Err(
                            Error::Usage(
                                "--server may only be used if --service is hastebin".to_owned(),
                            ),
                        );
                    }
                },
                None => {},
            }
            Some(parse_url(text.as_str())?)
        },
        None => None,
    };
    let private = if given.private {
        true
    } else if given.public {
        false
    } else {
        config.lookup_bool_or("defaults.private", true)
    };
    let auth = if given.anon {
        false
    } else if given.auth {
        true
    } else {
        config.lookup_bool_or("defaults.auth", true)
    };
    let copy = if given.copy {
        true
    } else if given.no_copy {
        false
    } else {
        config.lookup_bool_or("defaults.copy", false)
    };
    Ok(
        Arguments {
            files: given.files,
            message: given.message,
            service,
            private,
            auth,
            copy,
            input: given.input,
            range,
            raw_urls: given.raw_urls,
            urls: given.urls,
            all: given.all,
            server,
        },
    )
}

} // verus!
