//! The settings of the user: credentials of services and the defaults of a
//! request, each under a dotted path such as `gist.username`.

use vstd::prelude::*;
use crate::url::option_view;

verus! {

/// The value of a setting.
#[derive(Debug)]
pub enum Setting {
    Text(String),
    Flag(bool),
    /// A value of a kind that nothing here reads.
    Other,
}

/// A [`Setting`] with a text in place of a string.
pub enum SettingView {
    Text(Seq<char>),
    Flag(bool),
    Other,
}

impl View for Setting {
    type V = SettingView;

    open spec fn view(&self) -> SettingView {
        match *self {
            Setting::Text(s) => SettingView::Text(s@),
            Setting::Flag(b) => SettingView::Flag(b),
            Setting::Other => SettingView::Other,
        }
    }
}

/// The settings, each with its path. Of two settings with one path the
/// first counts.
#[derive(Debug)]
pub struct Config {
    pub settings: Vec<(String, Setting)>,
}

/// The settings with texts in place of strings.
pub open spec fn setting_views(settings: Seq<(String, Setting)>) -> Seq<(Seq<char>, SettingView)> {
    Seq::new(settings.len(), |i: int| (settings[i].0@, settings[i].1@))
}

impl View for Config {
    type V = Seq<(Seq<char>, SettingView)>;

    open spec fn view(&self) -> Seq<(Seq<char>, SettingView)> {
        setting_views(self.settings@)
    }
}

/// The value of the first setting at `path`.
pub open spec fn setting_at(settings: Seq<(Seq<char>, SettingView)>, path: Seq<char>) -> Option<
    SettingView,
>
    decreases settings.len(),
{
    if settings.len() == 0 {
        None
    } else if settings.first().0 == path {
        Some(settings.first().1)
    } else {
        setting_at(settings.drop_first(), path)
    }
}

/// The text at `path`, if the setting there is a text.
pub open spec fn text_at(settings: Seq<(Seq<char>, SettingView)>, path: Seq<char>) -> Option<
    Seq<char>,
> {
    match setting_at(settings, path) {
        Some(SettingView::Text(s)) => Some(s),
        _ => None,
    }
}

/// The flag at `path`, if the setting there is a flag.
pub open spec fn flag_at(settings: Seq<(Seq<char>, SettingView)>, path: Seq<char>) -> Option<
    bool,
> {
    match setting_at(settings, path) {
        Some(SettingView::Flag(b)) => Some(b),
        _ => None,
    }
}

/// Typed access to settings by path.
pub trait BetterLookups {
    fn lookup_str<'a>(&'a self, path: &'a str) -> Option<&'a str>;

    fn lookup_str_or<'a>(&'a self, key: &'a str, def: &'a str) -> &'a str;

    fn lookup_bool<'a>(&'a self, path: &'a str) -> Option<bool>;

    fn lookup_bool_or<'a>(&'a self, key: &'a str, def: bool) -> bool;
}

impl Config {
    /// The first setting at `path`.
    pub fn lookup<'a>(&'a self, path: &str) -> (r: Option<&'a Setting>)
        ensures
            match r {
                Some(setting) => setting_at(self@, path@) == Some(setting@),
                None => setting_at(self@, path@) is None,
            },
    {
        let ghost all = self@;
        let mut i: usize = 0;
        assert(all.skip(0) =~= all);
        while i < self.settings.len()
            invariant
                i <= self.settings.len(),
                all == self@,
                setting_at(all, path@) == setting_at(all.skip(i as int), path@),
            decreases self.settings.len() - i,
        {
            proof {
                assert(all.skip(i as int).first() == (
                    self.settings@[i as int].0@,
                    self.settings@[i as int].1@,
                ));
                assert(all.skip(i as int).drop_first() =~= all.skip(i + 1));
            }
            if self.settings[i].0.as_str().to_owned() == path.to_owned() {
                return Some(&self.settings[i].1);
            }
            i += 1;
        }
        None
    }
}

impl BetterLookups for Config {
    /// The text at `path`, if the setting there is a text.
    fn lookup_str<'a>(&'a self, path: &'a str) -> (r: Option<&'a str>)
        ensures
            match r {
                Some(s) => text_at(self@, path@) == Some(s@),
                None => text_at(self@, path@) is None,
            },
    {
        match self.lookup(path) {
            Some(Setting::Text(s)) => Some(s.as_str()),
            _ => None,
        }
    }

    /// The text at `key`, or `def` where there is none.
    fn lookup_str_or<'a>(&'a self, key: &'a str, def: &'a str) -> (r: &'a str)
        ensures
            r@ == match text_at(self@, key@) {
                Some(s) => s,
                None => def@,
            },
    {
        match self.lookup_str(key) {
            Some(s) => s,
            None => def,
        }
    }

    /// The flag at `path`, if the setting there is a flag.
    fn lookup_bool<'a>(&'a self, path: &'a str) -> (r: Option<bool>)
        ensures
            r == flag_at(self@, path@),
    {
        match self.lookup(path) {
            Some(Setting::Flag(b)) => Some(*b),
            _ => None,
        }
    }

    /// The flag at `key`, or `def` where there is none.
    fn lookup_bool_or<'a>(&'a self, key: &'a str, def: bool) -> (r: bool)
        ensures
            r == match flag_at(self@, key@) {
                Some(b) => b,
                None => def,
            },
    {
        match self.lookup_bool(key) {
            Some(b) => b,
            None => def,
        }
    }
}

/// The settings that a new configuration file holds.
pub open spec fn default_settings() -> Seq<(Seq<char>, SettingView)> {
    seq![
        ("defaults.private"@, SettingView::Flag(true)),
        ("defaults.auth"@, SettingView::Flag(true)),
        ("defaults.copy"@, SettingView::Flag(false)),
        ("gist.username"@, SettingView::Text(Seq::<char>::empty())),
        ("gist.access_token"@, SettingView::Text(Seq::<char>::empty())),
        ("pastebin.api_key"@, SettingView::Text(Seq::<char>::empty())),
    ]
}

/// The place where the configuration of the program is handled.
#[derive(Debug)]
pub struct BinsConfiguration;

impl BinsConfiguration {
    pub fn new() -> (configuration: BinsConfiguration) {
        BinsConfiguration {  }
    }

    /// The settings that a new configuration file holds: pastes are private
    /// and use credentials, nothing is copied, and no credential is set.
    pub fn get_default_config(&self) -> (config: Config)
        ensures
            config@ == default_settings(),
    {
        let mut settings: Vec<(String, Setting)> = Vec::new();
        settings.push(("defaults.private".to_owned(), Setting::Flag(true)));
        settings.push(("defaults.auth".to_owned(), Setting::Flag(true)));
        settings.push(("defaults.copy".to_owned(), Setting::Flag(false)));
        settings.push(("gist.username".to_owned(), Setting::Text(String::new())));
        settings.push(("gist.access_token".to_owned(), Setting::Text(String::new())));
        settings.push(("pastebin.api_key".to_owned(), Setting::Text(String::new())));
        let config = Config { settings };
        assert(config@ =~= default_settings());
        config
    }
}

} // verus!
