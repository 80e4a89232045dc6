//! What each service puts into its requests.

use vstd::prelude::*;
use crate::bins::Bins;
use crate::configuration::{text_at, BetterLookups};
use crate::error::{Error, ErrorView};
use crate::network::{
    body_of, form_content_type, form_encode, form_encoded, form_header, header_views, headers_of,
    Header, ModifyUploadRequest, RequestModifiers,
};
use crate::ordered::pair_views;
use crate::paste::PasteFile;
use crate::services::{Hastebin, Pastebin, Pastie, Sprunge};
use crate::url::option_view;

verus! {

/// `"1"` for a private paste, `"0"` for a public one.
pub open spec fn private_flag(private: bool) -> Seq<char> {
    if private {
        "1"@
    } else {
        "0"@
    }
}

/// The form fields of an upload to sprunge.
pub open spec fn sprunge_fields(data: Seq<char>) -> Seq<(Seq<char>, Seq<char>)> {
    seq![("sprunge"@, data)]
}

/// The form fields of an upload to pastie.
pub open spec fn pastie_fields(data: Seq<char>, private: bool) -> Seq<(Seq<char>, Seq<char>)> {
    seq![
        ("paste[body]"@, data),
        ("paste[authorization]"@, "burger"@),
        ("paste[restricted]"@, private_flag(private)),
    ]
}

/// The form fields of an upload to pastebin.
pub open spec fn pastebin_fields(
    key: Seq<char>,
    name: Seq<char>,
    data: Seq<char>,
    private: bool,
) -> Seq<(Seq<char>, Seq<char>)> {
    seq![
        ("api_option"@, "paste"@),
        ("api_dev_key"@, key),
        ("api_paste_private"@, private_flag(private)),
        ("api_paste_code"@, data),
        ("api_paste_name"@, name),
    ]
}

/// `"1"` for a private paste, `"0"` for a public one.
pub fn private_text(private: bool) -> (s: String)
    ensures
        s@ == private_flag(private),
{
    if private {
        "1".to_owned()
    } else {
        "0".to_owned()
    }
}

impl ModifyUploadRequest for Hastebin {
    /// The body is the content of the file.
    fn modify_request(&self, bins: &Bins, content: &PasteFile) -> (r: Result<
        RequestModifiers,
        Error,
    >)
        ensures
            r matches Ok(m) && option_view(m.body) == Some(content.data@) && m.headers is None,
    {
        Ok(RequestModifiers { body: Some(content.data.clone()), headers: None })
    }
}

impl ModifyUploadRequest for Sprunge {
    /// The body is a form with the content of the file in the field
    /// `sprunge`.
    fn modify_request(&self, bins: &Bins, content: &PasteFile) -> (r: Result<
        RequestModifiers,
        Error,
    >)
        ensures
            r matches Ok(m) && option_view(m.body) == Some(
                form_encoded(sprunge_fields(content.data@)),
            ) && m.headers is None,
    {
        let mut fields: Vec<(String, String)> = Vec::new();
        fields.push(("sprunge".to_owned(), content.data.clone()));
        assert(pair_views(fields@) =~= sprunge_fields(content.data@));
        Ok(RequestModifiers { body: Some(form_encode(&fields)), headers: None })
    }
}

impl ModifyUploadRequest for Pastie {
    /// The body is a form with the content of the file, the word that
    /// pastie asks of every client, and whether the paste is private.
    fn modify_request(&self, bins: &Bins, content: &PasteFile) -> (r: Result<
        RequestModifiers,
        Error,
    >)
        ensures
            r matches Ok(m) && option_view(m.body) == Some(
                form_encoded(pastie_fields(content.data@, bins.arguments.private)),
            ) && headers_of(m) == seq![form_content_type()],
    {
        let mut fields: Vec<(String, String)> = Vec::new();
        fields.push(("paste[body]".to_owned(), content.data.clone()));
        fields.push(("paste[authorization]".to_owned(), "burger".to_owned()));
        fields.push(("paste[restricted]".to_owned(), private_text(bins.arguments.private)));
        assert(pair_views(fields@) =~= pastie_fields(content.data@, bins.arguments.private));
        let mut headers: Vec<Header> = Vec::new();
        headers.push(form_header());
        assert(header_views(headers@) =~= seq![form_content_type()]);
        Ok(RequestModifiers { body: Some(form_encode(&fields)), headers: Some(headers) })
    }
}

impl ModifyUploadRequest for Pastebin {
    /// Fails without an API key in the settings. Else the body is a form
    /// with the key, the name and the content of the file, and whether the
    /// paste is private.
    fn modify_request(&self, bins: &Bins, content: &PasteFile) -> (r: Result<
        RequestModifiers,
        Error,
    >)
        ensures
            match text_at(bins.config@, "pastebin.api_key"@) {
                None => r matches Err(e) && e@ == ErrorView::Config(
                    "no pastebin.api_key defined in configuration file"@,
                ),
                Some(key) => if key.len() == 0 {
                    r matches Err(e) && e@ == ErrorView::Config("pastebin.api_key was empty"@)
                } else {
                    r matches Ok(m) && option_view(m.body) == Some(
                        form_encoded(
                            pastebin_fields(
                                key,
                                content.name@,
                                content.data@,
                                bins.arguments.private,
                            ),
                        ),
                    ) && headers_of(m) == seq![form_content_type()]
                },
            },
    {
        let key = match bins.config.lookup_str("pastebin.api_key") {
            Some(key) => key,
            None => {
                return Err(
                    Error::Config("no pastebin.api_key defined in configuration file".to_owned()),
                );
            },
        };
        if key.is_empty() {
            return Err(Error::Config("pastebin.api_key was empty".to_owned()));
        }
        let mut fields: Vec<(String, String)> = Vec::new();
        fields.push(("api_option".to_owned(), "paste".to_owned()));
        fields.push(("api_dev_key".to_owned(), key.to_owned()));
        fields.push(("api_paste_private".to_owned(), private_text(bins.arguments.private)));
        fields.push(("api_paste_code".to_owned(), content.data.clone()));
        fields.push(("api_paste_name".to_owned(), content.name.clone()));
        assert(pair_views(fields@) =~= pastebin_fields(
            key@,
            content.name@,
            content.data@,
            bins.arguments.private,
        ));
        let mut headers: Vec<Header> = Vec::new();
        headers.push(form_header());
        assert(header_views(headers@) =~= seq![form_content_type()]);
        Ok(RequestModifiers { body: Some(form_encode(&fields)), headers: Some(headers) })
    }
}

impl Pastebin {
    /// What pastebin wants with a download: the page of the paste that was
    /// looked at last, as the referer.
    pub fn referer_request(last_url: Option<&str>) -> (m: RequestModifiers)
        ensures
            m.body is None,
            headers_of(m) == match last_url {
                Some(url) => seq![("Referer"@, url@)],
                None => Seq::<(Seq<char>, Seq<char>)>::empty(),
            },
            m.headers is Some,
    {
        let mut headers: Vec<Header> = Vec::new();
        match last_url {
            Some(url) => {
                headers.push(Header { name: "Referer".to_owned(), value: url.to_owned() });
                assert(header_views(headers@) =~= seq![("Referer"@, url@)]);
            },
            None => {
                assert(header_views(headers@) =~= Seq::<(Seq<char>, Seq<char>)>::empty());
            },
        }
        RequestModifiers { body: None, headers: Some(headers) }
    }
}

} // verus!
