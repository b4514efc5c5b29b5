//! The parts of a URL, as the `url` crate reads them.
use vstd::prelude::*;

verus! {

/// What `url::Url::parse` reads in a text: its scheme, its host (when it has
/// one), its explicit or scheme-default port and its path; or the text of the
/// parse error.
pub uninterp spec fn url_parts(url: Seq<char>) -> Result<(Seq<char>, Option<Seq<char>>, Option<u16>, Seq<char>), Seq<char>>;

/// The host of a URL's parts, by its view.
pub open spec fn opt_text(h: Option<String>) -> Option<Seq<char>> {
    match h {
        Some(s) => Some(s@),
        None => None,
    }
}

/// `reqwest::Url::parse` (the `url` crate), then `Url::scheme`,
/// `Url::host_str`, `Url::port_or_known_default` and `Url::path`; the parse
/// error as its `Display` text. The result is named by `url_parts`.
#[verifier::external_body]
pub(crate) fn parse_url(url: &str) -> (r: Result<(String, Option<String>, Option<u16>, String), String>)
    ensures
        match r {
            Ok((s, h, p, path)) => url_parts(url@) == Ok::<(Seq<char>, Option<Seq<char>>, Option<u16>, Seq<char>), Seq<char>>((s@, opt_text(h), p, path@)),
            Err(e) => url_parts(url@) == Err::<(Seq<char>, Option<Seq<char>>, Option<u16>, Seq<char>), Seq<char>>(e@),
        },
{
    match reqwest::Url::parse(url) {
        Ok(u) => Ok((u.scheme().to_string(), u.host_str().map(|h| h.to_string()), u.port_or_known_default(), u.path().to_string())),
        Err(e) => Err(e.to_string()),
    }
}

} // verus!
