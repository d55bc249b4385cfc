//! The records of a scrape, and the reading of a download button's
//! `onclick` script.

use crate::text::{between, text_between, text_of};
use vstd::prelude::*;
use vstd::string::*;

verus! {

/// A season with its episodes.
#[derive(Debug)]
pub struct Season {
    pub name: String,
    pub url: String,
    pub episodes: Vec<Episode>,
}

/// An episode with its download links.
#[derive(Debug)]
pub struct Episode {
    pub name: String,
    pub download_links: Vec<DownloadLink>,
}

/// One download link of an episode.
#[derive(Debug)]
pub struct DownloadLink {
    pub quality: String,
    pub url: String,
    pub file_id: Option<String>,
    pub dkey: Option<String>,
    pub actual_download_urls: Vec<String>,
}

/// What the script `onclick` of a download button holds: the address that it
/// sets `window.location.href` to, up to the closing quote; the file id, from
/// `fileid=` to the next `&`; and the key, from `dkey=` to the next quote, if
/// there is one. Without an address or a file id it holds nothing.
pub open spec fn onclick_target(onclick: Seq<char>) -> Option<
    (Seq<char>, Seq<char>, Option<Seq<char>>),
> {
    match between(onclick, "window.location.href=\""@, '"') {
        Some(url) => match between(onclick, "fileid="@, '&') {
            Some(file_id) => Some((url, file_id, between(onclick, "dkey="@, '"'))),
            None => None,
        },
        None => None,
    }
}

/// Reads the script `onclick` of a download button: the address it leads to,
/// the file id and, where present, the key.
pub fn parse_onclick(onclick: &str) -> (r: Option<(String, String, Option<String>)>)
    ensures
        match r {
            Some(found) => onclick_target(onclick@) == Some(
                (found.0@, found.1@, text_of(found.2)),
            ),
            None => onclick_target(onclick@) is None,
        },
{
    let url = match text_between(onclick, "window.location.href=\"", '"') {
        Some(url) => url,
        None => {
            return None;
        },
    };
    let file_id = match text_between(onclick, "fileid=", '&') {
        Some(file_id) => file_id,
        None => {
            return None;
        },
    };
    let dkey = text_between(onclick, "dkey=", '"');
    Some((url, file_id, dkey))
}

} // verus!
