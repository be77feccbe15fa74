//! The wiki fragment that shows the door state in the site navigation.

use vstd::prelude::*;
use vstd::string::StringExecFns;
use crate::decimal::{decimal_digits, push_decimal};
use crate::status::Tuerstatus;

verus! {

/// A file to write: where, and what.
#[derive(Debug)]
pub struct FileWrite {
    pub path: String,
    pub content: String,
}

/// Where the fragment lives, below the wiki's directory.
pub const SITENAV_FILE: &'static str = "/wiki.d/Site.SiteNav";

/// The page's header and the text up to the indicator.
pub const SITENAV_HEAD: &'static str =
    "version=pmwiki-2.2.53 ordered=1 urlencoded=1\nname=Site.SiteNav\ntargets=Infrastruktur.ServerB2s\ntext=* [[#door]][[Infrastruktur/Door | %25black%25Base: <br />";

/// The indicator of an open door.
pub const INDICATOR_OPEN: &'static str = "%25green%25besetzt";

/// The indicator of a closed door.
pub const INDICATOR_CLOSED: &'static str = "%25red%25unbesetzt";

/// The text between the indicator and the time of the last change.
pub const SITENAV_TAIL: &'static str = "%25%25]]\ntime=";

/// The indicator for a door state.
pub open spec fn indicator(door_open: bool) -> Seq<char> {
    if door_open {
        INDICATOR_OPEN@
    } else {
        INDICATOR_CLOSED@
    }
}

/// The text of the fragment for a door status: the header, the indicator of
/// the door state, and the time of the last change in decimal.
pub open spec fn sitenav_text(status: Tuerstatus) -> Seq<char> {
    SITENAV_HEAD@ + indicator(status.door_open) + SITENAV_TAIL@ + decimal_digits(
        status.timestamp as nat,
    )
}

/// The path of a file below the wiki's directory.
pub open spec fn wiki_path(wikipath: Seq<char>, file: Seq<char>) -> Seq<char> {
    wikipath + file
}

/// Renders the fragment for `tuerstatus`.
pub fn sitenav(tuerstatus: &Tuerstatus) -> (text: String)
    ensures
        text@ == sitenav_text(*tuerstatus),
{
    let mut text = String::from_str(SITENAV_HEAD);
    if tuerstatus.door_open {
        text.append(INDICATOR_OPEN);
    } else {
        text.append(INDICATOR_CLOSED);
    }
    text.append(SITENAV_TAIL);
    push_decimal(&mut text, tuerstatus.timestamp);
    text
}

/// Says what to write where, so that the wiki below `wikipath` shows
/// `tuerstatus`. Writing the file is left to the caller.
pub fn write_sitenav(wikipath: &str, tuerstatus: &Tuerstatus) -> (file: FileWrite)
    ensures
        file.path@ == wiki_path(wikipath@, SITENAV_FILE@),
        file.content@ == sitenav_text(*tuerstatus),
{
    let mut path = String::from_str(wikipath);
    path.append(SITENAV_FILE);
    FileWrite { path, content: sitenav(tuerstatus) }
}

} // verus!
