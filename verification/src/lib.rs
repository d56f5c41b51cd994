//! Harvesting dictionary entries from a wiki: fetching each entry's page with a cache
//! and a retry policy, and extracting from a page the section of one language.

pub mod dom;
pub mod download;
pub mod extract;
pub mod html;
pub mod list;
pub mod parser;
pub mod section;
pub mod text;

use crate::text::{contains_text, text_contains};
use vstd::prelude::*;

verus! {

/// The path segment that marks a link to the site's search and edit endpoint. Such a
/// link stands for an entry without a page.
pub open spec fn unfetchable_marker() -> Seq<char> {
    "/w/index.php"@
}

/// The link leads to a page: it does not hold the marker.
pub open spec fn is_fetchable(link: Seq<char>) -> bool {
    !contains_text(link, unfetchable_marker())
}

/// Whether a link leads to a page that can be fetched.
pub fn valid_link(link: &str) -> (valid: bool)
    ensures
        valid == is_fetchable(link@),
{
    !text_contains(link, "/w/index.php")
}

} // verus!
