//! The five source formats and their fetchers.
//!
//! Each fetcher is a pure function of the raw response body and its other
//! inputs; a network collaborator retrieves the body.

use vstd::prelude::*;

use crate::errors::AppError;
use crate::text::str_eq;

pub mod atom;
pub mod custom_html;
pub mod eprint;
pub mod rss;
pub mod substack;

pub use self::atom::AtomFetcher;
pub use self::custom_html::CustomHtmlFetcher;
pub use self::eprint::EprintFetcher;
pub use self::rss::RssFetcher;
pub use self::substack::SubstackFetcher;

verus! {

/// The format tag of a source descriptor.
#[derive(Debug, Clone, Copy, PartialEq, Eq, Structural)]
pub enum FeedType {
    Substack,
    RSS,
    Atom,
    CustomHTML,
    Eprint,
}

/// The tag a descriptor string names, if it names one.
pub open spec fn spec_feed_type_of(s: Seq<char>) -> Option<FeedType> {
    if s == "Substack"@ {
        Some(FeedType::Substack)
    } else if s == "RSS"@ {
        Some(FeedType::RSS)
    } else if s == "Atom"@ {
        Some(FeedType::Atom)
    } else if s == "CustomHTML"@ {
        Some(FeedType::CustomHTML)
    } else if s == "Eprint"@ {
        Some(FeedType::Eprint)
    } else {
        None
    }
}

impl FeedType {
    /// Parse a feed-type tag; an unrecognized tag is a configuration error
    /// naming the offending string.
    pub fn from_str(s: &str) -> (r: Result<FeedType, AppError>)
        ensures
            r matches Ok(t) ==> spec_feed_type_of(s@) == Some(t),
            r matches Err(e) ==> spec_feed_type_of(s@) is None && (e matches
                AppError::UnknownFeedType(m) && m@ == s@),
    {
        if str_eq(s, "Substack") {
            Ok(FeedType::Substack)
        } else if str_eq(s, "RSS") {
            Ok(FeedType::RSS)
        } else if str_eq(s, "Atom") {
            Ok(FeedType::Atom)
        } else if str_eq(s, "CustomHTML") {
            Ok(FeedType::CustomHTML)
        } else if str_eq(s, "Eprint") {
            Ok(FeedType::Eprint)
        } else {
            Err(AppError::UnknownFeedType(s.to_owned()))
        }
    }
}

} // verus!
