//! Why a scrape fails. An absent source file is never an error: it yields
//! the zero/empty value. These two conditions abort the scrape instead, and
//! the caller keeps its previous output in place.

use vstd::prelude::*;

verus! {

#[derive(Debug, Clone, Copy, PartialEq, Eq, Structural)]
pub enum ScrapeError {
    /// A matched line had a field that failed integer parsing.
    MalformedRecord,
    /// A source existed but could not be read (permissions, transient I/O).
    UnreadableSource,
}

} // verus!
