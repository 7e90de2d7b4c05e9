//! Why reading a page or laying out an article failed.
use vstd::prelude::*;

verus! {

/// What went wrong where the scraped input was not as expected.
#[derive(Debug, Clone, Copy, PartialEq, Eq, Structural)]
pub enum ScrapeError {
    /// A CSS selector was not accepted by the selector parser.
    InvalidSelector,
    /// A regular expression was not accepted by the regex compiler.
    InvalidPattern,
    /// The HTML of an article body could not be rendered as text.
    TextRenderFailed,
    /// A matched element lacks an attribute that is read from it.
    MissingAttribute,
    /// A link holds no `'/'` before the article number.
    MissingSlash,
    /// A text that should hold a number does not.
    InvalidNumber,
    /// The writer and time of an article are not both on the page.
    MissingWriteInfo,
    /// Selections made per comment do not have one entry per comment.
    MismatchedSelections,
}

} // verus!
