//! What the command line of the converter is made of.

use vstd::prelude::*;

verus! {

/// A tag whose captured output can be left out of the converted document.
#[derive(Clone, Copy, Debug, PartialEq, Eq, Structural)]
pub enum PossibleFilterTags {
    /// The `<system-out>` elements.
    SystemOut,
    /// The `<system-err>` elements.
    SystemErr,
}

/// The arguments of one run of the converter.
#[derive(Clone, Debug)]
pub struct Args {
    /// Path of the JUnit XML report.
    pub path: String,
    /// Whether the JSON text is indented.
    pub pretty: bool,
    /// The tags to leave out; `None` and an empty list leave out nothing.
    pub filter_tags: Option<Vec<PossibleFilterTags>>,
}

} // verus!
