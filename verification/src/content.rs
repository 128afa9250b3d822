//! What the content panel shows for the selected entry.

use vstd::prelude::*;

verus! {

/// The text shown before the first navigation.
pub const PLACEHOLDER: &'static str = "This is the content of the selected item.";

/// The text shown for an entry that is not a regular file.
pub const NOT_A_FILE: &'static str = "Selected item is not a file";

/// The text shown for a regular file that could not be read, whatever the
/// fault.
pub const UNREADABLE: &'static str = "Could not read file";

/// Why the text of a file could not be had.
#[derive(Clone, Copy, Debug, PartialEq, Eq, Structural)]
pub enum ReadFault {
    NotFound,
    PermissionDenied,
    InvalidEncoding,
    Other,
}

/// What was found on disk at the path of an entry.
#[derive(Debug, PartialEq, Eq)]
pub enum Probe {
    /// The path names something other than a regular file.
    NotAFile,
    /// The path names a regular file whose text could not be read.
    Unreadable(ReadFault),
    /// The path names a regular file, and this is all of its text.
    Text(String),
}

impl Probe {
    /// The text that the content panel shows for this probe: the file's own
    /// text where it was read, and one fixed message for each of the other
    /// outcomes.
    pub open spec fn text(self) -> Seq<char> {
        match self {
            Probe::NotAFile => NOT_A_FILE@,
            Probe::Unreadable(_) => UNREADABLE@,
            Probe::Text(s) => s@,
        }
    }

    /// Turns the probe into the text to show.
    pub fn into_text(self) -> (shown: String)
        ensures
            shown@ == self.text(),
    {
        match self {
            Probe::NotAFile => NOT_A_FILE.to_owned(),
            Probe::Unreadable(_) => UNREADABLE.to_owned(),
            Probe::Text(s) => s,
        }
    }
}

} // verus!
