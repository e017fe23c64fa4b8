//! The user-defined enumeration list, parsed out of its list file's text
//! the same way the platform list is.  Loading the file from disk is the
//! surrounding program's concern.

use vstd::prelude::*;

use crate::platform_list::parse_platforms_spec;
use crate::platform_list::split_letter_runs;

verus! {

/// The user-defined enumeration values one output file copy can be
/// generated per.
pub struct EnumerationList {
    pub enumerations: Vec<String>,
}

impl EnumerationList {
    /// Parses the list file's text into enumeration values.
    pub fn parse_enumerations(file_contents: &String) -> (r: Vec<String>)
        ensures
            r.deep_view() == parse_platforms_spec(file_contents@),
    {
        split_letter_runs(file_contents.as_str())
    }
}

} // verus!
