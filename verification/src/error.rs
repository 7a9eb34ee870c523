//! Reasons for which agenda text is refused.

use vstd::prelude::*;

verus! {

/// What can be wrong with a priority token, a line, or a whole agenda.
#[derive(Clone, Copy, Debug, PartialEq, Eq, Structural)]
pub enum ParseError {
    /// The text is not exactly one of the priority names.
    InvalidPriority,
    /// A line asks for an activity that ends before it starts.
    InvalidTimeRange,
    /// A line does not have the shape of an activity record.
    MalformedLine,
}

} // verus!
