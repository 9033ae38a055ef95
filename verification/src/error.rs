//! The closed set of failures a fetch operation can report.

use vstd::prelude::*;

verus! {

/// Exactly one of these is returned when an operation does not produce a
/// validated value. The three kinds are mutually exclusive:
/// `Network` means the transport call did not complete, `Parsing` means the
/// body was not a well-formed payload of the expected shape, and `Data`
/// means the payload parsed but failed semantic validation.
#[derive(Debug)]
pub enum OpenNotificationError {
    /// Something went wrong while fetching the data.
    Network(String),
    /// Unexpected message structure.
    Parsing(String),
    /// Unexpected or inconsistent information is detected.
    Data(String),
}

} // verus!
