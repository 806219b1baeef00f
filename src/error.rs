use vstd::prelude::*;

verus! {

/// The error type of `gimli`, carried through unchanged.
#[verifier::external_type_specification]
#[verifier::external_body]
pub struct ExGimliError(gimli::Error);

/// The error type of `anyhow`, carried through unchanged.
#[verifier::external_type_specification]
#[verifier::external_body]
pub struct ExAnyhowError(anyhow::Error);

/// The error type of `object`'s readers, carried through unchanged.
#[verifier::external_type_specification]
#[verifier::external_body]
pub struct ExObjectError(object::read::Error);

/// std's error for bytes that are not UTF-8.
#[verifier::external_type_specification]
#[verifier::external_body]
pub struct ExUtf8Error(core::str::Utf8Error);

/// std's input/output error.
#[verifier::external_type_specification]
#[verifier::external_body]
pub struct ExIoError(std::io::Error);

/// std's error for a failed `char` conversion.
#[verifier::external_type_specification]
#[verifier::external_body]
pub struct ExCharTryFromError(core::char::CharTryFromError);

/// An error occurred while debugging the target.
#[derive(Debug)]
pub enum DebugError {
    /// An IO error occurred when accessing debug data.
    Io(std::io::Error),
    /// An error occurred while accessing debug data.
    DebugData(object::read::Error),
    /// Something failed while parsing debug data.
    Parse(gimli::Error),
    /// Non-UTF8 data was found in the debug data.
    NonUtf8(core::str::Utf8Error),
    /// A char could not be created from the given value.
    CharConversion(core::char::CharTryFromError),
    /// An int could not be created from the given value.
    IntConversion(core::num::TryFromIntError),
    /// No legal halt location exists for the requested program counter.
    /// This ends the current step request only, not the debug session.
    NoValidHaltLocation {
        /// A message that can be shown to the user.
        message: String,
        /// The program counter for which a halt was requested.
        pc_at_error: u64,
    },
    /// The stack could only be unwound partially; the frames found so far
    /// are still returned beside this error.
    UnwindIncompleteResults {
        /// Why the results are incomplete.
        message: String,
    },
    /// Some other error occurred.
    Other(anyhow::Error),
}

/// Relies on `anyhow::Error::msg`: wraps a message into an `anyhow::Error`.
#[verifier::external_body]
pub(crate) fn other_error(message: String) -> (r: DebugError)
    ensures
        r is Other,
{
    DebugError::Other(anyhow::Error::msg(message))
}

} // verus!
