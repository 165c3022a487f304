//! The error taxonomy of the size-report pipeline.
use vstd::prelude::*;

verus! {

/// Reasons for pipeline failure.
///
/// Failures while reading the optional memory-layout description are not part
/// of this taxonomy: they degrade to an absent capacity instead.
#[derive(Clone, Copy, Debug, PartialEq, Eq, Structural)]
pub enum Error {
    /// The program was not executed inside a cargo project.
    NotACrate,
    /// The project manifest is present but could not be interpreted.
    InvalidManifest,
    /// The build of the inspected binary did not succeed.
    BuildError,
    /// The binary was not found in any of the candidate output layouts.
    BinaryNotFound,
    /// The binary image could not be parsed as a valid section-table format.
    InvalidBinary,
    /// An underlying filesystem operation failed.
    IoError,
}

/// The descriptive message owed for each error kind.
pub open spec fn spec_message(e: Error) -> Seq<char> {
    match e {
        Error::NotACrate => "Not a cargo project, aborting."@,
        Error::InvalidManifest => "Cargo.toml is invalid, aborting."@,
        Error::BuildError => "Build did not succeed, aborting."@,
        Error::BinaryNotFound => "The binary could not be found"@,
        Error::InvalidBinary => "The binary has an invalid format"@,
        Error::IoError => "I/O error"@,
    }
}

impl Error {
    /// A single descriptive message per error kind, for the presentation layer.
    pub fn message(&self) -> (r: &'static str)
        ensures
            r@ == spec_message(*self),
    {
        match self {
            Error::NotACrate => "Not a cargo project, aborting.",
            Error::InvalidManifest => "Cargo.toml is invalid, aborting.",
            Error::BuildError => "Build did not succeed, aborting.",
            Error::BinaryNotFound => "The binary could not be found",
            Error::InvalidBinary => "The binary has an invalid format",
            Error::IoError => "I/O error",
        }
    }
}

/// The error type of the `elf` crate, opaque to this library: a value of it
/// only reports that the image could not be parsed.
#[verifier::external_type_specification]
#[verifier::external_body]
pub struct ExParseError(elf::ParseError);

impl From<elf::ParseError> for Error {
    /// Any parse failure of the binary image maps to `InvalidBinary`.
    fn from(_e: elf::ParseError) -> (r: Error) {
        Error::InvalidBinary
    }
}

impl vstd::std_specs::convert::FromSpecImpl<elf::ParseError> for Error {
    open spec fn obeys_from_spec() -> bool {
        true
    }

    open spec fn from_spec(_e: elf::ParseError) -> Error {
        Error::InvalidBinary
    }
}

} // verus!
