//! The failure taxonomy shared by both pipelines.

use vstd::prelude::*;

verus! {

/// Why a pipeline step cannot proceed or has failed.
#[derive(Debug, PartialEq, Eq)]
pub enum Error {
    /// An input is not of the expected shape: a file without the
    /// `.apk` extension, a path without a file name, no dex files to
    /// disassemble, or a project configuration that is missing or
    /// does not parse.
    InvalidInput,
    /// The unpack destination already exists and overwriting was not
    /// requested.
    AlreadyExists,
    /// An external tool exited with a non-zero status; carries the
    /// status and the tool's captured output.
    ToolFailure { exit_code: i32, output: Vec<u8> },
    /// A disassembly unit has no matching dex file in the unpacked
    /// tree: the unit-to-dex mapping is stale.
    MappingMismatch { dex_name: Vec<u8> },
    /// No project root was found on the ancestor search.
    NotFound,
}

} // verus!
