//! The errors of parsing a mount table.
use vstd::prelude::*;
use crate::number::NumberError;

verus! {

/// An error of reading the mount table's text.
#[verifier::external_type_specification]
#[verifier::external_body]
pub struct ExIoError(std::io::Error);

/// Why a snapshot of the mount table could not be made.
#[derive(Debug)]
pub enum MountInfoError {
    /// The mount table could not be read.
    Io(std::io::Error),
    /// A line of the mount table is malformed; lines count from 1.
    ParseError { line: usize, source: ParseLineError },
    /// Neither mount table exists.
    NoMountInfoFile,
}

/// Why one line of the mount table is malformed.
#[derive(Clone, Copy, Debug, PartialEq, Eq, Structural)]
pub enum ParseLineError {
    /// The line does not have the fields of its format.
    InvalidFormat,
    /// The mount id is not a decimal `u32`.
    InvalidMountId(NumberError),
    /// The parent id is not a decimal `u32`.
    InvalidParentId(NumberError),
    /// A field that the format requires was not found.
    MissingCaptureGroups,
}

} // verus!
