//! The refusals of a binary file: which request was refused, the kind of
//! failure it is reported as, and the message that names it.
use vstd::prelude::*;
use vstd::string::*;

use crate::binary_file::VecKind;
use crate::decimal::{decimal, push_decimal};

verus! {

/// How a refused request is reported: as a bad argument, or as data that the
/// file does not hold.
#[derive(Clone, Copy, Debug, PartialEq, Eq, Structural)]
pub enum ErrorKind {
    InvalidInput,
    UnexpectedEof,
}

/// A request that a binary file refuses, with the values that it was refused on.
#[derive(Clone, Debug)]
#[allow(inconsistent_fields)]
pub enum BinaryFileError {
    /// The byte order text names neither order.
    InvalidByteOrder { given: String },
    /// An absolute seek to a negative offset.
    NegativeOffset { offset: i64 },
    /// An absolute seek past the end of the file.
    OffsetBeyondEnd { offset: u64, len: u64 },
    /// A relative seek whose target lies before the start or past the end.
    TargetOutsideFile { target: i128, len: u64 },
    /// A bulk read whose element count is negative (or does not fit a `usize`).
    NegativeCount { what: VecKind, count: i64 },
    /// A bulk read whose size in bytes does not fit a `usize`.
    CountTooLarge { what: VecKind, count: usize },
    /// A bulk read of more bytes than remain in the file.
    NotEnoughData { what: VecKind, requested: usize, remaining: u64 },
}

impl BinaryFileError {
    /// The kind that this refusal is reported as.
    pub open spec fn spec_kind(self) -> ErrorKind {
        match self {
            BinaryFileError::NotEnoughData { .. } => ErrorKind::UnexpectedEof,
            _ => ErrorKind::InvalidInput,
        }
    }

    /// The text of the message that reports this refusal.
    pub open spec fn text(self) -> Seq<char> {
        match self {
            BinaryFileError::InvalidByteOrder { given } => "byte order must be fs::LE (\"le\") or fs::BE (\"be\"), got \""@
                + given@ + "\""@,
            BinaryFileError::NegativeOffset { offset } => "seek: offset must be non-negative, got "@
                + decimal(offset as int),
            BinaryFileError::OffsetBeyondEnd { offset, len } => "seek: offset "@ + decimal(
                offset as int,
            ) + " is beyond the file length "@ + decimal(len as int),
            BinaryFileError::TargetOutsideFile { target, len } => "seek_relative: target position "@
                + decimal(target as int) + " is outside the file (length "@ + decimal(len as int)
                + ")"@,
            BinaryFileError::NegativeCount { what, count } => what.spec_name()
                + ": element count must be non-negative, got "@ + decimal(count as int),
            BinaryFileError::CountTooLarge { what, count } => what.spec_name() + ": element count "@
                + decimal(count as int) + " is too large"@,
            BinaryFileError::NotEnoughData { what, requested, remaining } => what.spec_name()
                + ": requested "@ + decimal(requested as int) + " bytes but only "@ + decimal(
                remaining as int,
            ) + " remain in the file"@,
        }
    }

    /// The kind that this refusal is reported as.
    pub fn kind(&self) -> (k: ErrorKind)
        ensures
            k == self.spec_kind(),
    {
        match self {
            BinaryFileError::NotEnoughData { .. } => ErrorKind::UnexpectedEof,
            _ => ErrorKind::InvalidInput,
        }
    }

    /// The message that reports this refusal.
    pub fn message(&self) -> (m: String)
        ensures
            m@ == self.text(),
    {
        match self {
            BinaryFileError::InvalidByteOrder { given } => {
                let mut m = "byte order must be fs::LE (\"le\") or fs::BE (\"be\"), got \"".to_owned();
                m.append(given.as_str());
                m.append("\"");
                m
            },
            BinaryFileError::NegativeOffset { offset } => {
                let mut m = "seek: offset must be non-negative, got ".to_owned();
                push_decimal(&mut m, *offset as i128);
                m
            },
            BinaryFileError::OffsetBeyondEnd { offset, len } => {
                let mut m = "seek: offset ".to_owned();
                push_decimal(&mut m, *offset as i128);
                m.append(" is beyond the file length ");
                push_decimal(&mut m, *len as i128);
                m
            },
            BinaryFileError::TargetOutsideFile { target, len } => {
                let mut m = "seek_relative: target position ".to_owned();
                push_decimal(&mut m, *target);
                m.append(" is outside the file (length ");
                push_decimal(&mut m, *len as i128);
                m.append(")");
                m
            },
            BinaryFileError::NegativeCount { what, count } => {
                let mut m = what.name().to_owned();
                m.append(": element count must be non-negative, got ");
                push_decimal(&mut m, *count as i128);
                m
            },
            BinaryFileError::CountTooLarge { what, count } => {
                let mut m = what.name().to_owned();
                m.append(": element count ");
                push_decimal(&mut m, *count as i128);
                m.append(" is too large");
                m
            },
            BinaryFileError::NotEnoughData { what, requested, remaining } => {
                let mut m = what.name().to_owned();
                m.append(": requested ");
                push_decimal(&mut m, *requested as i128);
                m.append(" bytes but only ");
                push_decimal(&mut m, *remaining as i128);
                m.append(" remain in the file");
                m
            },
        }
    }
}

} // verus!
