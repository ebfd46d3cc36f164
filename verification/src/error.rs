//! The ways in which decoding a container fails.

use vstd::prelude::*;

verus! {

/// A structural violation of the container format.
#[derive(Clone, Copy, Debug, PartialEq, Eq, Structural)]
pub enum FormatError {
    /// The magic is not `CISO`, or the block size or the image size is zero.
    InvalidHeader,
    /// The header asks for padded block storage, which this decoder does not read.
    AlignmentNotSupported,
    /// The offset that follows a compressed block's own lies before it.
    OffsetsOutOfOrder {
        /// Index of the block whose stored length cannot be computed.
        block: u64,
        /// Number of blocks in the image.
        total: u64,
        /// Offset of the block.
        index: u32,
        /// Offset of the entry after it.
        next: u32,
    },
}

/// Why a container could not be decoded.
#[derive(Clone, Copy, Debug, PartialEq, Eq, Structural)]
pub enum CisoError {
    /// The input ends before the bytes that the container declares.
    Io,
    /// The container breaks the format.
    Format(FormatError),
    /// A compressed block does not inflate to at most one block of data.
    Decompress,
    /// The magic is not valid UTF-8 text.
    Encoding,
}

/// The outcome of a step that yields bytes, with the bytes as a sequence.
pub open spec fn outcome_view(r: Result<Vec<u8>, CisoError>) -> Result<Seq<u8>, CisoError> {
    match r {
        Ok(data) => Ok(data@),
        Err(e) => Err(e),
    }
}

impl FormatError {
    /// The text that names this violation.
    pub fn message(&self) -> (text: &'static str)
        ensures
            text@ == self.message_text(),
    {
        match self {
            FormatError::InvalidHeader => "invalid header",
            FormatError::AlignmentNotSupported => "alignment not supported",
            FormatError::OffsetsOutOfOrder { .. } => "offsets out of order",
        }
    }

    /// The characters of [`FormatError::message`].
    pub open spec fn message_text(&self) -> Seq<char> {
        match self {
            FormatError::InvalidHeader => "invalid header"@,
            FormatError::AlignmentNotSupported => "alignment not supported"@,
            FormatError::OffsetsOutOfOrder { .. } => "offsets out of order"@,
        }
    }
}

} // verus!
