//! The fixed header at the start of a container.

use crate::error::CisoError;
use crate::error::FormatError;
use crate::little_endian::le_u32;
use crate::little_endian::le_u64;
use crate::little_endian::read_u32;
use crate::little_endian::read_u64;
use vstd::prelude::*;
use vstd::string::StringSliceAdditionalSpecFns;
use vstd::utf8::valid_utf8;

verus! {

/// Number of bytes that the header takes.
pub const HEADER_SIZE: usize = 24;

/// The header record, field by field as the container stores it.
#[derive(Clone, Copy, Debug, PartialEq, Eq)]
pub struct Header {
    /// Tag of the format: the ASCII bytes `CISO` in a container that can be read.
    pub magic: [u8; 4],
    /// Length that the header declares for itself; recorded only.
    pub header_size: u32,
    /// Size in bytes of the image once decoded.
    pub total_bytes: u64,
    /// Size in bytes of one decoded block.
    pub block_size: u32,
    /// Version tag of the format; recorded only.
    pub version: u8,
    /// Exponent of the padding between stored blocks; only 0 can be read.
    pub align: u8,
    /// Padding.
    pub reserved: [u8; 2],
}

/// What the block decoder needs of a header that passed validation.
#[derive(Clone, Copy, Debug, PartialEq, Eq, Structural)]
pub struct Layout {
    /// Size in bytes of one decoded block; never zero.
    pub block_size: u32,
    /// Number of whole blocks in the image.
    pub total_blocks: u64,
}

/// The ASCII bytes `CISO`.
pub open spec fn ciso_magic() -> Seq<u8> {
    seq![0x43u8, 0x49u8, 0x53u8, 0x4fu8]
}

/// An outside type of std, the error of `core::str::from_utf8`; nothing is
/// known of its contents.
#[verifier::external_type_specification]
#[verifier::external_body]
pub struct ExUtf8Error(core::str::Utf8Error);

/// Specifies `core::str::from_utf8` of std, which converts bytes to text after
/// checking them. The contract is not proved: it restates the documentation,
/// by which the call succeeds on the byte strings that are valid UTF-8 and on
/// no others, and the text it returns has the bytes it was given.
pub assume_specification[ core::str::from_utf8 ](v: &[u8]) -> (r: Result<
    &str,
    core::str::Utf8Error,
>)
    ensures
        r is Ok <==> valid_utf8(v@),
        r matches Ok(text) ==> text.spec_bytes() == v@,
;

/// The header that the first 24 bytes of `b` hold.
pub open spec fn header_of(b: Seq<u8>) -> Header
    recommends
        b.len() >= HEADER_SIZE,
{
    Header {
        magic: [b[0], b[1], b[2], b[3]],
        header_size: le_u32(b.subrange(4, 8)),
        total_bytes: le_u64(b.subrange(8, 16)),
        block_size: le_u32(b.subrange(16, 20)),
        version: b[20],
        align: b[21],
        reserved: [b[22], b[23]],
    }
}

/// Reads the header from the start of `input`.
///
/// Fails with [`CisoError::Io`] exactly when `input` is shorter than a header.
/// Nothing is checked of the fields: see [`Header::validate`].
pub fn read_header(input: &[u8]) -> (r: Result<Header, CisoError>)
    ensures
        input@.len() < HEADER_SIZE ==> r == Err::<Header, CisoError>(CisoError::Io),
        input@.len() >= HEADER_SIZE ==> r == Ok::<Header, CisoError>(header_of(input@)),
{
    if input.len() < HEADER_SIZE {
        return Err(CisoError::Io);
    }
    Ok(
        Header {
            magic: [input[0], input[1], input[2], input[3]],
            header_size: read_u32(&input[4..8]),
            total_bytes: read_u64(&input[8..16]),
            block_size: read_u32(&input[16..20]),
            version: input[20],
            align: input[21],
            reserved: [input[22], input[23]],
        },
    )
}

/// The magic of a container is text: the four bytes are ASCII, so they pass
/// the first of the header's checks.
pub proof fn lemma_magic_is_text()
    ensures
        valid_utf8(ciso_magic()),
{
    reveal_with_fuel(valid_utf8, 5);
}

impl Header {
    /// The outcome of [`Header::validate`]: the first rule that the header
    /// breaks, or the layout that it describes.
    pub open spec fn validated(self) -> Result<Layout, CisoError> {
        if !valid_utf8(self.magic@) {
            Err(CisoError::Encoding)
        } else if self.magic@ != ciso_magic() || self.block_size == 0 || self.total_bytes == 0 {
            Err(CisoError::Format(FormatError::InvalidHeader))
        } else if self.align != 0 {
            Err(CisoError::Format(FormatError::AlignmentNotSupported))
        } else {
            Ok(
                Layout {
                    block_size: self.block_size,
                    total_blocks: self.total_bytes / (self.block_size as u64),
                },
            )
        }
    }

    /// Checks the header and derives the layout of the image.
    ///
    /// The rules are tried in this order, and the first one broken decides:
    /// the magic is valid UTF-8, else [`CisoError::Encoding`]; the magic is
    /// `CISO` and neither size is zero, else [`FormatError::InvalidHeader`];
    /// the alignment is zero, else [`FormatError::AlignmentNotSupported`].
    /// The number of blocks is the image size divided by the block size, a
    /// remainder being dropped.
    pub fn validate(&self) -> (r: Result<Layout, CisoError>)
        ensures
            r == self.validated(),
    {
        match core::str::from_utf8(self.magic.as_slice()) {
            Err(_) => {
                return Err(CisoError::Encoding);
            },
            Ok(_) => {},
        }
        let tagged = self.magic[0] == 0x43 && self.magic[1] == 0x49 && self.magic[2] == 0x53
            && self.magic[3] == 0x4f;
        assert(tagged <==> self.magic@ =~= ciso_magic());
        if !tagged || self.block_size == 0 || self.total_bytes == 0 {
            return Err(CisoError::Format(FormatError::InvalidHeader));
        }
        if self.align != 0 {
            return Err(CisoError::Format(FormatError::AlignmentNotSupported));
        }
        Ok(
            Layout {
                block_size: self.block_size,
                total_blocks: self.total_bytes / (self.block_size as u64),
            },
        )
    }
}

} // verus!
