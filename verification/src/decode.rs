//! Decoding a whole container.

use crate::error::outcome_view;
use crate::error::CisoError;
use crate::error::FormatError;
use crate::header::ciso_magic;
use crate::header::header_of;
use crate::header::lemma_magic_is_text;
use crate::header::read_header;
use crate::header::Layout;
use crate::header::HEADER_SIZE;
use crate::image::block_outcome;
use crate::image::decode_blocks;
use crate::image::image;
use crate::image::lemma_verbatim_image;
use crate::image::lemma_whole_blocks;
use crate::offsets::read_offset_table;
use crate::offsets::table_bytes;
use crate::offsets::table_of;
use crate::offsets::BlockKind;
use crate::offsets::OffsetEntry;
use vstd::arithmetic::div_mod::lemma_fundamental_div_mod;
use vstd::arithmetic::mul::lemma_mul_is_commutative;
use vstd::prelude::*;
use vstd::utf8::valid_utf8;

verus! {

/// The offset table of the container `input`, whose header gave `layout`.
pub open spec fn offset_table(input: Seq<u8>, layout: Layout) -> Seq<OffsetEntry> {
    table_of(input.skip(HEADER_SIZE as int), layout.total_blocks)
}

/// The block data of the container `input`, whose header gave `layout`: the
/// bytes that follow the offset table.
pub open spec fn block_data(input: Seq<u8>, layout: Layout) -> Seq<u8> {
    input.skip(HEADER_SIZE + table_bytes(layout.total_blocks))
}

/// What a container decodes to. The steps are taken in this order and the
/// first that fails decides: the header is read, then checked, then the offset
/// table is read, then the blocks are decoded in ascending order.
pub open spec fn decoded(input: Seq<u8>) -> Result<Seq<u8>, CisoError> {
    if input.len() < HEADER_SIZE {
        Err(CisoError::Io)
    } else {
        match header_of(input).validated() {
            Err(e) => Err(e),
            Ok(layout) => if input.len() < HEADER_SIZE + table_bytes(layout.total_blocks) {
                Err(CisoError::Io)
            } else {
                image(
                    block_data(input, layout),
                    offset_table(input, layout),
                    layout,
                    layout.total_blocks as nat,
                )
            },
        }
    }
}

/// An input that ends within the header is an input that ends too soon.
pub proof fn lemma_truncated_header_rejected(input: Seq<u8>)
    requires
        input.len() < HEADER_SIZE,
    ensures
        decoded(input) == Err::<Seq<u8>, CisoError>(CisoError::Io),
{
}

/// A magic that is text but not `CISO` makes an invalid header, whatever
/// follows the header: the offset table is not looked at, and need not be
/// there.
pub proof fn lemma_foreign_magic_rejected(input: Seq<u8>)
    requires
        input.len() >= HEADER_SIZE,
        valid_utf8(header_of(input).magic@),
        header_of(input).magic@ != ciso_magic(),
    ensures
        decoded(input) == Err::<Seq<u8>, CisoError>(
            CisoError::Format(FormatError::InvalidHeader),
        ),
{
}

/// A block size of zero makes an invalid header, and so does an image size of
/// zero, where the magic is text.
pub proof fn lemma_zero_size_rejected(input: Seq<u8>)
    requires
        input.len() >= HEADER_SIZE,
        valid_utf8(header_of(input).magic@),
        header_of(input).block_size == 0 || header_of(input).total_bytes == 0,
    ensures
        decoded(input) == Err::<Seq<u8>, CisoError>(
            CisoError::Format(FormatError::InvalidHeader),
        ),
{
}

/// An alignment other than zero is refused in a header that is valid in
/// everything else.
pub proof fn lemma_alignment_rejected(input: Seq<u8>)
    requires
        input.len() >= HEADER_SIZE,
        header_of(input).magic@ == ciso_magic(),
        header_of(input).block_size != 0,
        header_of(input).total_bytes != 0,
        header_of(input).align != 0,
    ensures
        decoded(input) == Err::<Seq<u8>, CisoError>(
            CisoError::Format(FormatError::AlignmentNotSupported),
        ),
{
    lemma_magic_is_text();
}

/// An input that ends within the offset table is an input that ends too soon.
pub proof fn lemma_truncated_table_rejected(input: Seq<u8>)
    requires
        input.len() >= HEADER_SIZE,
        header_of(input).validated() matches Ok(layout) && input.len() < HEADER_SIZE + table_bytes(
            layout.total_blocks,
        ),
    ensures
        decoded(input) == Err::<Seq<u8>, CisoError>(CisoError::Io),
{
}

/// The size of the image of a container all of whose compressed blocks
/// inflate to one block of bytes each: the image size that the header gives,
/// less what is left over when it is divided by the block size. Block `i` of
/// the image is the bytes from `i` times the block size on.
pub proof fn lemma_image_size(input: Seq<u8>)
    requires
        decoded(input) is Ok,
        ({
            let layout = header_of(input).validated()->Ok_0;
            let table = offset_table(input, layout);
            forall|i: nat|
                i < layout.total_blocks && table[i as int].kind == BlockKind::Compressed ==> (
                #[trigger] block_outcome(block_data(input, layout), table, layout, i) matches Ok(
                    bytes,
                ) ==> bytes.len() == layout.block_size)
        }),
    ensures
        ({
            let header = header_of(input);
            let layout = header.validated()->Ok_0;
            let out = decoded(input)->Ok_0;
            &&& out.len() == layout.total_blocks * layout.block_size
            &&& out.len() == header.total_bytes - header.total_bytes % (header.block_size as u64)
            &&& forall|i: nat|
                i < layout.total_blocks ==> #[trigger] block_outcome(
                    block_data(input, layout),
                    offset_table(input, layout),
                    layout,
                    i,
                ) == Ok::<Seq<u8>, CisoError>(
                    out.subrange(i * layout.block_size, (i + 1) * layout.block_size),
                )
        }),
{
    let header = header_of(input);
    let layout = header.validated()->Ok_0;
    lemma_whole_blocks(
        block_data(input, layout),
        offset_table(input, layout),
        layout,
        layout.total_blocks as nat,
    );
    lemma_fundamental_div_mod(header.total_bytes as int, header.block_size as int);
    lemma_mul_is_commutative(header.block_size as int, layout.total_blocks as int);
}

/// A container of verbatim blocks gives back the bytes it was made of: where
/// every block is verbatim and the input holds all of them, the image is the
/// block data itself, as far as the blocks reach.
pub proof fn lemma_verbatim_container(input: Seq<u8>)
    requires
        input.len() >= HEADER_SIZE,
        header_of(input).validated() matches Ok(layout) && ({
            &&& input.len() >= HEADER_SIZE + table_bytes(layout.total_blocks) + layout.total_blocks
                * layout.block_size
            &&& forall|i: int|
                0 <= i < layout.total_blocks ==> (#[trigger] offset_table(
                    input,
                    layout,
                )[i]).kind == BlockKind::Verbatim
        }),
    ensures
        ({
            let layout = header_of(input).validated()->Ok_0;
            decoded(input) == Ok::<Seq<u8>, CisoError>(
                block_data(input, layout).take(layout.total_blocks * layout.block_size),
            )
        }),
{
    let layout = header_of(input).validated()->Ok_0;
    lemma_verbatim_image(
        block_data(input, layout),
        offset_table(input, layout),
        layout,
        layout.total_blocks as nat,
    );
}

/// Decodes a container held in memory and returns the image.
///
/// The header is read and checked, the offset table is read, and the blocks
/// are decoded in ascending order; the first step that fails decides the
/// error, and nothing of the image is returned then. The image is never
/// longer than the number of blocks times the block size.
pub fn decompress_ciso(input: &[u8]) -> (r: Result<Vec<u8>, CisoError>)
    ensures
        outcome_view(r) == decoded(input@),
        r matches Ok(out) ==> (header_of(input@).validated() matches Ok(layout) && out@.len()
            <= layout.total_blocks * layout.block_size),
{
    let header = match read_header(input) {
        Ok(header) => header,
        Err(e) => {
            return Err(e);
        },
    };
    let layout = match header.validate() {
        Ok(layout) => layout,
        Err(e) => {
            return Err(e);
        },
    };
    let rest = &input[HEADER_SIZE..input.len()];
    let table = match read_offset_table(rest, layout.total_blocks) {
        Ok(table) => table,
        Err(e) => {
            return Err(e);
        },
    };
    let data = &rest[4 * table.len()..rest.len()];
    assert(data@ =~= block_data(input@, layout));
    decode_blocks(data, table.as_slice(), &layout)
}

} // verus!
