//! The image that the blocks of a container decode to.
//!
//! The blocks are stored one after another in the block data. How many bytes
//! a block takes there is read off the offset table, so where each block
//! begins depends on the table alone; what the bytes stand for depends on the
//! block alone. The image is what the blocks stand for, in their order.

use crate::error::outcome_view;
use crate::error::CisoError;
use crate::error::FormatError;
use crate::header::Layout;
use crate::inflate::block_image;
use crate::inflate::expand_block;
use crate::offsets::block_extent;
use crate::offsets::stored_len;
use crate::offsets::BlockKind;
use crate::offsets::OffsetEntry;
use vstd::prelude::*;

verus! {

/// Where the stored bytes of block `block` begin in the block data: the
/// blocks lie one after another from its start, so this is the sum of the
/// stored lengths of the blocks before it. It depends on the table alone. A
/// block whose stored length cannot be computed counts for nothing.
pub open spec fn stored_start(table: Seq<OffsetEntry>, layout: Layout, block: nat) -> int
    decreases block,
{
    if block == 0 {
        0
    } else {
        stored_start(table, layout, (block - 1) as nat) + match stored_len(
            table,
            block - 1,
            layout,
        ) {
            Ok(len) => len as int,
            Err(_) => 0,
        }
    }
}

/// What block `block` alone decodes to: the error of its stored length,
/// [`CisoError::Io`] where the block data ends before its stored bytes do, or
/// the image of its stored bytes.
pub open spec fn block_outcome(
    data: Seq<u8>,
    table: Seq<OffsetEntry>,
    layout: Layout,
    block: nat,
) -> Result<Seq<u8>, CisoError> {
    match stored_len(table, block as int, layout) {
        Err(e) => Err(e),
        Ok(len) => {
            let start = stored_start(table, layout, block);
            if data.len() < start + len {
                Err(CisoError::Io)
            } else {
                block_image(
                    table[block as int].kind,
                    data.subrange(start, start + len),
                    layout.block_size,
                )
            }
        },
    }
}

/// What the first `count` blocks decode to: their bytes one after another in
/// the order of the blocks, or the error of the first block that fails.
pub open spec fn image(data: Seq<u8>, table: Seq<OffsetEntry>, layout: Layout, count: nat) -> Result<
    Seq<u8>,
    CisoError,
>
    decreases count,
{
    if count == 0 {
        Ok(Seq::empty())
    } else {
        match image(data, table, layout, (count - 1) as nat) {
            Err(e) => Err(e),
            Ok(head) => match block_outcome(data, table, layout, (count - 1) as nat) {
                Err(e) => Err(e),
                Ok(bytes) => Ok(head + bytes),
            },
        }
    }
}

/// A failure among the first blocks is the failure of every longer run of
/// blocks.
pub proof fn lemma_failure_stays(
    data: Seq<u8>,
    table: Seq<OffsetEntry>,
    layout: Layout,
    failed: nat,
    count: nat,
)
    requires
        failed <= count,
        image(data, table, layout, failed) is Err,
    ensures
        image(data, table, layout, count) == image(data, table, layout, failed),
    decreases count,
{
    if failed < count {
        lemma_failure_stays(data, table, layout, failed, (count - 1) as nat);
    }
}

/// The block that fails first decides: where the blocks before `block`
/// decode and `block` itself does not, every run of blocks that reaches it
/// fails with its error.
pub proof fn lemma_first_failure(
    data: Seq<u8>,
    table: Seq<OffsetEntry>,
    layout: Layout,
    block: nat,
    count: nat,
)
    requires
        block < count,
        image(data, table, layout, block) is Ok,
        block_outcome(data, table, layout, block) is Err,
    ensures
        image(data, table, layout, count) == Err::<Seq<u8>, CisoError>(
            block_outcome(data, table, layout, block)->Err_0,
        ),
{
    lemma_failure_stays(data, table, layout, block + 1, count);
}

/// No block begins before the start of the block data.
pub proof fn lemma_stored_start_nonnegative(table: Seq<OffsetEntry>, layout: Layout, block: nat)
    ensures
        0 <= stored_start(table, layout, block),
    decreases block,
{
    if block > 0 {
        lemma_stored_start_nonnegative(table, layout, (block - 1) as nat);
    }
}

/// A compressed block whose next offset lies before its own is never given a
/// stored length: decoding fails, and with
/// [`FormatError::OffsetsOutOfOrder`] where the blocks before it decode.
pub proof fn lemma_inverted_offsets_rejected(
    data: Seq<u8>,
    table: Seq<OffsetEntry>,
    layout: Layout,
    block: nat,
    count: nat,
)
    requires
        block < count,
        table[block as int].kind == BlockKind::Compressed,
        table[block as int + 1].offset < table[block as int].offset,
    ensures
        image(data, table, layout, count) is Err,
        image(data, table, layout, block) is Ok ==> image(data, table, layout, count) == Err::<
            Seq<u8>,
            CisoError,
        >(
            CisoError::Format(
                FormatError::OffsetsOutOfOrder {
                    block: block as u64,
                    total: layout.total_blocks,
                    index: table[block as int].offset,
                    next: table[block as int + 1].offset,
                },
            ),
        ),
{
    if image(data, table, layout, block) is Ok {
        lemma_first_failure(data, table, layout, block, count);
    } else {
        lemma_failure_stays(data, table, layout, block, count);
    }
}

/// A block whose stored bytes the block data does not hold in full is not
/// read short: decoding fails, and with [`CisoError::Io`] where the blocks
/// before it decode.
pub proof fn lemma_truncated_block_rejected(
    data: Seq<u8>,
    table: Seq<OffsetEntry>,
    layout: Layout,
    block: nat,
    count: nat,
)
    requires
        block < count,
        stored_len(table, block as int, layout) matches Ok(len) && data.len() < stored_start(
            table,
            layout,
            block,
        ) + len,
    ensures
        image(data, table, layout, count) is Err,
        image(data, table, layout, block) is Ok ==> image(data, table, layout, count) == Err::<
            Seq<u8>,
            CisoError,
        >(CisoError::Io),
{
    if image(data, table, layout, block) is Ok {
        lemma_first_failure(data, table, layout, block, count);
    } else {
        lemma_failure_stays(data, table, layout, block, count);
    }
}

/// Block data shorter than the stored lengths of the blocks add up to never
/// decodes.
pub proof fn lemma_short_data_rejected(
    data: Seq<u8>,
    table: Seq<OffsetEntry>,
    layout: Layout,
    count: nat,
)
    requires
        data.len() < stored_start(table, layout, count),
    ensures
        image(data, table, layout, count) is Err,
    decreases count,
{
    if count > 0 {
        let before = (count - 1) as nat;
        if data.len() < stored_start(table, layout, before) {
            lemma_short_data_rejected(data, table, layout, before);
        }
    }
}

/// In an image all of whose compressed blocks inflate to one block of bytes
/// each, every block has its place: the image is as long as the number of
/// blocks times the block size, and block `i` is the bytes from `i` times the
/// block size on.
pub proof fn lemma_whole_blocks(
    data: Seq<u8>,
    table: Seq<OffsetEntry>,
    layout: Layout,
    count: nat,
)
    requires
        image(data, table, layout, count) is Ok,
        forall|i: nat|
            i < count && table[i as int].kind == BlockKind::Compressed ==> (#[trigger] block_outcome(
                data,
                table,
                layout,
                i,
            ) matches Ok(bytes) ==> bytes.len() == layout.block_size),
    ensures
        image(data, table, layout, count)->Ok_0.len() == count * layout.block_size,
        forall|i: nat|
            i < count ==> #[trigger] block_outcome(data, table, layout, i) == Ok::<
                Seq<u8>,
                CisoError,
            >(
                image(data, table, layout, count)->Ok_0.subrange(
                    i * layout.block_size,
                    (i + 1) * layout.block_size,
                ),
            ),
    decreases count,
{
    if count > 0 {
        let size = layout.block_size as int;
        let before = (count - 1) as nat;
        let head = image(data, table, layout, before)->Ok_0;
        let bytes = block_outcome(data, table, layout, before)->Ok_0;
        let out = image(data, table, layout, count)->Ok_0;
        lemma_whole_blocks(data, table, layout, before);
        lemma_stored_start_nonnegative(table, layout, before);
        assert(count * size == before * size + size) by (nonlinear_arith)
            requires
                count == before + 1,
        ;
        assert forall|i: nat| i < count implies #[trigger] block_outcome(data, table, layout, i)
            == Ok::<Seq<u8>, CisoError>(out.subrange(i * size, (i + 1) * size)) by {
            assert(0 <= i * size && (i + 1) * size == i * size + size && (i + 1) * size <= count
                * size) by (nonlinear_arith)
                requires
                    0 <= i < count,
                    0 <= size,
            ;
            if i < before {
                assert((i + 1) * size <= before * size) by (nonlinear_arith)
                    requires
                        0 <= i < before,
                        0 <= size,
                ;
                assert(out.subrange(i * size, (i + 1) * size) =~= head.subrange(
                    i * size,
                    (i + 1) * size,
                ));
            } else {
                assert(out.subrange(i * size, (i + 1) * size) =~= bytes);
            }
        }
    }
}

/// In a table whose first `count` blocks are verbatim, block `count` begins
/// `count` blocks into the block data.
pub proof fn lemma_verbatim_start(table: Seq<OffsetEntry>, layout: Layout, count: nat)
    requires
        count <= table.len(),
        forall|i: int| 0 <= i < count ==> (#[trigger] table[i]).kind == BlockKind::Verbatim,
    ensures
        stored_start(table, layout, count) == count * layout.block_size,
    decreases count,
{
    if count > 0 {
        let before = (count - 1) as nat;
        lemma_verbatim_start(table, layout, before);
        assert(table[before as int].kind == BlockKind::Verbatim);
        assert(count * layout.block_size == before * layout.block_size + layout.block_size)
            by (nonlinear_arith)
            requires
                count == before + 1,
        ;
    } else {
        assert(count * layout.block_size == 0) by (nonlinear_arith)
            requires
                count == 0,
        ;
    }
}

/// Verbatim blocks come back unchanged: where the first `count` blocks are
/// verbatim and the block data holds them in full, they decode to the block
/// data itself, as far as they reach, and the inflater has no part in it.
pub proof fn lemma_verbatim_image(
    data: Seq<u8>,
    table: Seq<OffsetEntry>,
    layout: Layout,
    count: nat,
)
    requires
        count <= table.len(),
        forall|i: int| 0 <= i < count ==> (#[trigger] table[i]).kind == BlockKind::Verbatim,
        count * layout.block_size <= data.len(),
    ensures
        image(data, table, layout, count) == Ok::<Seq<u8>, CisoError>(
            data.take(count * layout.block_size),
        ),
    decreases count,
{
    if count == 0 {
        assert(count * layout.block_size == 0) by (nonlinear_arith)
            requires
                count == 0,
        ;
        assert(data.take(0) =~= Seq::<u8>::empty());
    } else {
        let size = layout.block_size as int;
        let before = (count - 1) as nat;
        assert(count * size == before * size + size && 0 <= before * size) by (nonlinear_arith)
            requires
                count == before + 1,
                0 <= size,
        ;
        lemma_verbatim_image(data, table, layout, before);
        lemma_verbatim_start(table, layout, before);
        assert(table[before as int].kind == BlockKind::Verbatim);
        assert(data.take(before * size) + data.subrange(before * size, before * size + size)
            =~= data.take(count * size));
    }
}

/// Decodes the blocks of an image from `data`, the bytes that follow the
/// offset table.
///
/// The blocks are read one after another from the start of `data`, each as
/// many bytes as the table gives it, and their bytes are appended in the order
/// of the blocks. The first block that fails ends the decoding with its error.
pub fn decode_blocks(data: &[u8], table: &[OffsetEntry], layout: &Layout) -> (r: Result<
    Vec<u8>,
    CisoError,
>)
    requires
        table@.len() == layout.total_blocks + 1,
    ensures
        outcome_view(r) == image(data@, table@, *layout, layout.total_blocks as nat),
        r matches Ok(out) ==> out@.len() <= layout.total_blocks * layout.block_size,
{
    let count: usize = table.len() - 1;
    let mut out: Vec<u8> = Vec::new();
    let mut start: usize = 0;
    let mut block: usize = 0;
    while block < count
        invariant
            block <= count,
            count == layout.total_blocks,
            table@.len() == count + 1,
            start == stored_start(table@, *layout, block as nat),
            start <= data@.len(),
            image(data@, table@, *layout, block as nat) == Ok::<Seq<u8>, CisoError>(out@),
            out@.len() <= block * layout.block_size,
        decreases count - block,
    {
        let ghost next = (block + 1) as nat;
        let len: usize = match block_extent(table, block, layout) {
            Ok(len) => len as usize,
            Err(e) => {
                proof {
                    assert(image(data@, table@, *layout, next) == Err::<Seq<u8>, CisoError>(e));
                    lemma_failure_stays(data@, table@, *layout, next, count as nat);
                }
                return Err(e);
            },
        };
        if data.len() - start < len {
            proof {
                assert(image(data@, table@, *layout, next) == Err::<Seq<u8>, CisoError>(
                    CisoError::Io,
                ));
                lemma_failure_stays(data@, table@, *layout, next, count as nat);
            }
            return Err(CisoError::Io);
        }
        let kind = table[block].kind;
        match expand_block(kind, &data[start..start + len], layout.block_size) {
            Err(e) => {
                proof {
                    assert(image(data@, table@, *layout, next) == Err::<Seq<u8>, CisoError>(e));
                    lemma_failure_stays(data@, table@, *layout, next, count as nat);
                }
                return Err(e);
            },
            Ok(mut bytes) => {
                assert((block + 1) * layout.block_size == block * layout.block_size
                    + layout.block_size) by (nonlinear_arith);
                out.append(&mut bytes);
            },
        }
        start += len;
        block += 1;
    }
    Ok(out)
}

} // verus!
