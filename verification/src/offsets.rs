//! The offset table that follows the header.
//!
//! The table holds one 32-bit word per block and one more at its end. Bit 31
//! of a word says that the block is stored verbatim; the low 31 bits are the
//! offset of the block's stored bytes within the block data.

use crate::error::CisoError;
use crate::error::FormatError;
use crate::header::Layout;
use crate::little_endian::le_u32;
use crate::little_endian::read_u32;
use vstd::prelude::*;

verus! {

/// How a block is stored.
#[derive(Clone, Copy, Debug, PartialEq, Eq, Structural)]
pub enum BlockKind {
    /// As its own bytes.
    Verbatim,
    /// As a raw deflate stream.
    Compressed,
}

/// One word of the offset table, taken apart.
#[derive(Clone, Copy, Debug, PartialEq, Eq, Structural)]
pub struct OffsetEntry {
    /// How the block of this entry is stored.
    pub kind: BlockKind,
    /// Where its stored bytes begin within the block data; below 2^31.
    pub offset: u32,
}

impl OffsetEntry {
    /// The entry that the table word `word` packs.
    pub open spec fn of_word(word: u32) -> OffsetEntry {
        OffsetEntry {
            kind: if word & 0x8000_0000 != 0 {
                BlockKind::Verbatim
            } else {
                BlockKind::Compressed
            },
            offset: word & 0x7fff_ffff,
        }
    }

    /// Takes a table word apart.
    pub fn from_word(word: u32) -> (entry: OffsetEntry)
        ensures
            entry == OffsetEntry::of_word(word),
            entry.offset < 0x8000_0000,
    {
        proof {
            OffsetEntry::lemma_word_parts(word);
        }
        OffsetEntry {
            kind: if word & 0x8000_0000 != 0 {
                BlockKind::Verbatim
            } else {
                BlockKind::Compressed
            },
            offset: word & 0x7fff_ffff,
        }
    }

    /// The parts of a word in arithmetic: the flag is set in the words from
    /// 2^31 on, and the offset is what is left of the word below 2^31.
    pub proof fn lemma_word_parts(word: u32)
        ensures
            OffsetEntry::of_word(word).kind == BlockKind::Verbatim <==> word >= 0x8000_0000,
            OffsetEntry::of_word(word).offset == word % 0x8000_0000,
            OffsetEntry::of_word(word).offset < 0x8000_0000,
    {
        assert((word & 0x8000_0000 != 0) <==> word >= 0x8000_0000) by (bit_vector);
        assert(word & 0x7fff_ffff == word % 0x8000_0000) by (bit_vector);
    }
}

/// Number of bytes that the table of an image of `total_blocks` blocks takes.
pub open spec fn table_bytes(total_blocks: u64) -> int {
    4 * (total_blocks + 1)
}

/// The table that the bytes `b` hold for an image of `total_blocks` blocks:
/// entry `i` is the little-endian word at byte `4 * i`.
pub open spec fn table_of(b: Seq<u8>, total_blocks: u64) -> Seq<OffsetEntry>
    recommends
        b.len() >= table_bytes(total_blocks),
{
    Seq::new(
        (total_blocks + 1) as nat,
        |i: int| OffsetEntry::of_word(le_u32(b.subrange(4 * i, 4 * i + 4))),
    )
}

/// Reads the offset table of an image of `total_blocks` blocks from the start
/// of `input`, the bytes that follow the header.
///
/// Fails with [`CisoError::Io`] exactly when `input` is shorter than the table.
pub fn read_offset_table(input: &[u8], total_blocks: u64) -> (r: Result<
    Vec<OffsetEntry>,
    CisoError,
>)
    ensures
        input@.len() < table_bytes(total_blocks) ==> r == Err::<Vec<OffsetEntry>, CisoError>(
            CisoError::Io,
        ),
        input@.len() >= table_bytes(total_blocks) ==> (r matches Ok(table) && table@ == table_of(
            input@,
            total_blocks,
        )),
{
    if (input.len() / 4) as u64 <= total_blocks {
        return Err(CisoError::Io);
    }
    let count: usize = total_blocks as usize + 1;
    let mut table: Vec<OffsetEntry> = Vec::new();
    let mut i: usize = 0;
    while i < count
        invariant
            i <= count,
            count == total_blocks + 1,
            4 * count <= input@.len() <= usize::MAX,
            table@.len() == i,
            forall|j: int|
                0 <= j < i ==> table@[j] == OffsetEntry::of_word(
                    le_u32(input@.subrange(4 * j, 4 * j + 4)),
                ),
        decreases count - i,
    {
        let word: u32 = read_u32(&input[4 * i..4 * i + 4]);
        table.push(OffsetEntry::from_word(word));
        i += 1;
    }
    Ok(table)
}

/// Number of bytes that block `block` takes in the block data: one block for
/// a verbatim block, the distance to the next entry's offset for a compressed
/// one, and [`FormatError::OffsetsOutOfOrder`] where that offset lies before
/// the block's own.
pub open spec fn stored_len(table: Seq<OffsetEntry>, block: int, layout: Layout) -> Result<
    u32,
    CisoError,
>
    recommends
        0 <= block,
        block + 1 < table.len(),
{
    match table[block].kind {
        BlockKind::Verbatim => Ok(layout.block_size),
        BlockKind::Compressed => if table[block + 1].offset < table[block].offset {
            Err(
                CisoError::Format(
                    FormatError::OffsetsOutOfOrder {
                        block: block as u64,
                        total: layout.total_blocks,
                        index: table[block].offset,
                        next: table[block + 1].offset,
                    },
                ),
            )
        } else {
            Ok((table[block + 1].offset - table[block].offset) as u32)
        },
    }
}

/// Computes the number of bytes that block `block` takes in the block data.
///
/// The verbatim flag of the entry after the block is not looked at.
pub fn block_extent(table: &[OffsetEntry], block: usize, layout: &Layout) -> (r: Result<
    u32,
    CisoError,
>)
    requires
        block + 1 < table@.len(),
    ensures
        r == stored_len(table@, block as int, *layout),
{
    let entry = table[block];
    match entry.kind {
        BlockKind::Verbatim => Ok(layout.block_size),
        BlockKind::Compressed => {
            let next = table[block + 1];
            if next.offset < entry.offset {
                Err(
                    CisoError::Format(
                        FormatError::OffsetsOutOfOrder {
                            block: block as u64,
                            total: layout.total_blocks,
                            index: entry.offset,
                            next: next.offset,
                        },
                    ),
                )
            } else {
                Ok(next.offset - entry.offset)
            }
        },
    }
}

} // verus!
