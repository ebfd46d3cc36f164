//! Expanding one stored block into the bytes of the image.

use crate::error::outcome_view;
use crate::error::CisoError;
use crate::offsets::BlockKind;
use miniz_oxide::inflate::DecompressError;
use vstd::prelude::*;
use vstd::slice::slice_to_vec;

verus! {

/// An outside type of miniz_oxide, the error of its one-shot inflaters;
/// nothing is known of its contents.
#[verifier::external_type_specification]
#[verifier::external_body]
pub struct ExDecompressError(miniz_oxide::inflate::DecompressError);

/// What `miniz_oxide::inflate::decompress_to_vec_with_limit` makes of the raw
/// deflate stream `stream` when it may produce at most `limit` bytes: the
/// inflated bytes, or `None` where it reports an error. Nothing is stated of
/// its values: it stands for the inflater, which is not verified.
pub uninterp spec fn inflated(stream: Seq<u8>, limit: nat) -> Option<Seq<u8>>;

/// Calls `miniz_oxide::inflate::decompress_to_vec_with_limit`. The contract is
/// not proved. It names the outcome of the call [`inflated`], which rests on
/// the call's outcome depending on its two arguments alone, and it restates
/// the documented bound: the vector that comes back is never grown beyond
/// `limit` bytes.
#[verifier::external_body]
pub(crate) fn inflate(stream: &[u8], limit: usize) -> (r: Result<Vec<u8>, DecompressError>)
    ensures
        r matches Ok(data) ==> inflated(stream@, limit as nat) == Some(data@),
        r is Err ==> inflated(stream@, limit as nat) is None,
        r matches Ok(data) ==> data@.len() <= limit,
{
    miniz_oxide::inflate::decompress_to_vec_with_limit(stream, limit)
}

/// The bytes of the image that a block stored as `stored` stands for: the
/// stored bytes themselves for a verbatim block, and for a compressed one what
/// the stored bytes inflate to within one block, [`CisoError::Decompress`]
/// where they do not.
pub open spec fn block_image(kind: BlockKind, stored: Seq<u8>, block_size: u32) -> Result<
    Seq<u8>,
    CisoError,
> {
    match kind {
        BlockKind::Verbatim => Ok(stored),
        BlockKind::Compressed => match inflated(stored, block_size as nat) {
            Some(data) => Ok(data),
            None => Err(CisoError::Decompress),
        },
    }
}

/// Turns what the inflater returned for a compressed block into the block's
/// bytes: they are handed on as they are, and any error of the inflater
/// becomes [`CisoError::Decompress`].
pub fn block_from_inflated(outcome: Result<Vec<u8>, DecompressError>) -> (r: Result<
    Vec<u8>,
    CisoError,
>)
    ensures
        outcome matches Ok(data) ==> r == Ok::<Vec<u8>, CisoError>(data),
        outcome is Err ==> r == Err::<Vec<u8>, CisoError>(CisoError::Decompress),
{
    match outcome {
        Ok(data) => Ok(data),
        Err(_) => Err(CisoError::Decompress),
    }
}

/// Expands one stored block.
///
/// A verbatim block is copied byte for byte and the inflater is not called. A
/// compressed block is inflated with the block size as the limit, so that what
/// comes back is never longer than one block; it may be shorter.
pub fn expand_block(kind: BlockKind, stored: &[u8], block_size: u32) -> (r: Result<
    Vec<u8>,
    CisoError,
>)
    ensures
        outcome_view(r) == block_image(kind, stored@, block_size),
        kind == BlockKind::Verbatim ==> (r matches Ok(data) && data@ == stored@),
        kind == BlockKind::Compressed ==> (r matches Ok(data) ==> data@.len() <= block_size),
{
    match kind {
        BlockKind::Verbatim => Ok(slice_to_vec(stored)),
        BlockKind::Compressed => block_from_inflated(inflate(stored, block_size as usize)),
    }
}

} // verus!
