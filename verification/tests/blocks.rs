use ciso::block_from_inflated;
use ciso::expand_block;
use ciso::BlockKind;
use ciso::CisoError;

// The raw deflate stream of sixteen bytes, `ABCD` four times over.
const ABCD_STREAM: [u8; 8] = [115, 116, 114, 118, 113, 68, 194, 0];

fn abcd_image() -> Vec<u8> {
    vec![
        0x41, 0x42, 0x43, 0x44, 0x41, 0x42, 0x43, 0x44, 0x41, 0x42, 0x43, 0x44, 0x41, 0x42, 0x43,
        0x44,
    ]
}

#[test]
fn verbatim_block_is_copied() {
    let stored: Vec<u8> = vec![9, 8, 7, 6, 5, 4, 3, 2];
    assert_eq!(expand_block(BlockKind::Verbatim, &stored, 8), Ok(stored.clone()));
}

#[test]
fn verbatim_block_that_is_a_deflate_stream_is_not_inflated() {
    assert_eq!(
        expand_block(BlockKind::Verbatim, &ABCD_STREAM, 8),
        Ok(ABCD_STREAM.to_vec())
    );
}

#[test]
fn verbatim_block_that_is_no_deflate_stream_is_copied() {
    let stored: Vec<u8> = vec![0xff; 16];
    assert_eq!(expand_block(BlockKind::Verbatim, &stored, 16), Ok(stored.clone()));
}

#[test]
fn compressed_block_inflates_to_the_known_image() {
    assert_eq!(
        expand_block(BlockKind::Compressed, &ABCD_STREAM, 16),
        Ok(abcd_image())
    );
}

#[test]
fn compressed_block_of_one_stored_deflate_block() {
    // A deflate block of type "stored": final bit, length 4, its complement, the bytes.
    let stream: Vec<u8> = vec![0x01, 0x04, 0x00, 0xfb, 0xff, 1, 2, 3, 4];
    assert_eq!(expand_block(BlockKind::Compressed, &stream, 4), Ok(vec![1, 2, 3, 4]));
}

#[test]
fn compressed_block_from_the_deflater_comes_back() {
    let image: Vec<u8> = (0..2048u32).map(|i| (i % 251) as u8).collect();
    let stream = miniz_oxide::deflate::compress_to_vec(&image, 6);
    assert_ne!(stream, image);
    assert_eq!(expand_block(BlockKind::Compressed, &stream, 2048), Ok(image));
}

#[test]
fn compressed_block_may_be_shorter_than_a_block() {
    assert_eq!(
        expand_block(BlockKind::Compressed, &ABCD_STREAM, 2048),
        Ok(abcd_image())
    );
}

#[test]
fn compressed_block_longer_than_a_block_fails() {
    assert_eq!(
        expand_block(BlockKind::Compressed, &ABCD_STREAM, 15),
        Err(CisoError::Decompress)
    );
}

#[test]
fn compressed_block_of_garbage_fails() {
    let stream: Vec<u8> = vec![0xff; 16];
    assert_eq!(
        expand_block(BlockKind::Compressed, &stream, 2048),
        Err(CisoError::Decompress)
    );
}

#[test]
fn compressed_block_cut_short_fails() {
    assert_eq!(
        expand_block(BlockKind::Compressed, &ABCD_STREAM[..4], 16),
        Err(CisoError::Decompress)
    );
}

#[test]
fn compressed_block_of_no_bytes_fails() {
    assert_eq!(
        expand_block(BlockKind::Compressed, &[], 16),
        Err(CisoError::Decompress)
    );
}

#[test]
fn inflated_bytes_are_handed_on() {
    let outcome = miniz_oxide::inflate::decompress_to_vec_with_limit(&ABCD_STREAM, 16);
    assert_eq!(block_from_inflated(outcome), Ok(abcd_image()));
}

#[test]
fn inflater_errors_become_decompress() {
    let outcome = miniz_oxide::inflate::decompress_to_vec_with_limit(&[0xff, 0xff], 16);
    assert!(outcome.is_err());
    assert_eq!(block_from_inflated(outcome), Err(CisoError::Decompress));
    let outcome = miniz_oxide::inflate::decompress_to_vec_with_limit(&ABCD_STREAM, 3);
    assert!(outcome.is_err());
    assert_eq!(block_from_inflated(outcome), Err(CisoError::Decompress));
}
