use ciso::read_header;
use ciso::CisoError;
use ciso::FormatError;
use ciso::Header;
use ciso::Layout;
use ciso::HEADER_SIZE;

fn sample_header() -> Header {
    Header {
        magic: [0x43, 0x49, 0x53, 0x4f],
        header_size: 24,
        total_bytes: 4096,
        block_size: 2048,
        version: 1,
        align: 0,
        reserved: [0, 0],
    }
}

#[test]
fn header_takes_twenty_four_bytes() {
    assert_eq!(HEADER_SIZE, 24);
}

#[test]
fn read_header_decodes_every_field() {
    let bytes: Vec<u8> = vec![
        0x43, 0x49, 0x53, 0x4f, // magic
        0x78, 0x56, 0x34, 0x12, // header_size
        0x08, 0x07, 0x06, 0x05, 0x04, 0x03, 0x02, 0x01, // total_bytes
        0x00, 0x08, 0x00, 0x00, // block_size
        0x01, // version
        0x02, // align
        0xaa, 0xbb, // reserved
    ];
    let header = read_header(&bytes).unwrap();
    assert_eq!(header.magic, [0x43, 0x49, 0x53, 0x4f]);
    assert_eq!(header.header_size, 0x1234_5678);
    assert_eq!(header.total_bytes, 0x0102_0304_0506_0708);
    assert_eq!(header.block_size, 2048);
    assert_eq!(header.version, 1);
    assert_eq!(header.align, 2);
    assert_eq!(header.reserved, [0xaa, 0xbb]);
}

#[test]
fn read_header_reads_the_largest_values() {
    let mut bytes: Vec<u8> = vec![0xff; 24];
    bytes[0] = 0x43;
    let header = read_header(&bytes).unwrap();
    assert_eq!(header.header_size, u32::MAX);
    assert_eq!(header.total_bytes, u64::MAX);
    assert_eq!(header.block_size, u32::MAX);
}

#[test]
fn read_header_ignores_what_follows() {
    let mut bytes: Vec<u8> = vec![0; 24];
    bytes[16] = 7;
    let alone = read_header(&bytes).unwrap();
    bytes.extend_from_slice(&[9, 9, 9, 9, 9]);
    assert_eq!(read_header(&bytes).unwrap(), alone);
    assert_eq!(alone.block_size, 7);
}

#[test]
fn read_header_short_input_is_io() {
    assert_eq!(read_header(&[]), Err(CisoError::Io));
    assert_eq!(read_header(&[0x43, 0x49, 0x53, 0x4f]), Err(CisoError::Io));
    let almost: Vec<u8> = vec![0; 23];
    assert_eq!(read_header(&almost), Err(CisoError::Io));
}

#[test]
fn validate_gives_the_layout() {
    assert_eq!(
        sample_header().validate(),
        Ok(Layout { block_size: 2048, total_blocks: 2 })
    );
}

#[test]
fn validate_drops_the_remainder_of_the_division() {
    let mut header = sample_header();
    header.total_bytes = 10;
    header.block_size = 4;
    assert_eq!(header.validate(), Ok(Layout { block_size: 4, total_blocks: 2 }));
    header.total_bytes = 3;
    assert_eq!(header.validate(), Ok(Layout { block_size: 4, total_blocks: 0 }));
    header.total_bytes = u64::MAX;
    header.block_size = 1;
    assert_eq!(
        header.validate(),
        Ok(Layout { block_size: 1, total_blocks: u64::MAX })
    );
}

#[test]
fn validate_does_not_look_at_recorded_fields() {
    let mut header = sample_header();
    header.header_size = 0;
    header.version = 200;
    header.reserved = [1, 2];
    assert_eq!(
        header.validate(),
        Ok(Layout { block_size: 2048, total_blocks: 2 })
    );
}

#[test]
fn validate_rejects_a_zero_magic() {
    let mut header = sample_header();
    header.magic = [0, 0, 0, 0];
    assert_eq!(
        header.validate(),
        Err(CisoError::Format(FormatError::InvalidHeader))
    );
}

#[test]
fn validate_rejects_a_magic_in_another_case() {
    let mut header = sample_header();
    header.magic = [0x63, 0x69, 0x73, 0x6f];
    assert_eq!(
        header.validate(),
        Err(CisoError::Format(FormatError::InvalidHeader))
    );
}

#[test]
fn validate_rejects_a_magic_that_is_text_of_two_bytes_each() {
    // Two two-byte scalars: valid UTF-8, but not the tag.
    let mut header = sample_header();
    header.magic = [0xc3, 0xa9, 0xc3, 0xa9];
    assert_eq!(
        header.validate(),
        Err(CisoError::Format(FormatError::InvalidHeader))
    );
}

#[test]
fn validate_reports_a_magic_that_is_not_text() {
    let mut header = sample_header();
    header.magic = [0xff, 0xff, 0xff, 0xff];
    assert_eq!(header.validate(), Err(CisoError::Encoding));
    header.magic = [0x43, 0x49, 0x53, 0x80];
    assert_eq!(header.validate(), Err(CisoError::Encoding));
    // An overlong encoding and a surrogate are not text either.
    header.magic = [0xc0, 0x80, 0x41, 0x41];
    assert_eq!(header.validate(), Err(CisoError::Encoding));
    header.magic = [0xed, 0xa0, 0x80, 0x41];
    assert_eq!(header.validate(), Err(CisoError::Encoding));
}

#[test]
fn validate_checks_the_text_before_the_sizes() {
    let mut header = sample_header();
    header.magic = [0xff, 0x49, 0x53, 0x4f];
    header.block_size = 0;
    header.align = 3;
    assert_eq!(header.validate(), Err(CisoError::Encoding));
}

#[test]
fn validate_rejects_a_zero_block_size() {
    let mut header = sample_header();
    header.block_size = 0;
    assert_eq!(
        header.validate(),
        Err(CisoError::Format(FormatError::InvalidHeader))
    );
}

#[test]
fn validate_rejects_a_zero_image_size() {
    let mut header = sample_header();
    header.total_bytes = 0;
    assert_eq!(
        header.validate(),
        Err(CisoError::Format(FormatError::InvalidHeader))
    );
}

#[test]
fn validate_rejects_any_alignment_but_zero() {
    let mut header = sample_header();
    header.align = 1;
    assert_eq!(
        header.validate(),
        Err(CisoError::Format(FormatError::AlignmentNotSupported))
    );
    header.align = 255;
    assert_eq!(
        header.validate(),
        Err(CisoError::Format(FormatError::AlignmentNotSupported))
    );
}

#[test]
fn validate_reports_an_invalid_header_before_the_alignment() {
    let mut header = sample_header();
    header.align = 1;
    header.total_bytes = 0;
    assert_eq!(
        header.validate(),
        Err(CisoError::Format(FormatError::InvalidHeader))
    );
    header.total_bytes = 4096;
    header.magic = [0x5a, 0x49, 0x53, 0x4f];
    assert_eq!(
        header.validate(),
        Err(CisoError::Format(FormatError::InvalidHeader))
    );
}

#[test]
fn format_errors_have_their_messages() {
    assert_eq!(FormatError::InvalidHeader.message(), "invalid header");
    assert_eq!(
        FormatError::AlignmentNotSupported.message(),
        "alignment not supported"
    );
    let inverted = FormatError::OffsetsOutOfOrder { block: 1, total: 2, index: 9, next: 3 };
    assert_eq!(inverted.message(), "offsets out of order");
}
