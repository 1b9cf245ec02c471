use noodles_codecs::bgzf::{read_all_blocks, write_block, Block, Reader};
use noodles_codecs::error::DecodeError;
use noodles_codecs::virtual_position::make;

fn sample_stream() -> Vec<u8> {
    let mut out = Vec::new();
    write_block(&mut out, b"noodles").unwrap();
    write_block(&mut out, b"bgzf").unwrap();
    write_block(&mut out, b"").unwrap();
    out
}

#[test]
fn test_read_block() {
    let mut reader = Reader::new(sample_stream());
    let mut block = Block::default();

    reader.read_block(&mut block).unwrap();
    assert_eq!(&block.data()[..], &b"noodles"[..]);

    reader.read_block(&mut block).unwrap();
    assert_eq!(&block.data()[..], &b"bgzf"[..]);

    reader.read_block(&mut block).unwrap();
    assert!(block.data().is_empty());

    assert_eq!(reader.read_block(&mut block).unwrap(), 0);
}

#[test]
fn test_read_block_sizes() {
    let stream = sample_stream();
    let mut reader = Reader::new(stream.clone());
    let mut block = Block::default();

    let mut total = 0usize;
    loop {
        let n = reader.read_block(&mut block).unwrap();
        if n == 0 {
            break;
        }
        total += n;
    }

    assert_eq!(total, stream.len());
    assert_eq!(reader.position(), stream.len() as u64);
}

#[test]
fn test_read_all_blocks_round_trip() {
    let mut reader = Reader::new(sample_stream());
    let payloads = read_all_blocks(&mut reader).unwrap();
    assert_eq!(
        payloads,
        vec![b"noodles".to_vec(), b"bgzf".to_vec(), Vec::new()]
    );
}

#[test]
fn test_seek() {
    let mut out = Vec::new();
    write_block(&mut out, b"noodles").unwrap();
    let second_block_offset = out.len() as u64;
    write_block(&mut out, b"bgzf").unwrap();

    let mut reader = Reader::new(out);
    let mut block = Block::default();

    let pos = make(second_block_offset, 2);
    assert_eq!(reader.seek(pos, &mut block).unwrap(), pos);
    assert_eq!(&block.data()[..], &b"bgzf"[..]);
    assert_eq!(block.c_offset(), second_block_offset);
    assert_eq!(block.position(), 2);
}

#[test]
fn test_seek_past_payload_is_invalid() {
    let mut out = Vec::new();
    write_block(&mut out, b"bgzf").unwrap();

    let mut reader = Reader::new(out);
    let mut block = Block::default();

    let pos = make(0, 100);
    assert!(matches!(
        reader.seek(pos, &mut block),
        Err(DecodeError::InvalidData),
    ));
}

#[test]
fn test_block_trailer_checksum() {
    // the written trailer carries the payload's CRC-32, little-endian
    let mut out = Vec::new();
    write_block(&mut out, b"noodles").unwrap();

    let crc_bytes = &out[out.len() - 8..out.len() - 4];
    assert_eq!(crc_bytes, &0x802a58a1u32.to_le_bytes()[..]);

    let isize_bytes = &out[out.len() - 4..];
    assert_eq!(isize_bytes, &7u32.to_le_bytes()[..]);
}

#[test]
fn test_truncated_block_is_an_error() {
    let mut out = Vec::new();
    write_block(&mut out, b"noodles").unwrap();
    out.truncate(out.len() - 4);

    let mut reader = Reader::new(out);
    let mut block = Block::default();

    assert!(matches!(
        reader.read_block(&mut block),
        Err(DecodeError::UnexpectedEof),
    ));
}
