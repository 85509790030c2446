//! Tests of the VLQ primitives: exact encodings, round trips, error cases,
//! and a cross-check against the sigma-ser implementation of the same wire
//! format.

use ergo_handshake::vlq::{VlqError, VlqReader, VlqWriter};
use sigma_ser::vlq_encode::{ReadSigmaVlqExt, WriteSigmaVlqExt};
use std::io::Cursor;

fn write_u64(v: u64) -> Vec<u8> {
    let mut w = VlqWriter::new();
    w.put_u64(v);
    w.into_inner()
}

fn write_i32(v: i32) -> Vec<u8> {
    let mut w = VlqWriter::new();
    w.put_i32(v);
    w.into_inner()
}

fn write_i64(v: i64) -> Vec<u8> {
    let mut w = VlqWriter::new();
    w.put_i64(v);
    w.into_inner()
}

#[test]
fn test_vlq_exact_encodings() {
    assert_eq!(write_u64(0), vec![0x00]);
    assert_eq!(write_u64(1), vec![0x01]);
    assert_eq!(write_u64(127), vec![0x7f]);
    assert_eq!(write_u64(128), vec![0x80, 0x01]);
    assert_eq!(write_u64(9006), vec![0xae, 0x46]);
    assert_eq!(write_u64(14882), vec![0xa2, 0x74]);
    assert_eq!(
        write_u64(u64::MAX),
        vec![0xff, 0xff, 0xff, 0xff, 0xff, 0xff, 0xff, 0xff, 0xff, 0x01]
    );
    // zig-zag: -1 maps to 1, 1 to 2
    assert_eq!(write_i32(-1), vec![0x01]);
    assert_eq!(write_i32(1), vec![0x02]);
    assert_eq!(write_i64(-1), vec![0x01]);
}

#[test]
fn test_vlq_u64_roundtrip() {
    let values: Vec<u64> = vec![
        0,
        1,
        127,
        128,
        255,
        300,
        9006,
        16383,
        16384,
        u32::MAX as u64,
        u64::MAX / 2,
        u64::MAX,
    ];
    for v in values {
        let bytes = write_u64(v);
        let mut rd = VlqReader::new(&bytes);
        assert_eq!(rd.get_u64().expect("decode failed"), v);
    }
}

#[test]
fn test_vlq_signed_roundtrip() {
    let values32: Vec<i32> = vec![0, 1, -1, 2, -2, 63, -64, 1000, -1000, i32::MAX, i32::MIN];
    for v in values32 {
        let bytes = write_i32(v);
        let mut rd = VlqReader::new(&bytes);
        assert_eq!(rd.get_i32().expect("decode failed"), v);
    }
    let values64: Vec<i64> = vec![0, 1, -1, i64::MAX, i64::MIN, -7226886467503878579];
    for v in values64 {
        let bytes = write_i64(v);
        let mut rd = VlqReader::new(&bytes);
        assert_eq!(rd.get_i64().expect("decode failed"), v);
    }
}

#[test]
fn test_vlq_error_cases() {
    // the stream ends in the middle of a run
    let mut rd = VlqReader::new(&[0x80, 0x80]);
    assert_eq!(rd.get_u64(), Err(VlqError::UnexpectedEof));
    // eleven continuation bytes exceed the longest allowed run
    let bytes = [0x80u8; 11];
    let mut rd = VlqReader::new(&bytes);
    assert_eq!(rd.get_u64(), Err(VlqError::DecodingFailed));
    // a value too large for the requested type
    let big = write_u64(0x1_0000);
    let mut rd = VlqReader::new(&big);
    assert_eq!(rd.get_u16(), Err(VlqError::OutOfRange));
    let big = write_u64(0x1_0000_0000);
    let mut rd = VlqReader::new(&big);
    assert_eq!(rd.get_u32(), Err(VlqError::OutOfRange));
    // an empty buffer has no byte to read
    let mut rd = VlqReader::new(&[]);
    assert_eq!(rd.get_u8(), Err(VlqError::UnexpectedEof));
}

#[test]
fn test_vlq_matches_sigma_ser_writer() {
    let values: Vec<u64> = vec![0, 1, 127, 128, 9006, 16384, 123123141, u64::MAX];
    for v in values {
        let mut w = Cursor::new(Vec::new());
        w.put_u64(v).expect("io failed");
        assert_eq!(write_u64(v), w.into_inner());
    }
    let values32: Vec<i32> = vec![0, 1, -1, 1000, -1000, i32::MAX, i32::MIN];
    for v in values32 {
        let mut w = Cursor::new(Vec::new());
        w.put_i32(v).expect("io failed");
        assert_eq!(write_i32(v), w.into_inner());
    }
    let values64: Vec<i64> = vec![0, 1, -1, i64::MAX, i64::MIN];
    for v in values64 {
        let mut w = Cursor::new(Vec::new());
        w.put_i64(v).expect("io failed");
        assert_eq!(write_i64(v), w.into_inner());
    }
}

#[test]
fn test_vlq_matches_sigma_ser_reader() {
    // decode with sigma-ser what this library wrote, and the other way round
    let values: Vec<u64> = vec![0, 127, 128, 9006, u64::MAX];
    for v in values {
        let mut r = Cursor::new(write_u64(v));
        assert_eq!(r.get_u64().expect("decode failed"), v);
        let mut w = Cursor::new(Vec::new());
        w.put_u64(v).expect("io failed");
        let bytes = w.into_inner();
        let mut rd = VlqReader::new(&bytes);
        assert_eq!(rd.get_u64().expect("decode failed"), v);
    }
}

#[test]
fn test_vlq_u16_three_byte_run() {
    // a u16 at the top of its range takes three bytes and still decodes
    let bytes = write_u64(u16::MAX as u64);
    assert_eq!(bytes.len(), 3);
    let mut rd = VlqReader::new(&bytes);
    assert_eq!(rd.get_u16().expect("decode failed"), u16::MAX);
}
