use bcp::block_reader::BlockReader;
use bcp::block_writer::BlockWriter;
use bcp::compression::{compress, decompress as compression_decompress};
use bcp::content_store::{ContentStore, MemoryContentStore};
use bcp::decompression::{decompress, MAX_BLOCK_DECOMPRESSED_SIZE};
use bcp::error::{CompressionError, DecodeError};
use bcp::fields::{
    decode_bytes_value, decode_field_header, decode_varint_value, encode_bytes_field, encode_nested_field,
    encode_varint_field, FieldWireType,
};

// ── Block reader ──────────────────────────────────────────────────────────

#[test]
fn empty_buffer_returns_none() {
    let mut reader = BlockReader::new(&[]);
    assert!(reader.next_field().unwrap().is_none());
}

#[test]
fn reads_varint_field() {
    let mut buf = Vec::new();
    encode_varint_field(&mut buf, 1, 42);
    let mut reader = BlockReader::new(&buf);
    let field = reader.next_field().unwrap().unwrap();
    assert_eq!(field.field_id, 1);
    assert_eq!(field.wire_type, FieldWireType::Varint);
    let (value, _) = decode_varint_value(field.data).unwrap();
    assert_eq!(value, 42);
    assert!(reader.next_field().unwrap().is_none());
}

#[test]
fn reads_bytes_field() {
    let mut buf = Vec::new();
    encode_bytes_field(&mut buf, 2, b"hello");
    let mut reader = BlockReader::new(&buf);
    let field = reader.next_field().unwrap().unwrap();
    assert_eq!(field.field_id, 2);
    assert_eq!(field.wire_type, FieldWireType::Bytes);
    assert_eq!(field.data, b"hello");
    assert!(reader.next_field().unwrap().is_none());
}

#[test]
fn reads_nested_field() {
    let mut inner = Vec::new();
    encode_varint_field(&mut inner, 1, 99);
    let mut buf = Vec::new();
    encode_nested_field(&mut buf, 3, &inner);
    let mut reader = BlockReader::new(&buf);
    let field = reader.next_field().unwrap().unwrap();
    assert_eq!(field.field_id, 3);
    assert_eq!(field.wire_type, FieldWireType::Nested);
    assert_eq!(field.data, &inner);
}

#[test]
fn reads_multiple_fields_sequentially() {
    let mut buf = Vec::new();
    encode_varint_field(&mut buf, 1, 7);
    encode_bytes_field(&mut buf, 2, b"world");
    encode_varint_field(&mut buf, 3, 256);
    let mut reader = BlockReader::new(&buf);
    let f1 = reader.next_field().unwrap().unwrap();
    assert_eq!(f1.field_id, 1);
    let f2 = reader.next_field().unwrap().unwrap();
    assert_eq!(f2.field_id, 2);
    assert_eq!(f2.data, b"world");
    let f3 = reader.next_field().unwrap().unwrap();
    assert_eq!(f3.field_id, 3);
    assert!(reader.next_field().unwrap().is_none());
    assert_eq!(reader.position(), buf.len());
}

#[test]
fn position_tracks_correctly() {
    let mut buf = Vec::new();
    encode_varint_field(&mut buf, 1, 42);
    encode_bytes_field(&mut buf, 2, b"hi");
    let mut reader = BlockReader::new(&buf);
    assert_eq!(reader.position(), 0);
    reader.next_field().unwrap();
    let mid = reader.position();
    assert!(mid > 0 && mid < buf.len());
    reader.next_field().unwrap();
    assert_eq!(reader.position(), buf.len());
    assert!(reader.remaining().is_empty());
}

// ── Block writer ──────────────────────────────────────────────────────────

#[test]
fn single_varint_field() {
    let mut writer = BlockWriter::new();
    writer.write_varint_field(1, 42);
    let bytes = writer.finish();
    assert!(!bytes.is_empty());
    let (header, n) = decode_field_header(&bytes).unwrap();
    assert_eq!(header.field_id, 1);
    assert_eq!(header.wire_type, FieldWireType::Varint);
    let (val, m) = decode_varint_value(&bytes[n..]).unwrap();
    assert_eq!(val, 42);
    assert_eq!(n + m, bytes.len());
}

#[test]
fn single_bytes_field() {
    let mut writer = BlockWriter::new();
    writer.write_bytes_field(2, b"hello");
    let bytes = writer.finish();
    let (header, n) = decode_field_header(&bytes).unwrap();
    assert_eq!(header.field_id, 2);
    assert_eq!(header.wire_type, FieldWireType::Bytes);
    let (data, m) = decode_bytes_value(&bytes[n..]).unwrap();
    assert_eq!(data, b"hello");
    assert_eq!(n + m, bytes.len());
}

#[test]
fn nested_field_roundtrip() {
    let mut inner = BlockWriter::new();
    inner.write_varint_field(1, 99);
    let inner_bytes = inner.finish();
    let mut outer = BlockWriter::new();
    outer.write_nested_field(3, &inner_bytes);
    let bytes = outer.finish();
    let (header, n) = decode_field_header(&bytes).unwrap();
    assert_eq!(header.field_id, 3);
    assert_eq!(header.wire_type, FieldWireType::Nested);
    let (nested, m) = decode_bytes_value(&bytes[n..]).unwrap();
    assert_eq!(n + m, bytes.len());
    let (inner_header, k) = decode_field_header(nested).unwrap();
    assert_eq!(inner_header.field_id, 1);
    let (val, _) = decode_varint_value(&nested[k..]).unwrap();
    assert_eq!(val, 99);
}

#[test]
fn multiple_fields_sequential() {
    let mut writer = BlockWriter::new();
    writer.write_varint_field(1, 7);
    writer.write_bytes_field(2, b"world");
    writer.write_varint_field(3, 256);
    let bytes = writer.finish();
    let mut cursor = 0;
    let (h, n) = decode_field_header(&bytes[cursor..]).unwrap();
    cursor += n;
    assert_eq!(h.field_id, 1);
    let (v, n) = decode_varint_value(&bytes[cursor..]).unwrap();
    cursor += n;
    assert_eq!(v, 7);
    let (h, n) = decode_field_header(&bytes[cursor..]).unwrap();
    cursor += n;
    assert_eq!(h.field_id, 2);
    let (data, n) = decode_bytes_value(&bytes[cursor..]).unwrap();
    cursor += n;
    assert_eq!(data, b"world");
    let (h, n) = decode_field_header(&bytes[cursor..]).unwrap();
    cursor += n;
    assert_eq!(h.field_id, 3);
    let (v, n) = decode_varint_value(&bytes[cursor..]).unwrap();
    cursor += n;
    assert_eq!(v, 256);
    assert_eq!(cursor, bytes.len());
}

#[test]
fn writer_with_capacity_starts_empty() {
    let mut writer = BlockWriter::with_capacity(64);
    writer.write_varint_field(1, 1);
    assert_eq!(writer.finish(), vec![0x01, 0x00, 0x01]);
}

// ── Compression ───────────────────────────────────────────────────────────

#[test]
fn compress_returns_none_for_small_incompressible_data() {
    let data = b"abc123";
    assert!(compress(data).is_none());
}

#[test]
fn compress_reduces_repetitive_data() {
    let data = "fn main() { }\n".repeat(100);
    let result = compress(data.as_bytes());
    assert!(result.is_some());
    let compressed = result.unwrap();
    assert!(compressed.len() < data.len());
}

#[test]
fn compress_decompress_roundtrip() {
    let data = "pub fn hello() -> &'static str { \"world\" }\n".repeat(50);
    let compressed = compress(data.as_bytes()).expect("should compress");
    let decompressed = compression_decompress(&compressed, 1024 * 1024).expect("should decompress");
    assert_eq!(decompressed, data.as_bytes());
}

#[test]
fn compression_decompress_rejects_bomb() {
    let data = "x".repeat(10_000);
    let compressed = compress(data.as_bytes()).expect("should compress");
    let result = compression_decompress(&compressed, 100);
    assert!(matches!(result, Err(CompressionError::DecompressionBomb { .. })));
}

#[test]
fn compression_decompress_rejects_invalid_data() {
    let garbage = b"this is not zstd data";
    let result = compression_decompress(garbage, 1024 * 1024);
    assert!(matches!(result, Err(CompressionError::DecompressFailed(_))));
}

#[test]
fn compress_output_is_a_zstd_frame() {
    let data = "abcdefgh".repeat(100);
    let compressed = compress(data.as_bytes()).expect("should compress");
    assert_ne!(compressed, data.as_bytes());
    assert_eq!(zstd::decode_all(&compressed[..]).unwrap(), data.as_bytes());
}

// ── Content store ─────────────────────────────────────────────────────────

#[test]
fn put_get_roundtrip() {
    let mut store = MemoryContentStore::new();
    let data = b"fn main() { println!(\"hello\"); }";
    let hash = store.put(data);
    let retrieved = store.get(&hash).expect("should find stored content");
    assert_eq!(retrieved, data);
}

#[test]
fn put_returns_deterministic_hash() {
    let mut store = MemoryContentStore::new();
    let data = b"deterministic content";
    let hash1 = store.put(data);
    let hash2 = store.put(data);
    assert_eq!(hash1, hash2);
}

#[test]
fn dedup_stores_only_once() {
    let mut store = MemoryContentStore::new();
    let data = b"duplicate content";
    store.put(data);
    store.put(data);
    assert_eq!(store.len(), 1);
}

#[test]
fn contains_returns_true_for_stored_hash() {
    let mut store = MemoryContentStore::new();
    let data = b"some content";
    let hash = store.put(data);
    assert!(store.contains(&hash));
}

#[test]
fn len_and_total_bytes() {
    let mut store = MemoryContentStore::new();
    assert_eq!(store.len(), 0);
    assert!(store.is_empty());
    assert_eq!(store.total_bytes(), 0);
    store.put(b"hello");
    store.put(b"world");
    assert_eq!(store.len(), 2);
    assert!(!store.is_empty());
    assert_eq!(store.total_bytes(), 10);
}

#[test]
fn blake3_hash_is_32_bytes() {
    let mut store = MemoryContentStore::new();
    let hash = store.put(b"test");
    assert_eq!(hash.len(), 32);
}

#[test]
fn different_content_produces_different_hashes() {
    let mut store = MemoryContentStore::new();
    let hash1 = store.put(b"content A");
    let hash2 = store.put(b"content B");
    assert_ne!(hash1, hash2);
}

#[test]
fn put_keys_by_blake3_of_the_content() {
    let mut store = MemoryContentStore::new();
    let hash = store.put(b"keyed");
    assert_eq!(hash, *blake3::hash(b"keyed").as_bytes());
    assert_ne!(hash.to_vec(), b"keyed".to_vec());
}

// ── Decompression ─────────────────────────────────────────────────────────

fn compress_test_data(data: &[u8]) -> Vec<u8> {
    zstd::encode_all(std::io::Cursor::new(data), 3).unwrap()
}

#[test]
fn decompress_roundtrip() {
    let original = "fn main() { println!(\"hello\"); }\n".repeat(50);
    let compressed = compress_test_data(original.as_bytes());
    let result = decompress(&compressed, MAX_BLOCK_DECOMPRESSED_SIZE).unwrap();
    assert_eq!(result, original.as_bytes());
}

#[test]
fn decompression_decompress_rejects_invalid_data() {
    let garbage = b"this is not zstd data";
    let result = decompress(garbage, MAX_BLOCK_DECOMPRESSED_SIZE);
    assert!(matches!(result, Err(DecodeError::DecompressFailed(_))));
}

#[test]
fn decompression_decompress_rejects_bomb() {
    let data = "x".repeat(10_000);
    let compressed = compress_test_data(data.as_bytes());
    let result = decompress(&compressed, 100);
    assert!(matches!(result, Err(DecodeError::DecompressionBomb { .. })));
}

#[test]
fn writer_output_is_the_fields_in_call_order() {
    let mut w = BlockWriter::new();
    w.write_varint_field(1, 300);
    w.write_bytes_field(2, b"abc");
    w.write_nested_field(3, &[7, 8]);
    let mut expected = Vec::new();
    encode_varint_field(&mut expected, 1, 300);
    encode_bytes_field(&mut expected, 2, b"abc");
    encode_nested_field(&mut expected, 3, &[7, 8]);
    assert_eq!(w.finish(), expected);
    assert!(BlockWriter::with_capacity(64).finish().is_empty());
}

#[test]
fn reader_position_stays_within_the_body() {
    let mut buf = Vec::new();
    encode_varint_field(&mut buf, 1, 5);
    encode_bytes_field(&mut buf, 2, b"hi");
    let mut reader = BlockReader::new(&buf);
    let mut steps = 0;
    loop {
        assert!(reader.position() <= buf.len());
        assert_eq!(reader.remaining(), &buf[reader.position()..]);
        let empty = reader.remaining().is_empty();
        match reader.next_field().unwrap() {
            None => {
                assert!(empty);
                break;
            }
            Some(_) => assert!(!empty),
        }
        steps += 1;
    }
    assert_eq!(steps, 2);
    assert_eq!(reader.position(), buf.len());
}
