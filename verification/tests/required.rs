use bcp::block_writer::BlockWriter;
use bcp::budget::{CodeAwareEstimator, HeuristicEstimator, TokenEstimator};
use bcp::compression::COMPRESSION_THRESHOLD;
use bcp::content_store::{ContentStore, MemoryContentStore};
use bcp::decompression::{MAX_BLOCK_DECOMPRESSED_SIZE, MAX_PAYLOAD_DECOMPRESSED_SIZE};

#[test]
fn constants_are_correct() {
    assert_eq!(MAX_BLOCK_DECOMPRESSED_SIZE, 16 * 1024 * 1024);
    assert_eq!(MAX_PAYLOAD_DECOMPRESSED_SIZE, 256 * 1024 * 1024);
}

#[test]
fn heuristic_estimator_empty() {
    assert_eq!(HeuristicEstimator.estimate(""), 0);
}

#[test]
fn heuristic_estimator_min_one() {
    assert_eq!(HeuristicEstimator.estimate("a"), 1);
    assert_eq!(HeuristicEstimator.estimate("ab"), 1);
    assert_eq!(HeuristicEstimator.estimate("abc"), 1);
}

#[test]
fn heuristic_estimator_basic() {
    assert_eq!(HeuristicEstimator.estimate("hello world"), 2);
    let text = "a".repeat(100);
    assert_eq!(HeuristicEstimator.estimate(&text), 25);
}

#[test]
fn code_aware_estimator_empty() {
    assert_eq!(CodeAwareEstimator.estimate(""), 0);
}

#[test]
fn code_aware_estimator_prose() {
    let prose = "This is a paragraph of English text.\n\
                 It has no indentation at all.\n\
                 Every line starts at column zero.";
    let expected = prose.len() as u32 / 4;
    assert_eq!(CodeAwareEstimator.estimate(prose), expected);
}

#[test]
fn code_aware_estimator_code() {
    let code = "fn main() {\n    let x = 42;\n    println!(\"{x}\");\n}";
    let expected = code.len() as u32 / 3;
    assert_eq!(CodeAwareEstimator.estimate(code), expected);
}

#[test]
fn code_aware_estimator_min_one() {
    assert_eq!(CodeAwareEstimator.estimate("x"), 1);
}

#[test]
fn code_aware_estimator_ignores_empty_lines() {
    let text = "line one\n\n\n    indented\n\n    also indented\nflat";
    let expected = text.len() as u32 / 3;
    assert_eq!(CodeAwareEstimator.estimate(text), expected);
}

#[test]
fn empty_writer_produces_empty_bytes() {
    let writer = BlockWriter::new();
    assert!(writer.finish().is_empty());
}

#[test]
fn compression_threshold_is_256() {
    assert_eq!(COMPRESSION_THRESHOLD, 256);
}

#[test]
fn contains_returns_false_for_unknown_hash() {
    let store = MemoryContentStore::new();
    let fake_hash = [0u8; 32];
    assert!(!store.contains(&fake_hash));
}

#[test]
fn get_returns_none_for_unknown_hash() {
    let store = MemoryContentStore::new();
    let fake_hash = [0xFFu8; 32];
    assert!(store.get(&fake_hash).is_none());
}
