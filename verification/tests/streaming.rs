use bcp::block_type::BlockType;
use bcp::decoder::BcpDecoder;
use bcp::encoder::LcpEncoder;
use bcp::enums::{Lang, Priority, Role, Status};
use bcp::error::DecodeError;
use bcp::streaming::{DecoderEvent, StreamingDecoder};

/// Feed a payload to the streaming decoder, as many bytes at a time as it
/// asks for, and collect the events up to the END sentinel.
fn stream_events(payload: &[u8]) -> Result<Vec<DecoderEvent>, DecodeError> {
    let mut decoder = StreamingDecoder::new();
    let mut events = Vec::new();
    let mut cursor = 0;
    while !decoder.is_done() {
        let n = decoder.need();
        assert!(cursor + n <= payload.len(), "payload ended before the END sentinel");
        if let Some(event) = decoder.push(&payload[cursor..cursor + n])? {
            events.push(event);
        }
        cursor += n;
    }
    Ok(events)
}

fn stream_roundtrip(encoder: &mut LcpEncoder) -> Vec<DecoderEvent> {
    let payload = encoder.encode().unwrap();
    stream_events(&payload).unwrap()
}

#[test]
fn streaming_produces_header_then_blocks() {
    let mut enc = LcpEncoder::new();
    enc.add_code(Lang::Rust, "main.rs", b"fn main() {}").add_conversation(Role::User, b"hello");
    let events = stream_roundtrip(&mut enc);
    assert_eq!(events.len(), 3);
    assert!(matches!(&events[0], DecoderEvent::Header(h) if h.version_major == 1));
    assert!(matches!(&events[1], DecoderEvent::Block(b) if b.block_type == BlockType::Code));
    assert!(matches!(&events[2], DecoderEvent::Block(b) if b.block_type == BlockType::Conversation));
}

#[test]
fn streaming_matches_sync_decoder() {
    let mut encoder = LcpEncoder::new();
    encoder
        .add_code(Lang::Rust, "lib.rs", b"pub fn x() {}")
        .with_summary("Function x.").unwrap()
        .with_priority(Priority::High)
        .add_conversation(Role::User, b"What does x do?")
        .add_tool_result("docs", Status::Success, b"x is a placeholder.");
    let payload = encoder.encode().unwrap();
    let sync_decoded = BcpDecoder::decode(&payload).unwrap();
    let events = stream_events(&payload).unwrap();
    let stream_blocks: Vec<_> = events
        .into_iter()
        .filter_map(|e| match e {
            DecoderEvent::Block(b) => Some(b),
            _ => None,
        })
        .collect();
    assert_eq!(sync_decoded.blocks.len(), stream_blocks.len());
    for (sync_block, stream_block) in sync_decoded.blocks.iter().zip(stream_blocks.iter()) {
        assert_eq!(sync_block.block_type, stream_block.block_type);
        assert_eq!(sync_block.flags, stream_block.flags);
        assert_eq!(sync_block.summary, stream_block.summary);
    }
}

#[test]
fn streaming_handles_summary_blocks() {
    let mut enc = LcpEncoder::new();
    enc.add_code(Lang::Python, "app.py", b"print('hi')").with_summary("Prints a greeting.").unwrap();
    let events = stream_roundtrip(&mut enc);
    let block = match &events[1] {
        DecoderEvent::Block(b) => b,
        other => panic!("expected Block, got {other:?}"),
    };
    assert!(block.flags.has_summary());
    assert_eq!(block.summary.as_ref().unwrap().text, "Prints a greeting.");
}

#[test]
fn streaming_empty_body_blocks() {
    let mut enc = LcpEncoder::new();
    enc.add_extension("ns", "t", b"");
    let events = stream_roundtrip(&mut enc);
    assert_eq!(events.len(), 2);
}

#[test]
fn streaming_terminates_at_end_sentinel() {
    let mut enc = LcpEncoder::new();
    enc.add_conversation(Role::User, b"hi");
    let events = stream_roundtrip(&mut enc);
    assert_eq!(events.len(), 2);
}

#[test]
fn streaming_asks_for_the_header_first() {
    let decoder = StreamingDecoder::new();
    assert_eq!(decoder.need(), 8);
    assert!(!decoder.is_done());
}

#[test]
fn streaming_rejects_a_bad_header() {
    let mut decoder = StreamingDecoder::new();
    let result = decoder.push(b"XXXX\x01\x00\x00\x00");
    assert!(matches!(result, Err(DecodeError::InvalidHeader(_))));
}

#[test]
fn streaming_is_done_after_the_sentinel() {
    let payload = LcpEncoder::new().add_conversation(Role::User, b"hi").encode().unwrap();
    let mut decoder = StreamingDecoder::new();
    let mut cursor = 0;
    while !decoder.is_done() {
        let n = decoder.need();
        decoder.push(&payload[cursor..cursor + n]).unwrap();
        cursor += n;
    }
    assert_eq!(cursor, payload.len());
    assert_eq!(decoder.need(), 0);
}
