//! Bit Context Protocol: a compact, typed binary format for structured
//! LLM context, with an encoder, a decoder and a token-budget renderer.

pub mod block;
pub mod block_frame;
pub mod block_reader;
pub mod block_type;
pub mod block_writer;
pub mod blocks;
pub mod capture;
pub mod budget;
pub mod cli;
pub mod compression;
pub mod config;
pub mod content_store;
pub mod decoder;
pub mod decompression;
pub mod diff;
pub mod driver;
pub mod encoder;
pub mod enums;
pub mod error;
pub mod fields;
pub mod fixture;
pub mod file_tree;
pub mod header;
pub mod inspect;
pub mod markdown;
pub mod messages;
pub mod placeholder;
pub mod render_markdown;
pub mod render_minimal;
pub mod render_xml;
pub mod roundtrip;
pub mod stats;
pub mod streaming;
pub mod summary;
pub mod text;
pub mod tokens;
pub mod varint;
