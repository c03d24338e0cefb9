//! The human-readable text of each error.
use vstd::prelude::*;
use crate::decoder::{DecodedPayload, PayloadModel};
use crate::block_type::BlockType;
use crate::cli::{CliError, CliErrorView};
use crate::error::{DecodeError, DecodeErrorView, DriverError, EncodeError};
use crate::inspect::{debug_str, spec_debug_str};
use crate::fields::TypeError;
use crate::text::{push_decimal, push_hex2, push_str, spec_decimal, spec_hex2};
use crate::varint::WireError;

verus! {

/// Eight upper-case hex digits of a 32-bit value.
pub open spec fn spec_hex8(v: u32) -> Seq<char> {
    spec_hex2((v / 0x1000000) as u8) + spec_hex2(((v / 0x10000) % 0x100) as u8) + spec_hex2(((v / 0x100) % 0x100) as u8)
        + spec_hex2((v % 0x100) as u8)
}

fn push_hex8(out: &mut String, v: u32)
    ensures
        final(out)@ == old(out)@ + spec_hex8(v),
{
    push_hex2(out, (v / 0x1000000) as u8);
    push_hex2(out, ((v / 0x10000) % 0x100) as u8);
    push_hex2(out, ((v / 0x100) % 0x100) as u8);
    push_hex2(out, (v % 0x100) as u8);
    assert(out@ =~= old(out)@ + spec_hex8(v));
}

/// The text of a wire error.
pub open spec fn spec_wire_message(e: WireError) -> Seq<char> {
    match e {
        WireError::UnexpectedEof { offset } => "unexpected end of input at offset "@ + spec_decimal(offset as nat),
        WireError::VarintTooLong => "varint too long"@,
        WireError::InvalidMagic { found } => "invalid magic: 0x"@ + spec_hex8(found),
        WireError::UnsupportedVersion { major, minor } => "unsupported version "@ + spec_decimal(major as nat) + "."@
            + spec_decimal(minor as nat),
        WireError::ReservedNonZero { value } => "reserved header byte is not zero: 0x"@ + spec_hex2(value),
    }
}

fn push_wire_message(out: &mut String, e: WireError)
    ensures
        final(out)@ == old(out)@ + spec_wire_message(e),
{
    match e {
        WireError::UnexpectedEof { offset } => {
            push_str(out, "unexpected end of input at offset ");
            push_decimal(out, offset as u64);
        },
        WireError::VarintTooLong => push_str(out, "varint too long"),
        WireError::InvalidMagic { found } => {
            push_str(out, "invalid magic: 0x");
            push_hex8(out, found);
        },
        WireError::UnsupportedVersion { major, minor } => {
            push_str(out, "unsupported version ");
            push_decimal(out, major as u64);
            push_str(out, ".");
            push_decimal(out, minor as u64);
        },
        WireError::ReservedNonZero { value } => {
            push_str(out, "reserved header byte is not zero: 0x");
            push_hex2(out, value);
        },
    }
    assert(out@ =~= old(out)@ + spec_wire_message(e));
}

impl WireError {
    /// The text of this error.
    pub fn message(&self) -> (r: String)
        ensures
            r@ == spec_wire_message(*self),
    {
        let mut out = String::new();
        push_wire_message(&mut out, *self);
        out
    }
}

/// The text of a body error.
pub open spec fn spec_type_message(e: TypeError) -> Seq<char> {
    match e {
        TypeError::MissingRequiredField { field } => "missing required field "@ + field@,
        TypeError::UnknownWireType { value } => "unknown wire type "@ + spec_decimal(value as nat),
        TypeError::InvalidEnumValue { enum_name, value } => "invalid "@ + enum_name@ + " value "@ + spec_decimal(value as nat),
        TypeError::InvalidUtf8 { field } => "invalid UTF-8 in field "@ + field@,
        TypeError::ValueOutOfRange { field, value } => "value "@ + spec_decimal(value as nat) + " out of range for field "@
            + field@,
        TypeError::Wire(w) => spec_wire_message(w),
    }
}

fn push_type_message(out: &mut String, e: TypeError)
    ensures
        final(out)@ == old(out)@ + spec_type_message(e),
{
    match e {
        TypeError::MissingRequiredField { field } => {
            push_str(out, "missing required field ");
            push_str(out, field);
        },
        TypeError::UnknownWireType { value } => {
            push_str(out, "unknown wire type ");
            push_decimal(out, value);
        },
        TypeError::InvalidEnumValue { enum_name, value } => {
            push_str(out, "invalid ");
            push_str(out, enum_name);
            push_str(out, " value ");
            push_decimal(out, value);
        },
        TypeError::InvalidUtf8 { field } => {
            push_str(out, "invalid UTF-8 in field ");
            push_str(out, field);
        },
        TypeError::ValueOutOfRange { field, value } => {
            push_str(out, "value ");
            push_decimal(out, value);
            push_str(out, " out of range for field ");
            push_str(out, field);
        },
        TypeError::Wire(w) => push_wire_message(out, w),
    }
    assert(out@ =~= old(out)@ + spec_type_message(e));
}

impl TypeError {
    /// The text of this error.
    pub fn message(&self) -> (r: String)
        ensures
            r@ == spec_type_message(*self),
    {
        let mut out = String::new();
        push_type_message(&mut out, *self);
        out
    }
}

/// The text of a decoding error.
pub open spec fn spec_decode_message(e: DecodeErrorView) -> Seq<char> {
    match e {
        DecodeErrorView::InvalidHeader(w) => "invalid header: "@ + spec_wire_message(w),
        DecodeErrorView::BlockTooLarge { size, offset } => "block body too large: "@ + spec_decimal(size as nat)
            + " bytes at offset "@ + spec_decimal(offset as nat),
        DecodeErrorView::MissingField { block_type, field_name, field_id } => "required field "@ + field_name@
            + " (id="@ + spec_decimal(field_id as nat) + ") missing in "@ + block_type@ + " block"@,
        DecodeErrorView::InvalidUtf8 { block_type, field_name } => "invalid UTF-8 in field "@ + field_name@ + " of "@
            + block_type@ + " block"@,
        DecodeErrorView::MissingEndSentinel => "payload does not end with END sentinel"@,
        DecodeErrorView::TrailingData { extra_bytes } => "unexpected data after END sentinel ("@ + spec_decimal(
            extra_bytes as nat,
        ) + " bytes)"@,
        DecodeErrorView::DecompressFailed(m) => "zstd decompression failed: "@ + m,
        DecodeErrorView::DecompressionBomb { actual, limit } => "decompressed size "@ + spec_decimal(actual as nat)
            + " exceeds limit "@ + spec_decimal(limit as nat),
        DecodeErrorView::UnresolvedReference { .. } => "unresolved reference: BLAKE3 hash not found in content store"@,
        DecodeErrorView::MissingContentStore => "block has IS_REFERENCE flag but no content store was provided"@,
        DecodeErrorView::Type(t) => spec_type_message(t),
        DecodeErrorView::Wire(w) => spec_wire_message(w),
    }
}

impl DecodeError {
    /// The text of this error.
    pub fn message(&self) -> (r: String)
        ensures
            r@ == spec_decode_message(self@),
    {
        let mut out = String::new();
        match self {
            DecodeError::InvalidHeader(w) => {
                push_str(&mut out, "invalid header: ");
                push_wire_message(&mut out, *w);
            },
            DecodeError::BlockTooLarge { size, offset } => {
                push_str(&mut out, "block body too large: ");
                push_decimal(&mut out, *size as u64);
                push_str(&mut out, " bytes at offset ");
                push_decimal(&mut out, *offset as u64);
            },
            DecodeError::MissingField { block_type, field_name, field_id } => {
                push_str(&mut out, "required field ");
                push_str(&mut out, field_name);
                push_str(&mut out, " (id=");
                push_decimal(&mut out, *field_id);
                push_str(&mut out, ") missing in ");
                push_str(&mut out, block_type);
                push_str(&mut out, " block");
            },
            DecodeError::InvalidUtf8 { block_type, field_name } => {
                push_str(&mut out, "invalid UTF-8 in field ");
                push_str(&mut out, field_name);
                push_str(&mut out, " of ");
                push_str(&mut out, block_type);
                push_str(&mut out, " block");
            },
            DecodeError::MissingEndSentinel => push_str(&mut out, "payload does not end with END sentinel"),
            DecodeError::TrailingData { extra_bytes } => {
                push_str(&mut out, "unexpected data after END sentinel (");
                push_decimal(&mut out, *extra_bytes as u64);
                push_str(&mut out, " bytes)");
            },
            DecodeError::DecompressFailed(m) => {
                push_str(&mut out, "zstd decompression failed: ");
                push_str(&mut out, m.as_str());
            },
            DecodeError::DecompressionBomb { actual, limit } => {
                push_str(&mut out, "decompressed size ");
                push_decimal(&mut out, *actual as u64);
                push_str(&mut out, " exceeds limit ");
                push_decimal(&mut out, *limit as u64);
            },
            DecodeError::UnresolvedReference { .. } => push_str(
                &mut out,
                "unresolved reference: BLAKE3 hash not found in content store",
            ),
            DecodeError::MissingContentStore => push_str(
                &mut out,
                "block has IS_REFERENCE flag but no content store was provided",
            ),
            DecodeError::Type(t) => push_type_message(&mut out, *t),
            DecodeError::Wire(w) => push_wire_message(&mut out, *w),
        }
        assert(out@ =~= spec_decode_message(self@));
        out
    }
}

/// Two lower-case hex digits of a byte.
pub open spec fn spec_hex2_low(b: u8) -> Seq<char> {
    crate::inspect::spec_hex2_lower(b)
}

/// The hex of the first bytes of a hash, at most eight.
pub open spec fn spec_hash_prefix(h: Seq<u8>) -> Seq<char>
    decreases h.len(),
{
    if h.len() == 0 {
        Seq::empty()
    } else {
        spec_hash_prefix(h.drop_last()) + spec_hex2_low(h.last())
    }
}

/// The diagnostic the `validate` command prints for a decoding error.
pub open spec fn spec_diagnostic(e: DecodeErrorView) -> Seq<char> {
    match e {
        DecodeErrorView::InvalidHeader(w) => "invalid header — "@ + spec_wire_message(w),
        DecodeErrorView::MissingEndSentinel => "missing END sentinel"@,
        DecodeErrorView::TrailingData { extra_bytes } => "trailing data after END ("@ + spec_decimal(extra_bytes as nat)
            + " bytes)"@,
        DecodeErrorView::MissingContentStore => "content-addressed block with no store"@,
        DecodeErrorView::UnresolvedReference { hash } => "unresolved BLAKE3 reference "@ + spec_hash_prefix(hash.take(8))
            + "…"@,
        _ => spec_decode_message(e),
    }
}

/// The diagnostic the `validate` command prints for a decoding error.
pub fn decode_error_diagnostic(e: &DecodeError) -> (r: String)
    ensures
        r@ == spec_diagnostic(e@),
{
    let mut out = String::new();
    match e {
        DecodeError::InvalidHeader(w) => {
            push_str(&mut out, "invalid header — ");
            push_wire_message(&mut out, *w);
        },
        DecodeError::MissingEndSentinel => push_str(&mut out, "missing END sentinel"),
        DecodeError::TrailingData { extra_bytes } => {
            push_str(&mut out, "trailing data after END (");
            push_decimal(&mut out, *extra_bytes as u64);
            push_str(&mut out, " bytes)");
        },
        DecodeError::MissingContentStore => push_str(
            &mut out,
            "content-addressed block with no store",
        ),
        DecodeError::UnresolvedReference { hash } => {
            push_str(&mut out, "unresolved BLAKE3 reference ");
            let ghost h = hash@.take(8);
            let ghost start = out@;
            let mut i: usize = 0;
            assert(h.take(0) =~= Seq::<u8>::empty());
            assert(start + Seq::<char>::empty() =~= start);
            while i < 8
                invariant
                    i <= 8,
                    hash@.len() == 32,
                    h == hash@.take(8),
                    out@ == start + spec_hash_prefix(h.take(i as int)),
                decreases 8 - i,
            {
                let b = hash[i];
                let hi = b / 16;
                let lo = b % 16;
                let ch = if hi < 10 { 48u8 + hi } else { 87u8 + hi };
                let cl = if lo < 10 { 48u8 + lo } else { 87u8 + lo };
                crate::text::push_char(&mut out, ch as char);
                crate::text::push_char(&mut out, cl as char);
                assert(h.take(i + 1).drop_last() =~= h.take(i as int));
                assert(h.take(i + 1).last() == b);
                i = i + 1;
            }
            assert(h.take(8) =~= h);
            push_str(&mut out, "…");
        },
        _ => {
            let m = e.message();
            push_str(&mut out, m.as_str());
        },
    }
    assert(out@ =~= spec_diagnostic(e@));
    out
}

/// What the `validate` command prints for a payload that decodes.
pub open spec fn spec_validation_ok(p: PayloadModel) -> Seq<char> {
    "✓ Header: valid (BCP v"@ + spec_decimal(p.header.version_major as nat) + "."@ + spec_decimal(
        p.header.version_minor as nat,
    ) + ")\n"@ + "✓ Blocks: "@ + spec_decimal(p.blocks.len()) + " block"@ + (if p.blocks.len() == 1 {
        Seq::<char>::empty()
    } else {
        "s"@
    }) + " parsed successfully\n"@ + "✓ Sentinel: END block present\n"@
        + "✓ Integrity: all block bodies parse without error\n"@
}

/// What the `validate` command prints for a payload that does not decode.
pub open spec fn spec_validation_err(e: DecodeErrorView) -> Seq<char> {
    "✗ Error: "@ + spec_diagnostic(e) + "\n"@
}

/// The report of the `validate` command on the outcome of decoding: the
/// checks passed, or the diagnostic of the error.
pub fn validation_report(result: &Result<DecodedPayload, DecodeError>) -> (r: String)
    ensures
        result matches Ok(p) ==> r@ == spec_validation_ok(p@),
        result matches Err(e) ==> r@ == spec_validation_err(e@),
{
    let mut out = String::new();
    match result {
        Ok(p) => {
            push_str(&mut out, "✓ Header: valid (BCP v");
            push_decimal(&mut out, p.header.version_major as u64);
            push_str(&mut out, ".");
            push_decimal(&mut out, p.header.version_minor as u64);
            push_str(&mut out, ")\n");
            push_str(&mut out, "✓ Blocks: ");
            push_decimal(&mut out, p.blocks.len() as u64);
            push_str(&mut out, " block");
            if p.blocks.len() != 1 {
                push_str(&mut out, "s");
            }
            push_str(&mut out, " parsed successfully\n");
            push_str(&mut out, "✓ Sentinel: END block present\n");
            push_str(&mut out, "✓ Integrity: all block bodies parse without error\n");
            assert(out@ =~= spec_validation_ok(p@));
        },
        Err(e) => {
            push_str(&mut out, "✗ Error: ");
            push_str(&mut out, decode_error_diagnostic(e).as_str());
            push_str(&mut out, "\n");
            assert(out@ =~= spec_validation_err(e@));
        },
    }
    out
}

/// The text of an encoding error.
pub open spec fn spec_encode_message(e: EncodeError) -> Seq<char> {
    match e {
        EncodeError::EmptyPayload => "no blocks have been added to the encoder"@,
        EncodeError::BlockTooLarge { size, limit } => "block body exceeds maximum size ("@ + spec_decimal(size as nat)
            + " bytes, limit "@ + spec_decimal(limit as nat) + ")"@,
        EncodeError::InvalidSummaryTarget => "with_summary called but no blocks have been added yet"@,
        EncodeError::MissingContentStore => "content addressing requested but no content store is set"@,
        EncodeError::Wire(w) => spec_wire_message(w),
    }
}

impl EncodeError {
    /// The text of this error.
    pub fn message(&self) -> (r: String)
        ensures
            r@ == spec_encode_message(*self),
    {
        let mut out = String::new();
        match self {
            EncodeError::EmptyPayload => push_str(&mut out, "no blocks have been added to the encoder"),
            EncodeError::BlockTooLarge { size, limit } => {
                push_str(&mut out, "block body exceeds maximum size (");
                push_decimal(&mut out, *size as u64);
                push_str(&mut out, " bytes, limit ");
                push_decimal(&mut out, *limit as u64);
                push_str(&mut out, ")");
            },
            EncodeError::InvalidSummaryTarget => push_str(
                &mut out,
                "with_summary called but no blocks have been added yet",
            ),
            EncodeError::MissingContentStore => push_str(
                &mut out,
                "content addressing requested but no content store is set",
            ),
            EncodeError::Wire(w) => push_wire_message(&mut out, *w),
        }
        assert(out@ =~= spec_encode_message(*self));
        out
    }
}

/// How `Debug` writes a block type.
pub open spec fn spec_block_type_debug(t: BlockType) -> Seq<char> {
    match t {
        BlockType::Code => "Code"@,
        BlockType::Conversation => "Conversation"@,
        BlockType::FileTree => "FileTree"@,
        BlockType::ToolResult => "ToolResult"@,
        BlockType::Document => "Document"@,
        BlockType::StructuredData => "StructuredData"@,
        BlockType::Diff => "Diff"@,
        BlockType::Annotation => "Annotation"@,
        BlockType::EmbeddingRef => "EmbeddingRef"@,
        BlockType::Image => "Image"@,
        BlockType::Extension => "Extension"@,
        BlockType::End => "End"@,
        BlockType::Unknown(id) => "Unknown("@ + spec_decimal(id as nat) + ")"@,
    }
}

fn push_block_type_debug(out: &mut String, t: BlockType)
    ensures
        final(out)@ == old(out)@ + spec_block_type_debug(t),
{
    match t {
        BlockType::Code => push_str(out, "Code"),
        BlockType::Conversation => push_str(out, "Conversation"),
        BlockType::FileTree => push_str(out, "FileTree"),
        BlockType::ToolResult => push_str(out, "ToolResult"),
        BlockType::Document => push_str(out, "Document"),
        BlockType::StructuredData => push_str(out, "StructuredData"),
        BlockType::Diff => push_str(out, "Diff"),
        BlockType::Annotation => push_str(out, "Annotation"),
        BlockType::EmbeddingRef => push_str(out, "EmbeddingRef"),
        BlockType::Image => push_str(out, "Image"),
        BlockType::Extension => push_str(out, "Extension"),
        BlockType::End => push_str(out, "End"),
        BlockType::Unknown(id) => {
            push_str(out, "Unknown(");
            push_decimal(out, id as u64);
            push_str(out, ")");
        },
    }
    assert(out@ =~= old(out)@ + spec_block_type_debug(t));
}

/// The text of a rendering error.
pub open spec fn spec_driver_message(e: DriverError) -> Seq<char> {
    match e {
        DriverError::EmptyInput => "no blocks to render"@,
        DriverError::UnsupportedBlockType { block_type } => "unsupported block type for rendering: "@
            + spec_block_type_debug(block_type),
        DriverError::InvalidContent { block_index } => "invalid UTF-8 in block content at index "@ + spec_decimal(
            block_index as nat,
        ),
    }
}

impl DriverError {
    /// The text of this error.
    pub fn message(&self) -> (r: String)
        ensures
            r@ == spec_driver_message(*self),
    {
        let mut out = String::new();
        match self {
            DriverError::EmptyInput => push_str(&mut out, "no blocks to render"),
            DriverError::UnsupportedBlockType { block_type } => {
                push_str(&mut out, "unsupported block type for rendering: ");
                push_block_type_debug(&mut out, *block_type);
            },
            DriverError::InvalidContent { block_index } => {
                push_str(&mut out, "invalid UTF-8 in block content at index ");
                push_decimal(&mut out, *block_index as u64);
            },
        }
        assert(out@ =~= spec_driver_message(*self));
        out
    }
}

/// The text of a command-line or manifest error: the name given, quoted,
/// and the names that mean something.
pub open spec fn spec_cli_message(e: CliErrorView) -> Seq<char> {
    match e {
        CliErrorView::UnknownMode(s) => "unknown mode "@ + spec_debug_str(s) + " — expected xml|markdown|minimal"@,
        CliErrorView::UnknownVerbosity(s) => "unknown verbosity "@ + spec_debug_str(s)
            + " — expected full|summary|adaptive"@,
        CliErrorView::UnknownBlockType(s) => "unknown block type "@ + spec_debug_str(s),
        CliErrorView::UnknownRole(s) => "unknown role "@ + spec_debug_str(s) + " — expected system|user|assistant|tool"@,
        CliErrorView::UnknownStatus(s) => "unknown status "@ + spec_debug_str(s) + " — expected ok|error|timeout"@,
        CliErrorView::UnknownPriority(s) => "unknown priority "@ + spec_debug_str(s)
            + " — expected critical|high|normal|low|background"@,
        CliErrorView::UnknownFormat(s) => "unknown document format "@ + spec_debug_str(s)
            + " — expected markdown|plain|html"@,
        CliErrorView::UnknownDataFormat(s) => "unknown data format "@ + spec_debug_str(s)
            + " — expected json|yaml|toml|csv"@,
        CliErrorView::MissingContent(t) => t + " block requires either \"content\" or \"content_file\""@,
    }
}

fn push_quoted(out: &mut String, prefix: &str, s: &String, suffix: &str)
    ensures
        final(out)@ == old(out)@ + prefix@ + spec_debug_str(s@) + suffix@,
{
    push_str(out, prefix);
    push_str(out, debug_str(s.as_str()).as_str());
    push_str(out, suffix);
    assert(out@ =~= old(out)@ + prefix@ + spec_debug_str(s@) + suffix@);
}

impl CliError {
    /// The text of this error.
    pub fn message(&self) -> (r: String)
        ensures
            r@ == spec_cli_message(self@),
    {
        let mut out = String::new();
        match self {
            CliError::UnknownMode(s) => push_quoted(&mut out, "unknown mode ", s, " — expected xml|markdown|minimal"),
            CliError::UnknownVerbosity(s) => push_quoted(
                &mut out,
                "unknown verbosity ",
                s,
                " — expected full|summary|adaptive",
            ),
            CliError::UnknownBlockType(s) => push_quoted(&mut out, "unknown block type ", s, ""),
            CliError::UnknownRole(s) => push_quoted(
                &mut out,
                "unknown role ",
                s,
                " — expected system|user|assistant|tool",
            ),
            CliError::UnknownStatus(s) => push_quoted(&mut out, "unknown status ", s, " — expected ok|error|timeout"),
            CliError::UnknownPriority(s) => push_quoted(
                &mut out,
                "unknown priority ",
                s,
                " — expected critical|high|normal|low|background",
            ),
            CliError::UnknownFormat(s) => push_quoted(
                &mut out,
                "unknown document format ",
                s,
                " — expected markdown|plain|html",
            ),
            CliError::UnknownDataFormat(s) => push_quoted(
                &mut out,
                "unknown data format ",
                s,
                " — expected json|yaml|toml|csv",
            ),
            CliError::MissingContent(t) => {
                push_str(&mut out, t.as_str());
                push_str(&mut out, " block requires either \"content\" or \"content_file\"");
            },
        }
        proof {
            reveal_strlit("");
        }
        assert(out@ =~= spec_cli_message(self@));
        out
    }
}

} // verus!
