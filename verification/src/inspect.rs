//! The report of the `inspect` command: one line per block with its type,
//! details and size, and optional previews of its body.
use vstd::prelude::*;
use vstd::string::StrSliceExecFns;
use crate::block::{Block, BlockContent, BlockModel, ContentModel};
use crate::cli::InspectArgs;
use crate::decoder::{DecodedPayload, PayloadModel};
use crate::blocks::DiffHunkModel;
use crate::enums::{
    AnnotationKind, DataFormat, Lang, MediaType, Priority, Role, Status, lemma_priority_roundtrip, spec_priority_byte,
    spec_priority_from_byte,
};
use crate::cli::spec_parse_priority;
use crate::header::BcpHeader;
use crate::text::{push_char, push_decimal, push_hex2, push_str, spec_decimal, spec_hex2, spec_utf8_lossy, utf8_lossy};

verus! {

/// What `format!("{:?}", s)` writes for a string: it quoted, with
/// escapes.
pub uninterp spec fn spec_debug_str(s: Seq<char>) -> Seq<char>;

/// Calls the `Debug` formatting of `str` through `format!`. The contract
/// names the result.
#[verifier::external_body]
pub(crate) fn debug_str(s: &str) -> (r: String)
    ensures
        r@ == spec_debug_str(s@),
{
    format!("{s:?}")
}

/// The upper-case name of a block's type.
pub open spec fn spec_block_type_label(c: ContentModel) -> Seq<char> {
    match c {
        ContentModel::Code(_) => "CODE"@,
        ContentModel::Conversation(_) => "CONVERSATION"@,
        ContentModel::FileTree(_) => "FILE_TREE"@,
        ContentModel::ToolResult(_) => "TOOL_RESULT"@,
        ContentModel::Document(_) => "DOCUMENT"@,
        ContentModel::StructuredData(_) => "STRUCTURED_DATA"@,
        ContentModel::Diff(_) => "DIFF"@,
        ContentModel::Annotation(_) => "ANNOTATION"@,
        ContentModel::EmbeddingRef(_) => "EMBEDDING_REF"@,
        ContentModel::Image(_) => "IMAGE"@,
        ContentModel::Extension(_) => "EXTENSION"@,
        ContentModel::End => "END"@,
        ContentModel::Unknown { .. } => "UNKNOWN"@,
    }
}

/// The upper-case name of a block's type.
pub fn block_type_label(content: &BlockContent) -> (r: &'static str)
    ensures
        r@ == spec_block_type_label(content@),
{
    match content {
        BlockContent::Code(_) => "CODE",
        BlockContent::Conversation(_) => "CONVERSATION",
        BlockContent::FileTree(_) => "FILE_TREE",
        BlockContent::ToolResult(_) => "TOOL_RESULT",
        BlockContent::Document(_) => "DOCUMENT",
        BlockContent::StructuredData(_) => "STRUCTURED_DATA",
        BlockContent::Diff(_) => "DIFF",
        BlockContent::Annotation(_) => "ANNOTATION",
        BlockContent::EmbeddingRef(_) => "EMBEDDING_REF",
        BlockContent::Image(_) => "IMAGE",
        BlockContent::Extension(_) => "EXTENSION",
        BlockContent::End => "END",
        BlockContent::Unknown { .. } => "UNKNOWN",
    }
}

/// The lower-case variant name of a language (`other(n)` for others).
pub open spec fn spec_lang_lower(l: Lang) -> Seq<char> {
    match l {
        Lang::Rust => "rust"@,
        Lang::TypeScript => "typescript"@,
        Lang::JavaScript => "javascript"@,
        Lang::Python => "python"@,
        Lang::Go => "go"@,
        Lang::Java => "java"@,
        Lang::C => "c"@,
        Lang::Cpp => "cpp"@,
        Lang::Ruby => "ruby"@,
        Lang::Shell => "shell"@,
        Lang::Sql => "sql"@,
        Lang::Html => "html"@,
        Lang::Css => "css"@,
        Lang::Json => "json"@,
        Lang::Yaml => "yaml"@,
        Lang::Toml => "toml"@,
        Lang::Markdown => "markdown"@,
        Lang::Unknown => "unknown"@,
        Lang::Other(b) => "other("@ + spec_decimal(b as nat) + ")"@,
    }
}

fn push_lang_lower(out: &mut String, l: Lang)
    ensures
        final(out)@ == old(out)@ + spec_lang_lower(l),
{
    match l {
        Lang::Rust => push_str(out, "rust"),
        Lang::TypeScript => push_str(out, "typescript"),
        Lang::JavaScript => push_str(out, "javascript"),
        Lang::Python => push_str(out, "python"),
        Lang::Go => push_str(out, "go"),
        Lang::Java => push_str(out, "java"),
        Lang::C => push_str(out, "c"),
        Lang::Cpp => push_str(out, "cpp"),
        Lang::Ruby => push_str(out, "ruby"),
        Lang::Shell => push_str(out, "shell"),
        Lang::Sql => push_str(out, "sql"),
        Lang::Html => push_str(out, "html"),
        Lang::Css => push_str(out, "css"),
        Lang::Json => push_str(out, "json"),
        Lang::Yaml => push_str(out, "yaml"),
        Lang::Toml => push_str(out, "toml"),
        Lang::Markdown => push_str(out, "markdown"),
        Lang::Unknown => push_str(out, "unknown"),
        Lang::Other(b) => {
            push_str(out, "other(");
            push_decimal(out, b as u64);
            push_str(out, ")");
        },
    }
    assert(out@ =~= old(out)@ + spec_lang_lower(l));
}

/// The lower-case variant name of a role.
pub open spec fn spec_role_lower(r: Role) -> Seq<char> {
    match r {
        Role::System => "system"@,
        Role::User => "user"@,
        Role::Assistant => "assistant"@,
        Role::Tool => "tool"@,
    }
}

fn role_lower(r: Role) -> (s: &'static str)
    ensures
        s@ == spec_role_lower(r),
{
    match r {
        Role::System => "system",
        Role::User => "user",
        Role::Assistant => "assistant",
        Role::Tool => "tool",
    }
}

/// The lower-case variant name of a tool status.
pub open spec fn spec_status_lower(s: Status) -> Seq<char> {
    match s {
        Status::Success => "ok"@,
        Status::Error => "error"@,
        Status::Timeout => "timeout"@,
    }
}

fn status_lower(s: Status) -> (r: &'static str)
    ensures
        r@ == spec_status_lower(s),
{
    match s {
        Status::Success => "ok",
        Status::Error => "error",
        Status::Timeout => "timeout",
    }
}

/// The lower-case variant name of a data format.
pub open spec fn spec_format_lower(f: DataFormat) -> Seq<char> {
    match f {
        DataFormat::Json => "json"@,
        DataFormat::Yaml => "yaml"@,
        DataFormat::Toml => "toml"@,
        DataFormat::Csv => "csv"@,
    }
}

fn format_lower(f: DataFormat) -> (r: &'static str)
    ensures
        r@ == spec_format_lower(f),
{
    match f {
        DataFormat::Json => "json",
        DataFormat::Yaml => "yaml",
        DataFormat::Toml => "toml",
        DataFormat::Csv => "csv",
    }
}

/// The lower-case variant name of an image type.
pub open spec fn spec_media_lower(m: MediaType) -> Seq<char> {
    match m {
        MediaType::Png => "png"@,
        MediaType::Jpeg => "jpeg"@,
        MediaType::Gif => "gif"@,
        MediaType::Svg => "svg"@,
        MediaType::Webp => "webp"@,
    }
}

fn media_lower(m: MediaType) -> (r: &'static str)
    ensures
        r@ == spec_media_lower(m),
{
    match m {
        MediaType::Png => "png",
        MediaType::Jpeg => "jpeg",
        MediaType::Gif => "gif",
        MediaType::Svg => "svg",
        MediaType::Webp => "webp",
    }
}

/// The lower-case variant name of a priority.
pub open spec fn spec_priority_lower(p: Priority) -> Seq<char> {
    match p {
        Priority::Critical => "critical"@,
        Priority::High => "high"@,
        Priority::Normal => "normal"@,
        Priority::Low => "low"@,
        Priority::Background => "background"@,
    }
}

/// The name of an annotation kind.
pub open spec fn spec_annotation_kind_label(k: AnnotationKind) -> Seq<char> {
    match k {
        AnnotationKind::Priority => "priority"@,
        AnnotationKind::Summary => "summary"@,
        AnnotationKind::Tag => "tag"@,
    }
}

/// The name of an annotation kind.
pub fn annotation_kind_label(kind: AnnotationKind) -> (r: &'static str)
    ensures
        r@ == spec_annotation_kind_label(kind),
{
    match kind {
        AnnotationKind::Priority => "priority",
        AnnotationKind::Summary => "summary",
        AnnotationKind::Tag => "tag",
    }
}

/// The value of an annotation as text: the priority it names, else its
/// bytes decoded leniently.
pub open spec fn spec_annotation_value(kind: AnnotationKind, value: Seq<u8>) -> Seq<char> {
    if kind == AnnotationKind::Priority && value.len() > 0 && spec_priority_from_byte(value[0]) is Ok {
        spec_priority_lower(spec_priority_from_byte(value[0])->Ok_0)
    } else {
        spec_utf8_lossy(value)
    }
}

/// The value of an annotation as text.
pub fn format_annotation_value(kind: AnnotationKind, value: &[u8]) -> (r: String)
    ensures
        r@ == spec_annotation_value(kind, value@),
{
    if kind == AnnotationKind::Priority && value.len() > 0 {
        match Priority::from_wire_byte(value[0]) {
            Ok(p) => {
                let mut out = String::new();
                let name = match p {
                    Priority::Critical => "critical",
                    Priority::High => "high",
                    Priority::Normal => "normal",
                    Priority::Low => "low",
                    Priority::Background => "background",
                };
                push_str(&mut out, name);
                return out;
            },
            Err(_) => {},
        }
    }
    utf8_lossy(value)
}

/// The value shown for a priority annotation names its priority: read
/// back as a manifest priority name, it gives the priority whose byte the
/// value starts with, whatever bytes follow.
pub proof fn lemma_priority_value_names_priority(p: Priority, rest: Seq<u8>)
    ensures
        spec_parse_priority(spec_annotation_value(AnnotationKind::Priority, seq![spec_priority_byte(p)] + rest))
            == Some(p),
{
    lemma_priority_roundtrip(p);
    let v = seq![spec_priority_byte(p)] + rest;
    assert(v[0] == spec_priority_byte(p));
    assert(spec_annotation_value(AnnotationKind::Priority, v) == spec_priority_lower(p));
    reveal_strlit("critical");
    reveal_strlit("high");
    reveal_strlit("normal");
    reveal_strlit("low");
    reveal_strlit("background");
    match p {
        Priority::Critical => {},
        Priority::High => {
            assert("high"@ != "critical"@);
        },
        Priority::Normal => {
            assert("normal"@ != "critical"@);
            assert("normal"@ != "high"@);
        },
        Priority::Low => {
            assert("low"@ != "critical"@);
            assert("low"@ != "high"@);
            assert("low"@ != "normal"@);
        },
        Priority::Background => {
            assert("background"@ != "critical"@);
            assert("background"@ != "high"@);
            assert("background"@ != "normal"@);
            assert("background"@ != "low"@);
        },
    }
}

/// The details after a block's type in its line.
pub open spec fn spec_block_detail(c: ContentModel) -> Seq<char> {
    match c {
        ContentModel::Code(x) => " ["@ + spec_lang_lower(x.lang) + "] path="@ + spec_debug_str(x.path),
        ContentModel::Conversation(x) => " ["@ + spec_role_lower(x.role) + "]"@,
        ContentModel::FileTree(x) => " root="@ + spec_debug_str(x.root_path),
        ContentModel::ToolResult(x) => " ["@ + x.tool_name + "] status="@ + spec_status_lower(x.status),
        ContentModel::Document(x) => " title="@ + spec_debug_str(x.title),
        ContentModel::StructuredData(x) => " format="@ + spec_format_lower(x.format),
        ContentModel::Diff(x) => " path="@ + spec_debug_str(x.path),
        ContentModel::Annotation(x) => " target="@ + spec_decimal(x.target_block_id as nat) + " kind="@
            + spec_annotation_kind_label(x.kind) + " value="@ + spec_debug_str(spec_annotation_value(x.kind, x.value)),
        ContentModel::EmbeddingRef(_) => " [embedding ref]"@,
        ContentModel::Image(x) => " ["@ + spec_media_lower(x.media_type) + "] alt="@ + spec_debug_str(x.alt_text),
        ContentModel::Extension(x) => " namespace="@ + spec_debug_str(x.namespace) + " type="@ + spec_debug_str(
            x.extension_type,
        ),
        ContentModel::End => Seq::empty(),
        ContentModel::Unknown { type_id, .. } => " [0x"@ + spec_hex2(type_id) + "]"@,
    }
}

/// The details after a block's type in its line.
pub fn block_detail(content: &BlockContent) -> (r: String)
    ensures
        r@ == spec_block_detail(content@),
{
    let mut out = String::new();
    match content {
        BlockContent::Code(x) => {
            push_str(&mut out, " [");
            push_lang_lower(&mut out, x.lang);
            push_str(&mut out, "] path=");
            push_str(&mut out, debug_str(x.path.as_str()).as_str());
        },
        BlockContent::Conversation(x) => {
            push_str(&mut out, " [");
            push_str(&mut out, role_lower(x.role));
            push_str(&mut out, "]");
        },
        BlockContent::FileTree(x) => {
            push_str(&mut out, " root=");
            push_str(&mut out, debug_str(x.root_path.as_str()).as_str());
        },
        BlockContent::ToolResult(x) => {
            push_str(&mut out, " [");
            push_str(&mut out, x.tool_name.as_str());
            push_str(&mut out, "] status=");
            push_str(&mut out, status_lower(x.status));
        },
        BlockContent::Document(x) => {
            push_str(&mut out, " title=");
            push_str(&mut out, debug_str(x.title.as_str()).as_str());
        },
        BlockContent::StructuredData(x) => {
            push_str(&mut out, " format=");
            push_str(&mut out, format_lower(x.format));
        },
        BlockContent::Diff(x) => {
            push_str(&mut out, " path=");
            push_str(&mut out, debug_str(x.path.as_str()).as_str());
        },
        BlockContent::Annotation(x) => {
            push_str(&mut out, " target=");
            push_decimal(&mut out, x.target_block_id as u64);
            push_str(&mut out, " kind=");
            push_str(&mut out, annotation_kind_label(x.kind));
            push_str(&mut out, " value=");
            let v = format_annotation_value(x.kind, x.value.as_slice());
            push_str(&mut out, debug_str(v.as_str()).as_str());
        },
        BlockContent::EmbeddingRef(_) => push_str(&mut out, " [embedding ref]"),
        BlockContent::Image(x) => {
            push_str(&mut out, " [");
            push_str(&mut out, media_lower(x.media_type));
            push_str(&mut out, "] alt=");
            push_str(&mut out, debug_str(x.alt_text.as_str()).as_str());
        },
        BlockContent::Extension(x) => {
            push_str(&mut out, " namespace=");
            push_str(&mut out, debug_str(x.namespace.as_str()).as_str());
            push_str(&mut out, " type=");
            push_str(&mut out, debug_str(x.extension_type.as_str()).as_str());
        },
        BlockContent::End => {},
        BlockContent::Unknown { type_id, .. } => {
            push_str(&mut out, " [0x");
            push_hex2(&mut out, *type_id);
            push_str(&mut out, "]");
        },
    }
    assert(out@ =~= spec_block_detail(content@));
    out
}

/// The total length of the lines of some hunks.
pub open spec fn spec_hunk_bytes(hs: Seq<DiffHunkModel>) -> nat
    decreases hs.len(),
{
    if hs.len() == 0 {
        0
    } else {
        spec_hunk_bytes(hs.drop_last()) + hs.last().lines.len()
    }
}

/// A count that stops at the largest `usize`.
pub open spec fn spec_saturate(n: nat) -> usize {
    if n <= usize::MAX {
        n as usize
    } else {
        usize::MAX
    }
}

/// The body size reported for a block: the bytes of its main payload
/// (eight per top-level entry of a file tree, 32 for an embedding
/// reference), counted up to the largest `usize`.
pub open spec fn spec_body_bytes(c: ContentModel) -> usize {
    match c {
        ContentModel::Code(x) => spec_saturate(x.content.len()),
        ContentModel::Conversation(x) => spec_saturate(x.content.len()),
        ContentModel::FileTree(x) => spec_saturate(x.entries.len() * 8),
        ContentModel::ToolResult(x) => spec_saturate(x.content.len()),
        ContentModel::Document(x) => spec_saturate(x.content.len()),
        ContentModel::StructuredData(x) => spec_saturate(x.content.len()),
        ContentModel::Diff(x) => spec_saturate(spec_hunk_bytes(x.hunks)),
        ContentModel::Annotation(x) => spec_saturate(x.value.len()),
        ContentModel::EmbeddingRef(_) => 32,
        ContentModel::Image(x) => spec_saturate(x.data.len()),
        ContentModel::Extension(x) => spec_saturate(x.content.len()),
        ContentModel::End => 0,
        ContentModel::Unknown { body, .. } => spec_saturate(body.len()),
    }
}

/// The body size reported for a block.
pub fn block_body_bytes(content: &BlockContent) -> (r: usize)
    ensures
        r == spec_body_bytes(content@),
{
    match content {
        BlockContent::Code(x) => x.content.len(),
        BlockContent::Conversation(x) => x.content.len(),
        BlockContent::FileTree(x) => {
            proof {
                crate::file_tree::lemma_views_len(x.entries@);
            }
            let n = x.entries.len();
            if n <= usize::MAX / 8 {
                n * 8
            } else {
                usize::MAX
            }
        },
        BlockContent::ToolResult(x) => x.content.len(),
        BlockContent::Document(x) => x.content.len(),
        BlockContent::StructuredData(x) => x.content.len(),
        BlockContent::Diff(x) => {
            let ghost hs = x.hunks@.map_values(|h: crate::blocks::DiffHunk| h@);
            let mut total: usize = 0;
            let mut i: usize = 0;
            assert(hs.take(0) =~= Seq::<DiffHunkModel>::empty());
            while i < x.hunks.len()
                invariant
                    i <= x.hunks@.len(),
                    hs == x.hunks@.map_values(|h: crate::blocks::DiffHunk| h@),
                    total == spec_saturate(spec_hunk_bytes(hs.take(i as int))),
                decreases x.hunks@.len() - i,
            {
                assert(hs.take(i + 1).drop_last() =~= hs.take(i as int));
                total = total.saturating_add(x.hunks[i].lines.len());
                i = i + 1;
            }
            assert(hs.take(i as int) =~= hs);
            total
        },
        BlockContent::Annotation(x) => x.value.len(),
        BlockContent::EmbeddingRef(_) => 32,
        BlockContent::Image(x) => x.data.len(),
        BlockContent::Extension(x) => x.content.len(),
        BlockContent::End => 0,
        BlockContent::Unknown { body, .. } => body.len(),
    }
}

/// The raw payload of a block that has one; empty for the others.
pub open spec fn spec_body_raw(c: ContentModel) -> Seq<u8> {
    match c {
        ContentModel::Code(x) => x.content,
        ContentModel::Conversation(x) => x.content,
        ContentModel::ToolResult(x) => x.content,
        ContentModel::Document(x) => x.content,
        ContentModel::StructuredData(x) => x.content,
        ContentModel::Annotation(x) => x.value,
        ContentModel::Image(x) => x.data,
        ContentModel::Extension(x) => x.content,
        ContentModel::Unknown { body, .. } => body,
        _ => Seq::empty(),
    }
}

/// The raw payload of a block that has one; empty for the others.
pub fn block_body_raw(content: &BlockContent) -> (r: &[u8])
    ensures
        r@ == spec_body_raw(content@),
{
    match content {
        BlockContent::Code(x) => x.content.as_slice(),
        BlockContent::Conversation(x) => x.content.as_slice(),
        BlockContent::ToolResult(x) => x.content.as_slice(),
        BlockContent::Document(x) => x.content.as_slice(),
        BlockContent::StructuredData(x) => x.content.as_slice(),
        BlockContent::Annotation(x) => x.value.as_slice(),
        BlockContent::Image(x) => x.data.as_slice(),
        BlockContent::Extension(x) => x.content.as_slice(),
        BlockContent::Unknown { body, .. } => body.as_slice(),
        _ => &[],
    }
}

/// The raw payload of a block, decoded leniently.
pub fn block_body_lossy(content: &BlockContent) -> (r: String)
    ensures
        r@ == spec_utf8_lossy(spec_body_raw(content@)),
{
    utf8_lossy(block_body_raw(content))
}

/// The summary line of a payload.
pub open spec fn spec_header_line(h: BcpHeader, blocks: nat) -> Seq<char> {
    "Header: BCP v"@ + spec_decimal(h.version_major as nat) + "."@ + spec_decimal(h.version_minor as nat)
        + ", flags=0x"@ + spec_hex2(h.flags.bits) + ", "@ + spec_decimal(blocks) + " block"@ + if blocks == 1 {
        Seq::<char>::empty()
    } else {
        "s"@
    }
}

/// The summary line of a payload.
pub fn header_line(header: &BcpHeader, blocks: usize) -> (r: String)
    ensures
        r@ == spec_header_line(*header, blocks as nat),
{
    let mut out = String::new();
    push_str(&mut out, "Header: BCP v");
    push_decimal(&mut out, header.version_major as u64);
    push_str(&mut out, ".");
    push_decimal(&mut out, header.version_minor as u64);
    push_str(&mut out, ", flags=0x");
    push_hex2(&mut out, header.flags.bits);
    push_str(&mut out, ", ");
    push_decimal(&mut out, blocks as u64);
    push_str(&mut out, " block");
    if blocks != 1 {
        push_str(&mut out, "s");
    }
    assert(out@ =~= spec_header_line(*header, blocks as nat));
    out
}

/// The line of one block: index, type, details and body size.
pub open spec fn spec_block_line(idx: nat, c: ContentModel) -> Seq<char> {
    "Block "@ + spec_decimal(idx) + ": "@ + spec_block_type_label(c) + spec_block_detail(c) + " ("@ + spec_decimal(
        spec_body_bytes(c) as nat,
    ) + " bytes)"@
}

/// The line of one block: index, type, details and body size.
pub fn block_line(idx: usize, content: &BlockContent) -> (r: String)
    ensures
        r@ == spec_block_line(idx as nat, content@),
{
    let mut out = String::new();
    push_str(&mut out, "Block ");
    push_decimal(&mut out, idx as u64);
    push_str(&mut out, ": ");
    push_str(&mut out, block_type_label(content));
    push_str(&mut out, block_detail(content).as_str());
    push_str(&mut out, " (");
    push_decimal(&mut out, block_body_bytes(content) as u64);
    push_str(&mut out, " bytes)");
    out
}

/// The first 80 characters of a body, with an ellipsis when there are
/// more.
pub open spec fn spec_body_preview(s: Seq<char>) -> Seq<char> {
    if s.len() > 80 {
        s.take(80) + "…"@
    } else {
        s
    }
}

/// The first 80 characters of a body, with an ellipsis when there are
/// more.
pub fn body_preview(body: &str) -> (r: String)
    ensures
        r@ == spec_body_preview(body@),
{
    let n = body.unicode_len();
    let mut out = String::new();
    if n > 80 {
        push_str(&mut out, body.substring_char(0, 80));
        push_str(&mut out, "…");
    } else {
        push_str(&mut out, body);
    }
    out
}

/// The lower-case hex digit for `d < 16`.
pub open spec fn spec_hex_digit_lower(d: nat) -> char {
    if d < 10 {
        ((48 + d) as u8) as char
    } else {
        ((87 + d) as u8) as char
    }
}

/// Lower-case hex notation of `n`, without leading zeros.
pub open spec fn spec_hex_lower(n: nat) -> Seq<char>
    decreases n,
{
    if n < 16 {
        seq![spec_hex_digit_lower(n)]
    } else {
        spec_hex_lower(n / 16).push(spec_hex_digit_lower(n % 16))
    }
}

fn push_hex_lower(out: &mut String, n: u64)
    ensures
        final(out)@ == old(out)@ + spec_hex_lower(n as nat),
    decreases n,
{
    if n >= 16 {
        push_hex_lower(out, n / 16);
    }
    let d = (n % 16) as u8;
    let c = if d < 10 { 48u8 + d } else { 87u8 + d };
    push_char(out, c as char);
    assert(out@ =~= old(out)@ + spec_hex_lower(n as nat));
}

/// `s` padded on the left with zeros to `w` characters.
pub open spec fn spec_zero_pad(s: Seq<char>, w: nat) -> Seq<char> {
    if s.len() >= w {
        s
    } else {
        Seq::new((w - s.len()) as nat, |_i: int| '0') + s
    }
}

/// `s` padded on the right with spaces to `w` characters.
pub open spec fn spec_space_pad(s: Seq<char>, w: nat) -> Seq<char> {
    if s.len() >= w {
        s
    } else {
        s + Seq::new((w - s.len()) as nat, |_i: int| ' ')
    }
}

/// Two lower-case hex digits of a byte.
pub open spec fn spec_hex2_lower(b: u8) -> Seq<char> {
    seq![spec_hex_digit_lower((b / 16) as nat), spec_hex_digit_lower((b % 16) as nat)]
}

/// The hex of some bytes, space separated.
pub open spec fn spec_hex_bytes(bs: Seq<u8>) -> Seq<char>
    decreases bs.len(),
{
    if bs.len() == 0 {
        Seq::empty()
    } else if bs.len() == 1 {
        spec_hex2_lower(bs[0])
    } else {
        spec_hex_bytes(bs.drop_last()) + " "@ + spec_hex2_lower(bs.last())
    }
}

/// A byte as shown beside the hex: itself when printable ASCII, else `.`.
pub open spec fn spec_ascii_char(b: u8) -> char {
    if 0x21 <= b && b <= 0x7E {
        b as char
    } else {
        '.'
    }
}

/// One row of a hex dump: the offset (four hex digits at least), the hex
/// of the bytes padded to 48 characters, and their printable form.
pub open spec fn spec_hex_row(offset: usize, chunk: Seq<u8>) -> Seq<char> {
    spec_zero_pad(spec_hex_lower(offset as nat), 4) + "  "@ + spec_space_pad(spec_hex_bytes(chunk), 48) + "  "@
        + chunk.map_values(|b: u8| spec_ascii_char(b))
}

/// One row of a hex dump.
pub fn hex_dump_row(offset: usize, chunk: &[u8]) -> (r: String)
    ensures
        r@ == spec_hex_row(offset, chunk@),
{
    let mut digits = String::new();
    push_hex_lower(&mut digits, offset as u64);
    let mut out = String::new();
    let nd = digits.as_str().unicode_len();
    let mut k = nd;
    while k < 4
        invariant
            nd <= k <= 4 || (nd > 4 && k == nd),
            out@ == Seq::new((k - nd) as nat, |_i: int| '0'),
        decreases 4 - k,
    {
        push_char(&mut out, '0');
        k = k + 1;
        assert(out@ =~= Seq::new((k - nd) as nat, |_i: int| '0'));
    }
    push_str(&mut out, digits.as_str());
    assert(out@ =~= spec_zero_pad(spec_hex_lower(offset as nat), 4));
    push_str(&mut out, "  ");
    let mut hex = String::new();
    let mut i: usize = 0;
    assert(chunk@.take(0) =~= Seq::<u8>::empty());
    while i < chunk.len()
        invariant
            i <= chunk@.len(),
            hex@ == spec_hex_bytes(chunk@.take(i as int)),
        decreases chunk@.len() - i,
    {
        if i > 0 {
            push_str(&mut hex, " ");
        }
        push_hex2_lower(&mut hex, chunk[i]);
        assert(chunk@.take(i + 1).drop_last() =~= chunk@.take(i as int));
        assert(chunk@.take(i + 1).last() == chunk@[i as int]);
        if i == 0 {
            assert(chunk@.take(1)[0] == chunk@[0]);
            assert(hex@ =~= spec_hex_bytes(chunk@.take(1)));
        }
        i = i + 1;
    }
    assert(chunk@.take(i as int) =~= chunk@);
    let hl = hex.as_str().unicode_len();
    push_str(&mut out, hex.as_str());
    let ghost before_pad = out@;
    let mut p = hl;
    while p < 48
        invariant
            hl <= p <= 48 || (hl > 48 && p == hl),
            out@ == before_pad + Seq::new((p - hl) as nat, |_i: int| ' '),
        decreases 48 - p,
    {
        push_char(&mut out, ' ');
        p = p + 1;
        assert(out@ =~= before_pad + Seq::new((p - hl) as nat, |_i: int| ' '));
    }
    push_str(&mut out, "  ");
    let ghost before_ascii = out@;
    let mut j: usize = 0;
    while j < chunk.len()
        invariant
            j <= chunk@.len(),
            out@ == before_ascii + chunk@.take(j as int).map_values(|b: u8| spec_ascii_char(b)),
        decreases chunk@.len() - j,
    {
        let b = chunk[j];
        let c = if 0x21 <= b && b <= 0x7E { b as char } else { '.' };
        push_char(&mut out, c);
        assert(chunk@.take(j + 1).map_values(|b: u8| spec_ascii_char(b)) =~= chunk@.take(j as int).map_values(
            |b: u8| spec_ascii_char(b),
        ).push(c));
        j = j + 1;
    }
    assert(chunk@.take(j as int) =~= chunk@);
    assert(out@ =~= spec_hex_row(offset, chunk@));
    out
}

fn push_hex2_lower(out: &mut String, b: u8)
    ensures
        final(out)@ == old(out)@ + spec_hex2_lower(b),
{
    let hi = b / 16;
    let lo = b % 16;
    let ch = if hi < 10 { 48u8 + hi } else { 87u8 + hi };
    let cl = if lo < 10 { 48u8 + lo } else { 87u8 + lo };
    push_char(out, ch as char);
    push_char(out, cl as char);
    assert(out@ =~= old(out)@ + spec_hex2_lower(b));
}

/// The rows of a hex dump of `raw`, sixteen bytes a row, each indented
/// under its block; the first row starts at `offset`.
pub open spec fn spec_hex_dump(raw: Seq<u8>, offset: nat) -> Seq<char>
    decreases raw.len(),
{
    if raw.len() == 0 {
        Seq::empty()
    } else {
        let n: int = if raw.len() < 16 { raw.len() as int } else { 16 };
        "           "@ + spec_hex_row(offset as usize, raw.take(n)) + "\n"@ + spec_hex_dump(raw.skip(n), offset + 16)
    }
}

fn push_hex_dump(out: &mut String, raw: &[u8])
    ensures
        final(out)@ == old(out)@ + spec_hex_dump(raw@, 0),
{
    let ghost before = out@;
    let mut i: usize = 0;
    assert(raw@.skip(0) =~= raw@);
    while i < raw.len()
        invariant
            i <= raw@.len(),
            before + spec_hex_dump(raw@, 0) == out@ + spec_hex_dump(raw@.skip(i as int), i as nat),
        decreases raw@.len() - i,
    {
        let n: usize = if raw.len() - i < 16 { raw.len() - i } else { 16 };
        let chunk = vstd::slice::slice_subrange(raw, i, i + n);
        let ghost rest = raw@.skip(i as int);
        assert(rest.take(n as int) =~= chunk@);
        assert(rest.skip(n as int) =~= raw@.skip(i + n));
        let row = hex_dump_row(i, chunk);
        let ghost mid = out@;
        push_str(out, "           ");
        push_str(out, row.as_str());
        push_str(out, "\n");
        assert(spec_hex_dump(rest, i as nat) == "           "@ + spec_hex_row(i, chunk@) + "\n"@ + spec_hex_dump(
            raw@.skip(i + n),
            (i + 16) as nat,
        ));
        if n < 16 {
            assert(raw@.skip(i + n).len() == 0);
        }
        assert(spec_hex_dump(raw@.skip(i + n), (i + 16) as nat) == spec_hex_dump(raw@.skip(i + n), (i + n) as nat));
        assert(out@ =~= mid + ("           "@ + spec_hex_row(i, chunk@) + "\n"@));
        i = i + n;
    }
    assert(raw@.skip(i as int).len() == 0);
    assert(out@ =~= before + spec_hex_dump(raw@, 0));
}

/// What `inspect` shows of one block: its line, its summary, and on
/// request a preview of its body and a hex dump of it.
pub open spec fn spec_inspect_block(idx: nat, b: BlockModel, show_body: bool, show_hex: bool) -> Seq<char> {
    spec_block_line(idx, b.content) + "\n"@ + match b.summary {
        Some(s) => "         Summary: "@ + spec_debug_str(s) + "\n"@,
        None => Seq::empty(),
    } + if show_body {
        "         Body:    "@ + spec_body_preview(spec_utf8_lossy(spec_body_raw(b.content))) + "\n"@
    } else {
        Seq::empty()
    } + if show_hex {
        "         Hex dump:\n"@ + spec_hex_dump(spec_body_raw(b.content), 0)
    } else {
        Seq::empty()
    }
}

/// What `inspect` shows of the blocks: all of them, or only the one at
/// the index asked for.
pub open spec fn spec_inspect_blocks(bs: Seq<BlockModel>, show_body: bool, show_hex: bool, only: Option<usize>) -> Seq<char>
    decreases bs.len(),
{
    if bs.len() == 0 {
        Seq::empty()
    } else {
        let i = bs.len() - 1;
        spec_inspect_blocks(bs.drop_last(), show_body, show_hex, only) + if only matches Some(t) && t != i {
            Seq::empty()
        } else {
            spec_inspect_block(i as nat, bs.last(), show_body, show_hex)
        }
    }
}

/// The report of `inspect` on a payload read from a file of `file_len`
/// bytes: the header line, the blocks, and where the END sentinel starts.
pub open spec fn spec_inspect_report(p: PayloadModel, file_len: nat, show_body: bool, show_hex: bool, only: Option<usize>) -> Seq<char> {
    spec_header_line(p.header, p.blocks.len()) + "\n"@ + spec_inspect_blocks(p.blocks, show_body, show_hex, only) + "---\n"@
        + "END sentinel at offset "@ + spec_decimal(if file_len >= 4 { (file_len - 4) as nat } else { 0 }) + "\n"@
}

#[verifier::spinoff_prover]
#[verifier::rlimit(30)]
fn push_inspect_block(out: &mut String, idx: usize, block: &Block, show_body: bool, show_hex: bool)
    ensures
        final(out)@ == old(out)@ + spec_inspect_block(idx as nat, block@, show_body, show_hex),
{
    let ghost before = out@;
    push_str(out, block_line(idx, &block.content).as_str());
    push_str(out, "\n");
    let ghost after_line = out@;
    match &block.summary {
        Some(s) => {
            push_str(out, "         Summary: ");
            push_str(out, debug_str(s.text.as_str()).as_str());
            push_str(out, "\n");
        },
        None => {},
    }
    let ghost after_summary = out@;
    if show_body {
        let body = block_body_lossy(&block.content);
        push_str(out, "         Body:    ");
        push_str(out, body_preview(body.as_str()).as_str());
        push_str(out, "\n");
    }
    let ghost after_body = out@;
    if show_hex {
        push_str(out, "         Hex dump:\n");
        push_hex_dump(out, block_body_raw(&block.content));
    }
    assert(out@ =~= before + spec_inspect_block(idx as nat, block@, show_body, show_hex));
}

/// The report of the `inspect` command on a payload read from a file of
/// `file_len` bytes, as the arguments ask for it.
pub fn inspect_report(args: &InspectArgs, file_len: usize, decoded: &DecodedPayload) -> (r: String)
    ensures
        r@ == spec_inspect_report(decoded@, file_len as nat, args.show_body, args.show_hex, args.block),
{
    let ghost bs = decoded@.blocks;
    let mut out = header_line(&decoded.header, decoded.blocks.len());
    push_str(&mut out, "\n");
    let ghost head = out@;
    let mut i: usize = 0;
    assert(bs.take(0) =~= Seq::<BlockModel>::empty());
    while i < decoded.blocks.len()
        invariant
            i <= decoded.blocks@.len(),
            bs == decoded@.blocks,
            bs.len() == decoded.blocks@.len(),
            out@ == head + spec_inspect_blocks(bs.take(i as int), args.show_body, args.show_hex, args.block),
        decreases decoded.blocks@.len() - i,
    {
        assert(bs.take(i + 1).drop_last() =~= bs.take(i as int));
        assert(bs.take(i + 1).last() == decoded.blocks@[i as int]@);
        let skip = match args.block {
            Some(t) => t != i,
            None => false,
        };
        if !skip {
            push_inspect_block(&mut out, i, &decoded.blocks[i], args.show_body, args.show_hex);
        }
        i = i + 1;
        assert(out@ =~= head + spec_inspect_blocks(bs.take(i as int), args.show_body, args.show_hex, args.block));
    }
    assert(bs.take(i as int) =~= bs);
    push_str(&mut out, "---\n");
    push_str(&mut out, "END sentinel at offset ");
    let end = if file_len >= 4 { file_len - 4 } else { 0 };
    push_decimal(&mut out, end as u64);
    push_str(&mut out, "\n");
    assert(out@ =~= spec_inspect_report(decoded@, file_len as nat, args.show_body, args.show_hex, args.block));
    out
}

} // verus!
