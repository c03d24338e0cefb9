//! The typed block bodies and their TLV encoding. Each block type lists
//! its fields by id; decoding takes the last occurrence of a field, skips
//! fields it does not know (or of an unexpected wire type), and reports a
//! required field that is absent.
use vstd::prelude::*;
use vstd::string::StringSliceAdditionalSpecFns;
use vstd::utf8::encode_utf8;
use crate::enums::{
    AnnotationKind, DataFormat, FormatHint, Lang, MediaType, Role, Status,
    lemma_annotation_kind_roundtrip, lemma_data_format_roundtrip, lemma_format_hint_roundtrip,
    lemma_lang_roundtrip, lemma_media_type_roundtrip, lemma_role_roundtrip, lemma_status_roundtrip,
    spec_annotation_kind_byte, spec_annotation_kind_from_byte, spec_data_format_byte,
    spec_data_format_from_byte, spec_format_hint_byte, spec_format_hint_from_byte, spec_lang_byte,
    spec_lang_canonical, spec_lang_from_byte, spec_media_type_byte, spec_media_type_from_byte,
    spec_role_byte, spec_role_from_byte, spec_status_byte, spec_status_from_byte,
};
use crate::fields::{
    FieldModel, TypeError, encode_bytes_field, encode_varint_field, last_varint,
    lemma_fields_bytes_push, lemma_read_fields_roundtrip, opt_str, read_all_fields, req_bytes,
    req_str, req_varint, spec_all_canonical, spec_bytes_model, spec_canonical_field,
    spec_field_bytes, spec_fields_bytes, spec_last_bytes, spec_last_varint, spec_models,
    spec_opt_str, spec_read_fields, spec_req_bytes, spec_req_str, spec_req_varint, spec_str_model,
    spec_u32_value, spec_varint_model, u32_value,
};

verus! {

broadcast use vstd::utf8::encode_utf8_valid_utf8, vstd::utf8::encode_utf8_decode_utf8;

/// The view of an optional string.
pub open spec fn spec_opt_string(o: Option<String>) -> Option<Seq<char>> {
    match o {
        Some(s) => Some(s@),
        None => None,
    }
}

/// An enum byte carried in a varint; values above 255 name no variant.
pub open spec fn spec_lang_from_u64(v: u64) -> Result<Lang, TypeError> {
    if v > 255 {
        Err(TypeError::InvalidEnumValue { enum_name: "Lang", value: v })
    } else {
        Ok(spec_lang_from_byte(v as u8))
    }
}

fn lang_from_u64(v: u64) -> (r: Result<Lang, TypeError>)
    ensures
        r == spec_lang_from_u64(v),
{
    if v > 255 {
        Err(TypeError::InvalidEnumValue { enum_name: "Lang", value: v })
    } else {
        Ok(Lang::from_wire_byte(v as u8))
    }
}

pub open spec fn spec_role_from_u64(v: u64) -> Result<Role, TypeError> {
    if v > 255 {
        Err(TypeError::InvalidEnumValue { enum_name: "Role", value: v })
    } else {
        spec_role_from_byte(v as u8)
    }
}

fn role_from_u64(v: u64) -> (r: Result<Role, TypeError>)
    ensures
        r == spec_role_from_u64(v),
{
    if v > 255 {
        Err(TypeError::InvalidEnumValue { enum_name: "Role", value: v })
    } else {
        Role::from_wire_byte(v as u8)
    }
}

pub open spec fn spec_status_from_u64(v: u64) -> Result<Status, TypeError> {
    if v > 255 {
        Err(TypeError::InvalidEnumValue { enum_name: "Status", value: v })
    } else {
        spec_status_from_byte(v as u8)
    }
}

fn status_from_u64(v: u64) -> (r: Result<Status, TypeError>)
    ensures
        r == spec_status_from_u64(v),
{
    if v > 255 {
        Err(TypeError::InvalidEnumValue { enum_name: "Status", value: v })
    } else {
        Status::from_wire_byte(v as u8)
    }
}

pub open spec fn spec_format_hint_from_u64(v: u64) -> Result<FormatHint, TypeError> {
    if v > 255 {
        Err(TypeError::InvalidEnumValue { enum_name: "FormatHint", value: v })
    } else {
        spec_format_hint_from_byte(v as u8)
    }
}

fn format_hint_from_u64(v: u64) -> (r: Result<FormatHint, TypeError>)
    ensures
        r == spec_format_hint_from_u64(v),
{
    if v > 255 {
        Err(TypeError::InvalidEnumValue { enum_name: "FormatHint", value: v })
    } else {
        FormatHint::from_wire_byte(v as u8)
    }
}

pub open spec fn spec_data_format_from_u64(v: u64) -> Result<DataFormat, TypeError> {
    if v > 255 {
        Err(TypeError::InvalidEnumValue { enum_name: "DataFormat", value: v })
    } else {
        spec_data_format_from_byte(v as u8)
    }
}

fn data_format_from_u64(v: u64) -> (r: Result<DataFormat, TypeError>)
    ensures
        r == spec_data_format_from_u64(v),
{
    if v > 255 {
        Err(TypeError::InvalidEnumValue { enum_name: "DataFormat", value: v })
    } else {
        DataFormat::from_wire_byte(v as u8)
    }
}

pub open spec fn spec_media_type_from_u64(v: u64) -> Result<MediaType, TypeError> {
    if v > 255 {
        Err(TypeError::InvalidEnumValue { enum_name: "MediaType", value: v })
    } else {
        spec_media_type_from_byte(v as u8)
    }
}

fn media_type_from_u64(v: u64) -> (r: Result<MediaType, TypeError>)
    ensures
        r == spec_media_type_from_u64(v),
{
    if v > 255 {
        Err(TypeError::InvalidEnumValue { enum_name: "MediaType", value: v })
    } else {
        MediaType::from_wire_byte(v as u8)
    }
}

pub open spec fn spec_annotation_kind_from_u64(v: u64) -> Result<AnnotationKind, TypeError> {
    if v > 255 {
        Err(TypeError::InvalidEnumValue { enum_name: "AnnotationKind", value: v })
    } else {
        spec_annotation_kind_from_byte(v as u8)
    }
}

fn annotation_kind_from_u64(v: u64) -> (r: Result<AnnotationKind, TypeError>)
    ensures
        r == spec_annotation_kind_from_u64(v),
{
    if v > 255 {
        Err(TypeError::InvalidEnumValue { enum_name: "AnnotationKind", value: v })
    } else {
        AnnotationKind::from_wire_byte(v as u8)
    }
}

/// The optional line range of a code block: both ends or neither.
pub open spec fn spec_line_range(fs: Seq<FieldModel>) -> Result<Option<(u32, u32)>, TypeError> {
    match (spec_last_varint(fs, 4), spec_last_varint(fs, 5)) {
        (Some(a), Some(b)) => match spec_u32_value(a, "line_start") {
            Err(e) => Err(e),
            Ok(x) => match spec_u32_value(b, "line_end") {
                Err(e) => Err(e),
                Ok(y) => Ok(Some((x, y))),
            },
        },
        _ => Ok(None),
    }
}

fn line_range(fields: &Vec<crate::fields::RawField>) -> (r: Result<Option<(u32, u32)>, TypeError>)
    ensures
        r == spec_line_range(spec_models(fields@)),
{
    match (last_varint(fields, 4), last_varint(fields, 5)) {
        (Some(a), Some(b)) => {
            let x = match u32_value(a, "line_start") {
                Ok(x) => x,
                Err(e) => return Err(e),
            };
            let y = match u32_value(b, "line_end") {
                Ok(y) => y,
                Err(e) => return Err(e),
            };
            Ok(Some((x, y)))
        },
        _ => Ok(None),
    }
}

/// Source code with its language and path.
#[derive(Clone, Debug, PartialEq, Eq)]
pub struct CodeBlock {
    pub lang: Lang,
    pub path: String,
    pub content: Vec<u8>,
    pub line_range: Option<(u32, u32)>,
}

/// The view of a [`CodeBlock`].
pub struct CodeModel {
    pub lang: Lang,
    pub path: Seq<char>,
    pub content: Seq<u8>,
    pub line_range: Option<(u32, u32)>,
}

impl View for CodeBlock {
    type V = CodeModel;

    open spec fn view(&self) -> CodeModel {
        CodeModel {
            lang: self.lang,
            path: self.path@,
            content: self.content@,
            line_range: self.line_range,
        }
    }
}

/// The fields that encode a code block, in order.
pub open spec fn spec_code_fields(m: CodeModel) -> Seq<FieldModel> {
    match m.line_range {
        Some((a, b)) => seq![spec_varint_model(1, spec_lang_byte(m.lang) as u64), spec_str_model(2, m.path), spec_bytes_model(3, m.content)].push(spec_varint_model(4, a as u64)).push(spec_varint_model(5, b as u64)),
        None => seq![spec_varint_model(1, spec_lang_byte(m.lang) as u64), spec_str_model(2, m.path), spec_bytes_model(3, m.content)],
    }
}

/// Interpreting the fields of a code body.
pub open spec fn spec_code_from_fields(fs: Seq<FieldModel>) -> Result<CodeModel, TypeError> {
    match spec_req_varint(fs, 1, "lang") { Err(e) => Err(e), Ok(v_lang) => match spec_lang_from_u64(v_lang) { Err(e) => Err(e), Ok(lang) =>
    match spec_req_str(fs, 2, "path") { Err(e) => Err(e), Ok(path) =>
    match spec_req_bytes(fs, 3, "content") { Err(e) => Err(e), Ok(content) =>
    match spec_line_range(fs) { Err(e) => Err(e), Ok(line_range) =>
    Ok(CodeModel { lang, path, content, line_range })
    }}}}}
}

/// Decoding a code body.
pub open spec fn spec_decode_code(s: Seq<u8>) -> Result<CodeModel, TypeError> {
    match spec_read_fields(s) {
        Err(e) => Err(e),
        Ok(fs) => spec_code_from_fields(fs),
    }
}

/// The bytes of a code body.
pub open spec fn spec_encode_code(m: CodeModel) -> Seq<u8> {
    spec_fields_bytes(spec_code_fields(m))
}

impl CodeBlock {
    /// Serialize the body as TLV fields.
    pub fn encode_body(&self) -> (r: Vec<u8>)
        ensures
            r@ == spec_encode_code(self@),
    {
        let mut buf: Vec<u8> = Vec::new();
        let ghost mut fs = Seq::<FieldModel>::empty();
        encode_varint_field(&mut buf, 1, self.lang.to_wire_byte() as u64);
        proof {
            lemma_fields_bytes_push(fs, spec_varint_model(1, spec_lang_byte(self@.lang) as u64));
            fs = fs.push(spec_varint_model(1, spec_lang_byte(self@.lang) as u64));
        }
        encode_bytes_field(&mut buf, 2, self.path.as_str().as_bytes());
        proof {
            lemma_fields_bytes_push(fs, spec_str_model(2, self.path@));
            fs = fs.push(spec_str_model(2, self.path@));
        }
        encode_bytes_field(&mut buf, 3, self.content.as_slice());
        proof {
            lemma_fields_bytes_push(fs, spec_bytes_model(3, self.content@));
            fs = fs.push(spec_bytes_model(3, self.content@));
        }
        if let Some((a, b)) = self.line_range {
            encode_varint_field(&mut buf, 4, a as u64);
            proof {
                lemma_fields_bytes_push(fs, spec_varint_model(4, a as u64));
                fs = fs.push(spec_varint_model(4, a as u64));
            }
            encode_varint_field(&mut buf, 5, b as u64);
            proof {
                lemma_fields_bytes_push(fs, spec_varint_model(5, b as u64));
                fs = fs.push(spec_varint_model(5, b as u64));
            }
        }
        assert(fs =~= spec_code_fields(self@));
        buf
    }

    /// Deserialize a body.
    ///
    /// # Errors
    ///
    /// A malformed field, a required field that is absent, an enum value
    /// that names no variant, invalid UTF-8 in a string field, or a number
    /// too large for its field.
    pub fn decode_body(buf: &[u8]) -> (r: Result<CodeBlock, TypeError>)
        ensures
            r matches Ok(b) ==> spec_decode_code(buf@) == Ok::<CodeModel, TypeError>(b@),
            r matches Err(e) ==> spec_decode_code(buf@) == Err::<CodeModel, TypeError>(e),
    {
        let fields = match read_all_fields(buf) {
            Ok(f) => f,
            Err(e) => return Err(e),
        };
        let v_lang = match req_varint(&fields, 1, "lang") { Ok(v) => v, Err(e) => return Err(e) };
        let lang = match lang_from_u64(v_lang) { Ok(x) => x, Err(e) => return Err(e) };
        let path = match req_str(&fields, 2, "path") { Ok(x) => x, Err(e) => return Err(e) };
        let content = match req_bytes(&fields, 3, "content") { Ok(x) => x, Err(e) => return Err(e) };
        let line_range = match line_range(&fields) { Ok(x) => x, Err(e) => return Err(e) };
        Ok(CodeBlock { lang, path, content, line_range })
    }
}

/// Decoding the encoding of a code body gives it back.
pub proof fn lemma_code_roundtrip(m: CodeModel)
    requires
        spec_lang_canonical(m.lang),
        encode_utf8(m.path).len() <= u64::MAX,
        m.content.len() <= u64::MAX,
    ensures
        spec_decode_code(spec_encode_code(m)) == Ok::<CodeModel, TypeError>(m),
{
    let fs = spec_code_fields(m);
    assert(spec_all_canonical(fs));
    lemma_read_fields_roundtrip(fs);
    reveal_with_fuel(spec_last_varint, 6);
    reveal_with_fuel(spec_last_bytes, 6);
    lemma_lang_roundtrip(m.lang);
}


/// One chat turn.
#[derive(Clone, Debug, PartialEq, Eq)]
pub struct ConversationBlock {
    pub role: Role,
    pub content: Vec<u8>,
    pub tool_call_id: Option<String>,
}

/// The view of a [`ConversationBlock`].
pub struct ConversationModel {
    pub role: Role,
    pub content: Seq<u8>,
    pub tool_call_id: Option<Seq<char>>,
}

impl View for ConversationBlock {
    type V = ConversationModel;

    open spec fn view(&self) -> ConversationModel {
        ConversationModel {
            role: self.role,
            content: self.content@,
            tool_call_id: spec_opt_string(self.tool_call_id),
        }
    }
}

/// The fields that encode a conversation block, in order.
pub open spec fn spec_conversation_fields(m: ConversationModel) -> Seq<FieldModel> {
    match m.tool_call_id {
        Some(t) => seq![spec_varint_model(1, spec_role_byte(m.role) as u64), spec_bytes_model(2, m.content)].push(spec_str_model(3, t)),
        None => seq![spec_varint_model(1, spec_role_byte(m.role) as u64), spec_bytes_model(2, m.content)],
    }
}

/// Interpreting the fields of a conversation body.
pub open spec fn spec_conversation_from_fields(fs: Seq<FieldModel>) -> Result<ConversationModel, TypeError> {
    match spec_req_varint(fs, 1, "role") { Err(e) => Err(e), Ok(v_role) => match spec_role_from_u64(v_role) { Err(e) => Err(e), Ok(role) =>
    match spec_req_bytes(fs, 2, "content") { Err(e) => Err(e), Ok(content) =>
    match spec_opt_str(fs, 3, "tool_call_id") { Err(e) => Err(e), Ok(tool_call_id) =>
    Ok(ConversationModel { role, content, tool_call_id })
    }}}}
}

/// Decoding a conversation body.
pub open spec fn spec_decode_conversation(s: Seq<u8>) -> Result<ConversationModel, TypeError> {
    match spec_read_fields(s) {
        Err(e) => Err(e),
        Ok(fs) => spec_conversation_from_fields(fs),
    }
}

/// The bytes of a conversation body.
pub open spec fn spec_encode_conversation(m: ConversationModel) -> Seq<u8> {
    spec_fields_bytes(spec_conversation_fields(m))
}

impl ConversationBlock {
    /// Serialize the body as TLV fields.
    pub fn encode_body(&self) -> (r: Vec<u8>)
        ensures
            r@ == spec_encode_conversation(self@),
    {
        let mut buf: Vec<u8> = Vec::new();
        let ghost mut fs = Seq::<FieldModel>::empty();
        encode_varint_field(&mut buf, 1, self.role.to_wire_byte() as u64);
        proof {
            lemma_fields_bytes_push(fs, spec_varint_model(1, spec_role_byte(self@.role) as u64));
            fs = fs.push(spec_varint_model(1, spec_role_byte(self@.role) as u64));
        }
        encode_bytes_field(&mut buf, 2, self.content.as_slice());
        proof {
            lemma_fields_bytes_push(fs, spec_bytes_model(2, self.content@));
            fs = fs.push(spec_bytes_model(2, self.content@));
        }
        if let Some(t) = &self.tool_call_id {
            encode_bytes_field(&mut buf, 3, t.as_str().as_bytes());
            proof {
                lemma_fields_bytes_push(fs, spec_str_model(3, t@));
                fs = fs.push(spec_str_model(3, t@));
            }
        }
        assert(fs =~= spec_conversation_fields(self@));
        buf
    }

    /// Deserialize a body.
    ///
    /// # Errors
    ///
    /// A malformed field, a required field that is absent, an enum value
    /// that names no variant, invalid UTF-8 in a string field, or a number
    /// too large for its field.
    pub fn decode_body(buf: &[u8]) -> (r: Result<ConversationBlock, TypeError>)
        ensures
            r matches Ok(b) ==> spec_decode_conversation(buf@) == Ok::<ConversationModel, TypeError>(b@),
            r matches Err(e) ==> spec_decode_conversation(buf@) == Err::<ConversationModel, TypeError>(e),
    {
        let fields = match read_all_fields(buf) {
            Ok(f) => f,
            Err(e) => return Err(e),
        };
        let v_role = match req_varint(&fields, 1, "role") { Ok(v) => v, Err(e) => return Err(e) };
        let role = match role_from_u64(v_role) { Ok(x) => x, Err(e) => return Err(e) };
        let content = match req_bytes(&fields, 2, "content") { Ok(x) => x, Err(e) => return Err(e) };
        let tool_call_id = match opt_str(&fields, 3, "tool_call_id") { Ok(x) => x, Err(e) => return Err(e) };
        Ok(ConversationBlock { role, content, tool_call_id })
    }
}

/// Decoding the encoding of a conversation body gives it back.
pub proof fn lemma_conversation_roundtrip(m: ConversationModel)
    requires
        m.content.len() <= u64::MAX,
        m.tool_call_id matches Some(t) ==> encode_utf8(t).len() <= u64::MAX,
    ensures
        spec_decode_conversation(spec_encode_conversation(m)) == Ok::<ConversationModel, TypeError>(m),
{
    let fs = spec_conversation_fields(m);
    assert(spec_all_canonical(fs));
    lemma_read_fields_roundtrip(fs);
    reveal_with_fuel(spec_last_varint, 6);
    reveal_with_fuel(spec_last_bytes, 6);
    lemma_role_roundtrip(m.role);
}


/// Output of a tool invocation.
#[derive(Clone, Debug, PartialEq, Eq)]
pub struct ToolResultBlock {
    pub tool_name: String,
    pub status: Status,
    pub content: Vec<u8>,
    pub schema_hint: Option<String>,
}

/// The view of a [`ToolResultBlock`].
pub struct ToolResultModel {
    pub tool_name: Seq<char>,
    pub status: Status,
    pub content: Seq<u8>,
    pub schema_hint: Option<Seq<char>>,
}

impl View for ToolResultBlock {
    type V = ToolResultModel;

    open spec fn view(&self) -> ToolResultModel {
        ToolResultModel {
            tool_name: self.tool_name@,
            status: self.status,
            content: self.content@,
            schema_hint: spec_opt_string(self.schema_hint),
        }
    }
}

/// The fields that encode a tool result block, in order.
pub open spec fn spec_tool_result_fields(m: ToolResultModel) -> Seq<FieldModel> {
    match m.schema_hint {
        Some(t) => seq![spec_str_model(1, m.tool_name), spec_varint_model(2, spec_status_byte(m.status) as u64), spec_bytes_model(3, m.content)].push(spec_str_model(4, t)),
        None => seq![spec_str_model(1, m.tool_name), spec_varint_model(2, spec_status_byte(m.status) as u64), spec_bytes_model(3, m.content)],
    }
}

/// Interpreting the fields of a tool result body.
pub open spec fn spec_tool_result_from_fields(fs: Seq<FieldModel>) -> Result<ToolResultModel, TypeError> {
    match spec_req_str(fs, 1, "tool_name") { Err(e) => Err(e), Ok(tool_name) =>
    match spec_req_varint(fs, 2, "status") { Err(e) => Err(e), Ok(v_status) => match spec_status_from_u64(v_status) { Err(e) => Err(e), Ok(status) =>
    match spec_req_bytes(fs, 3, "content") { Err(e) => Err(e), Ok(content) =>
    match spec_opt_str(fs, 4, "schema_hint") { Err(e) => Err(e), Ok(schema_hint) =>
    Ok(ToolResultModel { tool_name, status, content, schema_hint })
    }}}}}
}

/// Decoding a tool result body.
pub open spec fn spec_decode_tool_result(s: Seq<u8>) -> Result<ToolResultModel, TypeError> {
    match spec_read_fields(s) {
        Err(e) => Err(e),
        Ok(fs) => spec_tool_result_from_fields(fs),
    }
}

/// The bytes of a tool result body.
pub open spec fn spec_encode_tool_result(m: ToolResultModel) -> Seq<u8> {
    spec_fields_bytes(spec_tool_result_fields(m))
}

impl ToolResultBlock {
    /// Serialize the body as TLV fields.
    pub fn encode_body(&self) -> (r: Vec<u8>)
        ensures
            r@ == spec_encode_tool_result(self@),
    {
        let mut buf: Vec<u8> = Vec::new();
        let ghost mut fs = Seq::<FieldModel>::empty();
        encode_bytes_field(&mut buf, 1, self.tool_name.as_str().as_bytes());
        proof {
            lemma_fields_bytes_push(fs, spec_str_model(1, self.tool_name@));
            fs = fs.push(spec_str_model(1, self.tool_name@));
        }
        encode_varint_field(&mut buf, 2, self.status.to_wire_byte() as u64);
        proof {
            lemma_fields_bytes_push(fs, spec_varint_model(2, spec_status_byte(self@.status) as u64));
            fs = fs.push(spec_varint_model(2, spec_status_byte(self@.status) as u64));
        }
        encode_bytes_field(&mut buf, 3, self.content.as_slice());
        proof {
            lemma_fields_bytes_push(fs, spec_bytes_model(3, self.content@));
            fs = fs.push(spec_bytes_model(3, self.content@));
        }
        if let Some(t) = &self.schema_hint {
            encode_bytes_field(&mut buf, 4, t.as_str().as_bytes());
            proof {
                lemma_fields_bytes_push(fs, spec_str_model(4, t@));
                fs = fs.push(spec_str_model(4, t@));
            }
        }
        assert(fs =~= spec_tool_result_fields(self@));
        buf
    }

    /// Deserialize a body.
    ///
    /// # Errors
    ///
    /// A malformed field, a required field that is absent, an enum value
    /// that names no variant, invalid UTF-8 in a string field, or a number
    /// too large for its field.
    pub fn decode_body(buf: &[u8]) -> (r: Result<ToolResultBlock, TypeError>)
        ensures
            r matches Ok(b) ==> spec_decode_tool_result(buf@) == Ok::<ToolResultModel, TypeError>(b@),
            r matches Err(e) ==> spec_decode_tool_result(buf@) == Err::<ToolResultModel, TypeError>(e),
    {
        let fields = match read_all_fields(buf) {
            Ok(f) => f,
            Err(e) => return Err(e),
        };
        let tool_name = match req_str(&fields, 1, "tool_name") { Ok(x) => x, Err(e) => return Err(e) };
        let v_status = match req_varint(&fields, 2, "status") { Ok(v) => v, Err(e) => return Err(e) };
        let status = match status_from_u64(v_status) { Ok(x) => x, Err(e) => return Err(e) };
        let content = match req_bytes(&fields, 3, "content") { Ok(x) => x, Err(e) => return Err(e) };
        let schema_hint = match opt_str(&fields, 4, "schema_hint") { Ok(x) => x, Err(e) => return Err(e) };
        Ok(ToolResultBlock { tool_name, status, content, schema_hint })
    }
}

/// Decoding the encoding of a tool result body gives it back.
pub proof fn lemma_tool_result_roundtrip(m: ToolResultModel)
    requires
        encode_utf8(m.tool_name).len() <= u64::MAX,
        m.content.len() <= u64::MAX,
        m.schema_hint matches Some(t) ==> encode_utf8(t).len() <= u64::MAX,
    ensures
        spec_decode_tool_result(spec_encode_tool_result(m)) == Ok::<ToolResultModel, TypeError>(m),
{
    let fs = spec_tool_result_fields(m);
    assert(spec_all_canonical(fs));
    lemma_read_fields_roundtrip(fs);
    reveal_with_fuel(spec_last_varint, 6);
    reveal_with_fuel(spec_last_bytes, 6);
    lemma_status_roundtrip(m.status);
}


/// Prose content.
#[derive(Clone, Debug, PartialEq, Eq)]
pub struct DocumentBlock {
    pub title: String,
    pub content: Vec<u8>,
    pub format_hint: FormatHint,
}

/// The view of a [`DocumentBlock`].
pub struct DocumentModel {
    pub title: Seq<char>,
    pub content: Seq<u8>,
    pub format_hint: FormatHint,
}

impl View for DocumentBlock {
    type V = DocumentModel;

    open spec fn view(&self) -> DocumentModel {
        DocumentModel {
            title: self.title@,
            content: self.content@,
            format_hint: self.format_hint,
        }
    }
}

/// The fields that encode a document block, in order.
pub open spec fn spec_document_fields(m: DocumentModel) -> Seq<FieldModel> {
    seq![spec_str_model(1, m.title), spec_bytes_model(2, m.content), spec_varint_model(3, spec_format_hint_byte(m.format_hint) as u64)]
}

/// Interpreting the fields of a document body.
pub open spec fn spec_document_from_fields(fs: Seq<FieldModel>) -> Result<DocumentModel, TypeError> {
    match spec_req_str(fs, 1, "title") { Err(e) => Err(e), Ok(title) =>
    match spec_req_bytes(fs, 2, "content") { Err(e) => Err(e), Ok(content) =>
    match spec_req_varint(fs, 3, "format_hint") { Err(e) => Err(e), Ok(v_format_hint) => match spec_format_hint_from_u64(v_format_hint) { Err(e) => Err(e), Ok(format_hint) =>
    Ok(DocumentModel { title, content, format_hint })
    }}}}
}

/// Decoding a document body.
pub open spec fn spec_decode_document(s: Seq<u8>) -> Result<DocumentModel, TypeError> {
    match spec_read_fields(s) {
        Err(e) => Err(e),
        Ok(fs) => spec_document_from_fields(fs),
    }
}

/// The bytes of a document body.
pub open spec fn spec_encode_document(m: DocumentModel) -> Seq<u8> {
    spec_fields_bytes(spec_document_fields(m))
}

impl DocumentBlock {
    /// Serialize the body as TLV fields.
    pub fn encode_body(&self) -> (r: Vec<u8>)
        ensures
            r@ == spec_encode_document(self@),
    {
        let mut buf: Vec<u8> = Vec::new();
        let ghost mut fs = Seq::<FieldModel>::empty();
        encode_bytes_field(&mut buf, 1, self.title.as_str().as_bytes());
        proof {
            lemma_fields_bytes_push(fs, spec_str_model(1, self.title@));
            fs = fs.push(spec_str_model(1, self.title@));
        }
        encode_bytes_field(&mut buf, 2, self.content.as_slice());
        proof {
            lemma_fields_bytes_push(fs, spec_bytes_model(2, self.content@));
            fs = fs.push(spec_bytes_model(2, self.content@));
        }
        encode_varint_field(&mut buf, 3, self.format_hint.to_wire_byte() as u64);
        proof {
            lemma_fields_bytes_push(fs, spec_varint_model(3, spec_format_hint_byte(self@.format_hint) as u64));
            fs = fs.push(spec_varint_model(3, spec_format_hint_byte(self@.format_hint) as u64));
        }
        assert(fs =~= spec_document_fields(self@));
        buf
    }

    /// Deserialize a body.
    ///
    /// # Errors
    ///
    /// A malformed field, a required field that is absent, an enum value
    /// that names no variant, invalid UTF-8 in a string field, or a number
    /// too large for its field.
    pub fn decode_body(buf: &[u8]) -> (r: Result<DocumentBlock, TypeError>)
        ensures
            r matches Ok(b) ==> spec_decode_document(buf@) == Ok::<DocumentModel, TypeError>(b@),
            r matches Err(e) ==> spec_decode_document(buf@) == Err::<DocumentModel, TypeError>(e),
    {
        let fields = match read_all_fields(buf) {
            Ok(f) => f,
            Err(e) => return Err(e),
        };
        let title = match req_str(&fields, 1, "title") { Ok(x) => x, Err(e) => return Err(e) };
        let content = match req_bytes(&fields, 2, "content") { Ok(x) => x, Err(e) => return Err(e) };
        let v_format_hint = match req_varint(&fields, 3, "format_hint") { Ok(v) => v, Err(e) => return Err(e) };
        let format_hint = match format_hint_from_u64(v_format_hint) { Ok(x) => x, Err(e) => return Err(e) };
        Ok(DocumentBlock { title, content, format_hint })
    }
}

/// Decoding the encoding of a document body gives it back.
pub proof fn lemma_document_roundtrip(m: DocumentModel)
    requires
        encode_utf8(m.title).len() <= u64::MAX,
        m.content.len() <= u64::MAX,
    ensures
        spec_decode_document(spec_encode_document(m)) == Ok::<DocumentModel, TypeError>(m),
{
    let fs = spec_document_fields(m);
    assert(spec_all_canonical(fs));
    lemma_read_fields_roundtrip(fs);
    reveal_with_fuel(spec_last_varint, 6);
    reveal_with_fuel(spec_last_bytes, 6);
    lemma_format_hint_roundtrip(m.format_hint);
}


/// Structured data such as JSON or YAML.
#[derive(Clone, Debug, PartialEq, Eq)]
pub struct StructuredDataBlock {
    pub format: DataFormat,
    pub content: Vec<u8>,
    pub schema: Option<String>,
}

/// The view of a [`StructuredDataBlock`].
pub struct StructuredDataModel {
    pub format: DataFormat,
    pub content: Seq<u8>,
    pub schema: Option<Seq<char>>,
}

impl View for StructuredDataBlock {
    type V = StructuredDataModel;

    open spec fn view(&self) -> StructuredDataModel {
        StructuredDataModel {
            format: self.format,
            content: self.content@,
            schema: spec_opt_string(self.schema),
        }
    }
}

/// The fields that encode a structured data block, in order.
pub open spec fn spec_structured_data_fields(m: StructuredDataModel) -> Seq<FieldModel> {
    match m.schema {
        Some(t) => seq![spec_varint_model(1, spec_data_format_byte(m.format) as u64), spec_bytes_model(2, m.content)].push(spec_str_model(3, t)),
        None => seq![spec_varint_model(1, spec_data_format_byte(m.format) as u64), spec_bytes_model(2, m.content)],
    }
}

/// Interpreting the fields of a structured data body.
pub open spec fn spec_structured_data_from_fields(fs: Seq<FieldModel>) -> Result<StructuredDataModel, TypeError> {
    match spec_req_varint(fs, 1, "format") { Err(e) => Err(e), Ok(v_format) => match spec_data_format_from_u64(v_format) { Err(e) => Err(e), Ok(format) =>
    match spec_req_bytes(fs, 2, "content") { Err(e) => Err(e), Ok(content) =>
    match spec_opt_str(fs, 3, "schema") { Err(e) => Err(e), Ok(schema) =>
    Ok(StructuredDataModel { format, content, schema })
    }}}}
}

/// Decoding a structured data body.
pub open spec fn spec_decode_structured_data(s: Seq<u8>) -> Result<StructuredDataModel, TypeError> {
    match spec_read_fields(s) {
        Err(e) => Err(e),
        Ok(fs) => spec_structured_data_from_fields(fs),
    }
}

/// The bytes of a structured data body.
pub open spec fn spec_encode_structured_data(m: StructuredDataModel) -> Seq<u8> {
    spec_fields_bytes(spec_structured_data_fields(m))
}

impl StructuredDataBlock {
    /// Serialize the body as TLV fields.
    pub fn encode_body(&self) -> (r: Vec<u8>)
        ensures
            r@ == spec_encode_structured_data(self@),
    {
        let mut buf: Vec<u8> = Vec::new();
        let ghost mut fs = Seq::<FieldModel>::empty();
        encode_varint_field(&mut buf, 1, self.format.to_wire_byte() as u64);
        proof {
            lemma_fields_bytes_push(fs, spec_varint_model(1, spec_data_format_byte(self@.format) as u64));
            fs = fs.push(spec_varint_model(1, spec_data_format_byte(self@.format) as u64));
        }
        encode_bytes_field(&mut buf, 2, self.content.as_slice());
        proof {
            lemma_fields_bytes_push(fs, spec_bytes_model(2, self.content@));
            fs = fs.push(spec_bytes_model(2, self.content@));
        }
        if let Some(t) = &self.schema {
            encode_bytes_field(&mut buf, 3, t.as_str().as_bytes());
            proof {
                lemma_fields_bytes_push(fs, spec_str_model(3, t@));
                fs = fs.push(spec_str_model(3, t@));
            }
        }
        assert(fs =~= spec_structured_data_fields(self@));
        buf
    }

    /// Deserialize a body.
    ///
    /// # Errors
    ///
    /// A malformed field, a required field that is absent, an enum value
    /// that names no variant, invalid UTF-8 in a string field, or a number
    /// too large for its field.
    pub fn decode_body(buf: &[u8]) -> (r: Result<StructuredDataBlock, TypeError>)
        ensures
            r matches Ok(b) ==> spec_decode_structured_data(buf@) == Ok::<StructuredDataModel, TypeError>(b@),
            r matches Err(e) ==> spec_decode_structured_data(buf@) == Err::<StructuredDataModel, TypeError>(e),
    {
        let fields = match read_all_fields(buf) {
            Ok(f) => f,
            Err(e) => return Err(e),
        };
        let v_format = match req_varint(&fields, 1, "format") { Ok(v) => v, Err(e) => return Err(e) };
        let format = match data_format_from_u64(v_format) { Ok(x) => x, Err(e) => return Err(e) };
        let content = match req_bytes(&fields, 2, "content") { Ok(x) => x, Err(e) => return Err(e) };
        let schema = match opt_str(&fields, 3, "schema") { Ok(x) => x, Err(e) => return Err(e) };
        Ok(StructuredDataBlock { format, content, schema })
    }
}

/// Decoding the encoding of a structured data body gives it back.
pub proof fn lemma_structured_data_roundtrip(m: StructuredDataModel)
    requires
        m.content.len() <= u64::MAX,
        m.schema matches Some(t) ==> encode_utf8(t).len() <= u64::MAX,
    ensures
        spec_decode_structured_data(spec_encode_structured_data(m)) == Ok::<StructuredDataModel, TypeError>(m),
{
    let fs = spec_structured_data_fields(m);
    assert(spec_all_canonical(fs));
    lemma_read_fields_roundtrip(fs);
    reveal_with_fuel(spec_last_varint, 6);
    reveal_with_fuel(spec_last_bytes, 6);
    lemma_data_format_roundtrip(m.format);
}


/// Metadata about another block, which it names by index.
#[derive(Clone, Debug, PartialEq, Eq)]
pub struct AnnotationBlock {
    pub target_block_id: u32,
    pub kind: AnnotationKind,
    pub value: Vec<u8>,
}

/// The view of a [`AnnotationBlock`].
pub struct AnnotationModel {
    pub target_block_id: u32,
    pub kind: AnnotationKind,
    pub value: Seq<u8>,
}

impl View for AnnotationBlock {
    type V = AnnotationModel;

    open spec fn view(&self) -> AnnotationModel {
        AnnotationModel {
            target_block_id: self.target_block_id,
            kind: self.kind,
            value: self.value@,
        }
    }
}

/// The fields that encode a annotation block, in order.
pub open spec fn spec_annotation_fields(m: AnnotationModel) -> Seq<FieldModel> {
    seq![spec_varint_model(1, m.target_block_id as u64), spec_varint_model(2, spec_annotation_kind_byte(m.kind) as u64), spec_bytes_model(3, m.value)]
}

/// Interpreting the fields of a annotation body.
pub open spec fn spec_annotation_from_fields(fs: Seq<FieldModel>) -> Result<AnnotationModel, TypeError> {
    match spec_req_varint(fs, 1, "target_block_id") { Err(e) => Err(e), Ok(v_target_block_id) => match spec_u32_value(v_target_block_id, "target_block_id") { Err(e) => Err(e), Ok(target_block_id) =>
    match spec_req_varint(fs, 2, "kind") { Err(e) => Err(e), Ok(v_kind) => match spec_annotation_kind_from_u64(v_kind) { Err(e) => Err(e), Ok(kind) =>
    match spec_req_bytes(fs, 3, "value") { Err(e) => Err(e), Ok(value) =>
    Ok(AnnotationModel { target_block_id, kind, value })
    }}}}}
}

/// Decoding a annotation body.
pub open spec fn spec_decode_annotation(s: Seq<u8>) -> Result<AnnotationModel, TypeError> {
    match spec_read_fields(s) {
        Err(e) => Err(e),
        Ok(fs) => spec_annotation_from_fields(fs),
    }
}

/// The bytes of a annotation body.
pub open spec fn spec_encode_annotation(m: AnnotationModel) -> Seq<u8> {
    spec_fields_bytes(spec_annotation_fields(m))
}

impl AnnotationBlock {
    /// Serialize the body as TLV fields.
    pub fn encode_body(&self) -> (r: Vec<u8>)
        ensures
            r@ == spec_encode_annotation(self@),
    {
        let mut buf: Vec<u8> = Vec::new();
        let ghost mut fs = Seq::<FieldModel>::empty();
        encode_varint_field(&mut buf, 1, self.target_block_id as u64);
        proof {
            lemma_fields_bytes_push(fs, spec_varint_model(1, self.target_block_id as u64));
            fs = fs.push(spec_varint_model(1, self.target_block_id as u64));
        }
        encode_varint_field(&mut buf, 2, self.kind.to_wire_byte() as u64);
        proof {
            lemma_fields_bytes_push(fs, spec_varint_model(2, spec_annotation_kind_byte(self@.kind) as u64));
            fs = fs.push(spec_varint_model(2, spec_annotation_kind_byte(self@.kind) as u64));
        }
        encode_bytes_field(&mut buf, 3, self.value.as_slice());
        proof {
            lemma_fields_bytes_push(fs, spec_bytes_model(3, self.value@));
            fs = fs.push(spec_bytes_model(3, self.value@));
        }
        assert(fs =~= spec_annotation_fields(self@));
        buf
    }

    /// Deserialize a body.
    ///
    /// # Errors
    ///
    /// A malformed field, a required field that is absent, an enum value
    /// that names no variant, invalid UTF-8 in a string field, or a number
    /// too large for its field.
    pub fn decode_body(buf: &[u8]) -> (r: Result<AnnotationBlock, TypeError>)
        ensures
            r matches Ok(b) ==> spec_decode_annotation(buf@) == Ok::<AnnotationModel, TypeError>(b@),
            r matches Err(e) ==> spec_decode_annotation(buf@) == Err::<AnnotationModel, TypeError>(e),
    {
        let fields = match read_all_fields(buf) {
            Ok(f) => f,
            Err(e) => return Err(e),
        };
        let v_target_block_id = match req_varint(&fields, 1, "target_block_id") { Ok(v) => v, Err(e) => return Err(e) };
        let target_block_id = match u32_value(v_target_block_id, "target_block_id") { Ok(x) => x, Err(e) => return Err(e) };
        let v_kind = match req_varint(&fields, 2, "kind") { Ok(v) => v, Err(e) => return Err(e) };
        let kind = match annotation_kind_from_u64(v_kind) { Ok(x) => x, Err(e) => return Err(e) };
        let value = match req_bytes(&fields, 3, "value") { Ok(x) => x, Err(e) => return Err(e) };
        Ok(AnnotationBlock { target_block_id, kind, value })
    }
}

/// Decoding the encoding of a annotation body gives it back.
pub proof fn lemma_annotation_roundtrip(m: AnnotationModel)
    requires
        m.value.len() <= u64::MAX,
    ensures
        spec_decode_annotation(spec_encode_annotation(m)) == Ok::<AnnotationModel, TypeError>(m),
{
    let fs = spec_annotation_fields(m);
    assert(spec_all_canonical(fs));
    lemma_read_fields_roundtrip(fs);
    reveal_with_fuel(spec_last_varint, 6);
    reveal_with_fuel(spec_last_bytes, 6);
    lemma_annotation_kind_roundtrip(m.kind);
}


/// A reference into a vector store.
#[derive(Clone, Debug, PartialEq, Eq)]
pub struct EmbeddingRefBlock {
    pub vector_id: Vec<u8>,
    pub source_hash: Vec<u8>,
    pub model: String,
}

/// The view of a [`EmbeddingRefBlock`].
pub struct EmbeddingRefModel {
    pub vector_id: Seq<u8>,
    pub source_hash: Seq<u8>,
    pub model: Seq<char>,
}

impl View for EmbeddingRefBlock {
    type V = EmbeddingRefModel;

    open spec fn view(&self) -> EmbeddingRefModel {
        EmbeddingRefModel {
            vector_id: self.vector_id@,
            source_hash: self.source_hash@,
            model: self.model@,
        }
    }
}

/// The fields that encode a embedding ref block, in order.
pub open spec fn spec_embedding_ref_fields(m: EmbeddingRefModel) -> Seq<FieldModel> {
    seq![spec_bytes_model(1, m.vector_id), spec_bytes_model(2, m.source_hash), spec_str_model(3, m.model)]
}

/// Interpreting the fields of a embedding ref body.
pub open spec fn spec_embedding_ref_from_fields(fs: Seq<FieldModel>) -> Result<EmbeddingRefModel, TypeError> {
    match spec_req_bytes(fs, 1, "vector_id") { Err(e) => Err(e), Ok(vector_id) =>
    match spec_req_bytes(fs, 2, "source_hash") { Err(e) => Err(e), Ok(source_hash) =>
    match spec_req_str(fs, 3, "model") { Err(e) => Err(e), Ok(model) =>
    Ok(EmbeddingRefModel { vector_id, source_hash, model })
    }}}
}

/// Decoding a embedding ref body.
pub open spec fn spec_decode_embedding_ref(s: Seq<u8>) -> Result<EmbeddingRefModel, TypeError> {
    match spec_read_fields(s) {
        Err(e) => Err(e),
        Ok(fs) => spec_embedding_ref_from_fields(fs),
    }
}

/// The bytes of a embedding ref body.
pub open spec fn spec_encode_embedding_ref(m: EmbeddingRefModel) -> Seq<u8> {
    spec_fields_bytes(spec_embedding_ref_fields(m))
}

impl EmbeddingRefBlock {
    /// Serialize the body as TLV fields.
    pub fn encode_body(&self) -> (r: Vec<u8>)
        ensures
            r@ == spec_encode_embedding_ref(self@),
    {
        let mut buf: Vec<u8> = Vec::new();
        let ghost mut fs = Seq::<FieldModel>::empty();
        encode_bytes_field(&mut buf, 1, self.vector_id.as_slice());
        proof {
            lemma_fields_bytes_push(fs, spec_bytes_model(1, self.vector_id@));
            fs = fs.push(spec_bytes_model(1, self.vector_id@));
        }
        encode_bytes_field(&mut buf, 2, self.source_hash.as_slice());
        proof {
            lemma_fields_bytes_push(fs, spec_bytes_model(2, self.source_hash@));
            fs = fs.push(spec_bytes_model(2, self.source_hash@));
        }
        encode_bytes_field(&mut buf, 3, self.model.as_str().as_bytes());
        proof {
            lemma_fields_bytes_push(fs, spec_str_model(3, self.model@));
            fs = fs.push(spec_str_model(3, self.model@));
        }
        assert(fs =~= spec_embedding_ref_fields(self@));
        buf
    }

    /// Deserialize a body.
    ///
    /// # Errors
    ///
    /// A malformed field, a required field that is absent, an enum value
    /// that names no variant, invalid UTF-8 in a string field, or a number
    /// too large for its field.
    pub fn decode_body(buf: &[u8]) -> (r: Result<EmbeddingRefBlock, TypeError>)
        ensures
            r matches Ok(b) ==> spec_decode_embedding_ref(buf@) == Ok::<EmbeddingRefModel, TypeError>(b@),
            r matches Err(e) ==> spec_decode_embedding_ref(buf@) == Err::<EmbeddingRefModel, TypeError>(e),
    {
        let fields = match read_all_fields(buf) {
            Ok(f) => f,
            Err(e) => return Err(e),
        };
        let vector_id = match req_bytes(&fields, 1, "vector_id") { Ok(x) => x, Err(e) => return Err(e) };
        let source_hash = match req_bytes(&fields, 2, "source_hash") { Ok(x) => x, Err(e) => return Err(e) };
        let model = match req_str(&fields, 3, "model") { Ok(x) => x, Err(e) => return Err(e) };
        Ok(EmbeddingRefBlock { vector_id, source_hash, model })
    }
}

/// Decoding the encoding of a embedding ref body gives it back.
pub proof fn lemma_embedding_ref_roundtrip(m: EmbeddingRefModel)
    requires
        m.vector_id.len() <= u64::MAX,
        m.source_hash.len() <= u64::MAX,
        encode_utf8(m.model).len() <= u64::MAX,
    ensures
        spec_decode_embedding_ref(spec_encode_embedding_ref(m)) == Ok::<EmbeddingRefModel, TypeError>(m),
{
    let fs = spec_embedding_ref_fields(m);
    assert(spec_all_canonical(fs));
    lemma_read_fields_roundtrip(fs);
    reveal_with_fuel(spec_last_varint, 6);
    reveal_with_fuel(spec_last_bytes, 6);
}


/// An image with alternative text.
#[derive(Clone, Debug, PartialEq, Eq)]
pub struct ImageBlock {
    pub media_type: MediaType,
    pub alt_text: String,
    pub data: Vec<u8>,
}

/// The view of a [`ImageBlock`].
pub struct ImageModel {
    pub media_type: MediaType,
    pub alt_text: Seq<char>,
    pub data: Seq<u8>,
}

impl View for ImageBlock {
    type V = ImageModel;

    open spec fn view(&self) -> ImageModel {
        ImageModel {
            media_type: self.media_type,
            alt_text: self.alt_text@,
            data: self.data@,
        }
    }
}

/// The fields that encode a image block, in order.
pub open spec fn spec_image_fields(m: ImageModel) -> Seq<FieldModel> {
    seq![spec_varint_model(1, spec_media_type_byte(m.media_type) as u64), spec_str_model(2, m.alt_text), spec_bytes_model(3, m.data)]
}

/// Interpreting the fields of a image body.
pub open spec fn spec_image_from_fields(fs: Seq<FieldModel>) -> Result<ImageModel, TypeError> {
    match spec_req_varint(fs, 1, "media_type") { Err(e) => Err(e), Ok(v_media_type) => match spec_media_type_from_u64(v_media_type) { Err(e) => Err(e), Ok(media_type) =>
    match spec_req_str(fs, 2, "alt_text") { Err(e) => Err(e), Ok(alt_text) =>
    match spec_req_bytes(fs, 3, "data") { Err(e) => Err(e), Ok(data) =>
    Ok(ImageModel { media_type, alt_text, data })
    }}}}
}

/// Decoding a image body.
pub open spec fn spec_decode_image(s: Seq<u8>) -> Result<ImageModel, TypeError> {
    match spec_read_fields(s) {
        Err(e) => Err(e),
        Ok(fs) => spec_image_from_fields(fs),
    }
}

/// The bytes of a image body.
pub open spec fn spec_encode_image(m: ImageModel) -> Seq<u8> {
    spec_fields_bytes(spec_image_fields(m))
}

impl ImageBlock {
    /// Serialize the body as TLV fields.
    pub fn encode_body(&self) -> (r: Vec<u8>)
        ensures
            r@ == spec_encode_image(self@),
    {
        let mut buf: Vec<u8> = Vec::new();
        let ghost mut fs = Seq::<FieldModel>::empty();
        encode_varint_field(&mut buf, 1, self.media_type.to_wire_byte() as u64);
        proof {
            lemma_fields_bytes_push(fs, spec_varint_model(1, spec_media_type_byte(self@.media_type) as u64));
            fs = fs.push(spec_varint_model(1, spec_media_type_byte(self@.media_type) as u64));
        }
        encode_bytes_field(&mut buf, 2, self.alt_text.as_str().as_bytes());
        proof {
            lemma_fields_bytes_push(fs, spec_str_model(2, self.alt_text@));
            fs = fs.push(spec_str_model(2, self.alt_text@));
        }
        encode_bytes_field(&mut buf, 3, self.data.as_slice());
        proof {
            lemma_fields_bytes_push(fs, spec_bytes_model(3, self.data@));
            fs = fs.push(spec_bytes_model(3, self.data@));
        }
        assert(fs =~= spec_image_fields(self@));
        buf
    }

    /// Deserialize a body.
    ///
    /// # Errors
    ///
    /// A malformed field, a required field that is absent, an enum value
    /// that names no variant, invalid UTF-8 in a string field, or a number
    /// too large for its field.
    pub fn decode_body(buf: &[u8]) -> (r: Result<ImageBlock, TypeError>)
        ensures
            r matches Ok(b) ==> spec_decode_image(buf@) == Ok::<ImageModel, TypeError>(b@),
            r matches Err(e) ==> spec_decode_image(buf@) == Err::<ImageModel, TypeError>(e),
    {
        let fields = match read_all_fields(buf) {
            Ok(f) => f,
            Err(e) => return Err(e),
        };
        let v_media_type = match req_varint(&fields, 1, "media_type") { Ok(v) => v, Err(e) => return Err(e) };
        let media_type = match media_type_from_u64(v_media_type) { Ok(x) => x, Err(e) => return Err(e) };
        let alt_text = match req_str(&fields, 2, "alt_text") { Ok(x) => x, Err(e) => return Err(e) };
        let data = match req_bytes(&fields, 3, "data") { Ok(x) => x, Err(e) => return Err(e) };
        Ok(ImageBlock { media_type, alt_text, data })
    }
}

/// Decoding the encoding of a image body gives it back.
pub proof fn lemma_image_roundtrip(m: ImageModel)
    requires
        encode_utf8(m.alt_text).len() <= u64::MAX,
        m.data.len() <= u64::MAX,
    ensures
        spec_decode_image(spec_encode_image(m)) == Ok::<ImageModel, TypeError>(m),
{
    let fs = spec_image_fields(m);
    assert(spec_all_canonical(fs));
    lemma_read_fields_roundtrip(fs);
    reveal_with_fuel(spec_last_varint, 6);
    reveal_with_fuel(spec_last_bytes, 6);
    lemma_media_type_roundtrip(m.media_type);
}


/// One hunk of a diff: where it starts in the old and new file, and its lines.
#[derive(Clone, Debug, PartialEq, Eq)]
pub struct DiffHunk {
    pub old_start: u32,
    pub new_start: u32,
    pub lines: Vec<u8>,
}

/// The view of a [`DiffHunk`].
pub struct DiffHunkModel {
    pub old_start: u32,
    pub new_start: u32,
    pub lines: Seq<u8>,
}

impl View for DiffHunk {
    type V = DiffHunkModel;

    open spec fn view(&self) -> DiffHunkModel {
        DiffHunkModel {
            old_start: self.old_start,
            new_start: self.new_start,
            lines: self.lines@,
        }
    }
}

/// The fields that encode a hunk block, in order.
pub open spec fn spec_hunk_fields(m: DiffHunkModel) -> Seq<FieldModel> {
    seq![spec_varint_model(1, m.old_start as u64), spec_varint_model(2, m.new_start as u64), spec_bytes_model(3, m.lines)]
}

/// Interpreting the fields of a hunk body.
pub open spec fn spec_hunk_from_fields(fs: Seq<FieldModel>) -> Result<DiffHunkModel, TypeError> {
    match spec_req_varint(fs, 1, "old_start") { Err(e) => Err(e), Ok(v_old_start) => match spec_u32_value(v_old_start, "old_start") { Err(e) => Err(e), Ok(old_start) =>
    match spec_req_varint(fs, 2, "new_start") { Err(e) => Err(e), Ok(v_new_start) => match spec_u32_value(v_new_start, "new_start") { Err(e) => Err(e), Ok(new_start) =>
    match spec_req_bytes(fs, 3, "lines") { Err(e) => Err(e), Ok(lines) =>
    Ok(DiffHunkModel { old_start, new_start, lines })
    }}}}}
}

/// Decoding a hunk body.
pub open spec fn spec_decode_hunk(s: Seq<u8>) -> Result<DiffHunkModel, TypeError> {
    match spec_read_fields(s) {
        Err(e) => Err(e),
        Ok(fs) => spec_hunk_from_fields(fs),
    }
}

/// The bytes of a hunk body.
pub open spec fn spec_encode_hunk(m: DiffHunkModel) -> Seq<u8> {
    spec_fields_bytes(spec_hunk_fields(m))
}

impl DiffHunk {
    /// Serialize the body as TLV fields.
    pub fn encode_body(&self) -> (r: Vec<u8>)
        ensures
            r@ == spec_encode_hunk(self@),
    {
        let mut buf: Vec<u8> = Vec::new();
        let ghost mut fs = Seq::<FieldModel>::empty();
        encode_varint_field(&mut buf, 1, self.old_start as u64);
        proof {
            lemma_fields_bytes_push(fs, spec_varint_model(1, self.old_start as u64));
            fs = fs.push(spec_varint_model(1, self.old_start as u64));
        }
        encode_varint_field(&mut buf, 2, self.new_start as u64);
        proof {
            lemma_fields_bytes_push(fs, spec_varint_model(2, self.new_start as u64));
            fs = fs.push(spec_varint_model(2, self.new_start as u64));
        }
        encode_bytes_field(&mut buf, 3, self.lines.as_slice());
        proof {
            lemma_fields_bytes_push(fs, spec_bytes_model(3, self.lines@));
            fs = fs.push(spec_bytes_model(3, self.lines@));
        }
        assert(fs =~= spec_hunk_fields(self@));
        buf
    }

    /// Deserialize a body.
    ///
    /// # Errors
    ///
    /// A malformed field, a required field that is absent, an enum value
    /// that names no variant, invalid UTF-8 in a string field, or a number
    /// too large for its field.
    pub fn decode_body(buf: &[u8]) -> (r: Result<DiffHunk, TypeError>)
        ensures
            r matches Ok(b) ==> spec_decode_hunk(buf@) == Ok::<DiffHunkModel, TypeError>(b@),
            r matches Err(e) ==> spec_decode_hunk(buf@) == Err::<DiffHunkModel, TypeError>(e),
    {
        let fields = match read_all_fields(buf) {
            Ok(f) => f,
            Err(e) => return Err(e),
        };
        let v_old_start = match req_varint(&fields, 1, "old_start") { Ok(v) => v, Err(e) => return Err(e) };
        let old_start = match u32_value(v_old_start, "old_start") { Ok(x) => x, Err(e) => return Err(e) };
        let v_new_start = match req_varint(&fields, 2, "new_start") { Ok(v) => v, Err(e) => return Err(e) };
        let new_start = match u32_value(v_new_start, "new_start") { Ok(x) => x, Err(e) => return Err(e) };
        let lines = match req_bytes(&fields, 3, "lines") { Ok(x) => x, Err(e) => return Err(e) };
        Ok(DiffHunk { old_start, new_start, lines })
    }
}

/// Decoding the encoding of a hunk body gives it back.
pub proof fn lemma_hunk_roundtrip(m: DiffHunkModel)
    requires
        m.lines.len() <= u64::MAX,
    ensures
        spec_decode_hunk(spec_encode_hunk(m)) == Ok::<DiffHunkModel, TypeError>(m),
{
    let fs = spec_hunk_fields(m);
    assert(spec_all_canonical(fs));
    lemma_read_fields_roundtrip(fs);
    reveal_with_fuel(spec_last_varint, 6);
    reveal_with_fuel(spec_last_bytes, 6);
}


/// A user-defined block, named by namespace and type.
#[derive(Clone, Debug, PartialEq, Eq)]
pub struct ExtensionBlock {
    pub namespace: String,
    pub extension_type: String,
    pub content: Vec<u8>,
}

/// The view of a [`ExtensionBlock`].
pub struct ExtensionModel {
    pub namespace: Seq<char>,
    pub extension_type: Seq<char>,
    pub content: Seq<u8>,
}

impl View for ExtensionBlock {
    type V = ExtensionModel;

    open spec fn view(&self) -> ExtensionModel {
        ExtensionModel {
            namespace: self.namespace@,
            extension_type: self.extension_type@,
            content: self.content@,
        }
    }
}

/// The fields that encode a extension block, in order.
pub open spec fn spec_extension_fields(m: ExtensionModel) -> Seq<FieldModel> {
    seq![spec_str_model(1, m.namespace), spec_str_model(2, m.extension_type), spec_bytes_model(3, m.content)]
}

/// Interpreting the fields of a extension body.
pub open spec fn spec_extension_from_fields(fs: Seq<FieldModel>) -> Result<ExtensionModel, TypeError> {
    match spec_req_str(fs, 1, "namespace") { Err(e) => Err(e), Ok(namespace) =>
    match spec_req_str(fs, 2, "extension_type") { Err(e) => Err(e), Ok(extension_type) =>
    match spec_req_bytes(fs, 3, "content") { Err(e) => Err(e), Ok(content) =>
    Ok(ExtensionModel { namespace, extension_type, content })
    }}}
}

/// Decoding a extension body.
pub open spec fn spec_decode_extension(s: Seq<u8>) -> Result<ExtensionModel, TypeError> {
    match spec_read_fields(s) {
        Err(e) => Err(e),
        Ok(fs) => spec_extension_from_fields(fs),
    }
}

/// The bytes of a extension body.
pub open spec fn spec_encode_extension(m: ExtensionModel) -> Seq<u8> {
    spec_fields_bytes(spec_extension_fields(m))
}

impl ExtensionBlock {
    /// Serialize the body as TLV fields.
    pub fn encode_body(&self) -> (r: Vec<u8>)
        ensures
            r@ == spec_encode_extension(self@),
    {
        let mut buf: Vec<u8> = Vec::new();
        let ghost mut fs = Seq::<FieldModel>::empty();
        encode_bytes_field(&mut buf, 1, self.namespace.as_str().as_bytes());
        proof {
            lemma_fields_bytes_push(fs, spec_str_model(1, self.namespace@));
            fs = fs.push(spec_str_model(1, self.namespace@));
        }
        encode_bytes_field(&mut buf, 2, self.extension_type.as_str().as_bytes());
        proof {
            lemma_fields_bytes_push(fs, spec_str_model(2, self.extension_type@));
            fs = fs.push(spec_str_model(2, self.extension_type@));
        }
        encode_bytes_field(&mut buf, 3, self.content.as_slice());
        proof {
            lemma_fields_bytes_push(fs, spec_bytes_model(3, self.content@));
            fs = fs.push(spec_bytes_model(3, self.content@));
        }
        assert(fs =~= spec_extension_fields(self@));
        buf
    }

    /// Deserialize a body.
    ///
    /// # Errors
    ///
    /// A malformed field, a required field that is absent, an enum value
    /// that names no variant, invalid UTF-8 in a string field, or a number
    /// too large for its field.
    pub fn decode_body(buf: &[u8]) -> (r: Result<ExtensionBlock, TypeError>)
        ensures
            r matches Ok(b) ==> spec_decode_extension(buf@) == Ok::<ExtensionModel, TypeError>(b@),
            r matches Err(e) ==> spec_decode_extension(buf@) == Err::<ExtensionModel, TypeError>(e),
    {
        let fields = match read_all_fields(buf) {
            Ok(f) => f,
            Err(e) => return Err(e),
        };
        let namespace = match req_str(&fields, 1, "namespace") { Ok(x) => x, Err(e) => return Err(e) };
        let extension_type = match req_str(&fields, 2, "extension_type") { Ok(x) => x, Err(e) => return Err(e) };
        let content = match req_bytes(&fields, 3, "content") { Ok(x) => x, Err(e) => return Err(e) };
        Ok(ExtensionBlock { namespace, extension_type, content })
    }
}

/// Decoding the encoding of a extension body gives it back.
pub proof fn lemma_extension_roundtrip(m: ExtensionModel)
    requires
        encode_utf8(m.namespace).len() <= u64::MAX,
        encode_utf8(m.extension_type).len() <= u64::MAX,
        m.content.len() <= u64::MAX,
    ensures
        spec_decode_extension(spec_encode_extension(m)) == Ok::<ExtensionModel, TypeError>(m),
{
    let fs = spec_extension_fields(m);
    assert(spec_all_canonical(fs));
    lemma_read_fields_roundtrip(fs);
    reveal_with_fuel(spec_last_varint, 6);
    reveal_with_fuel(spec_last_bytes, 6);
}


} // verus!
