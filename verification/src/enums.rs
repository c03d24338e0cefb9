//! The enumerations carried in block fields, each with its one-byte wire
//! value.
use vstd::prelude::*;
use crate::fields::TypeError;

verus! {

/// Source language of a code block. Unassigned bytes are kept as `Other`.
#[derive(Clone, Copy, Debug, PartialEq, Eq, Hash, Structural)]
pub enum Lang {
    Rust,
    TypeScript,
    JavaScript,
    Python,
    Go,
    Java,
    C,
    Cpp,
    Ruby,
    Shell,
    Sql,
    Html,
    Css,
    Json,
    Yaml,
    Toml,
    Markdown,
    Unknown,
    Other(u8),
}

pub open spec fn spec_lang_byte(l: Lang) -> u8 {
    match l {
        Lang::Rust => 0x01,
        Lang::TypeScript => 0x02,
        Lang::JavaScript => 0x03,
        Lang::Python => 0x04,
        Lang::Go => 0x05,
        Lang::Java => 0x06,
        Lang::C => 0x07,
        Lang::Cpp => 0x08,
        Lang::Ruby => 0x09,
        Lang::Shell => 0x0A,
        Lang::Sql => 0x0B,
        Lang::Html => 0x0C,
        Lang::Css => 0x0D,
        Lang::Json => 0x0E,
        Lang::Yaml => 0x0F,
        Lang::Toml => 0x10,
        Lang::Markdown => 0x11,
        Lang::Unknown => 0xFF,
        Lang::Other(b) => b,
    }
}

pub open spec fn spec_lang_from_byte(b: u8) -> Lang {
    if b == 0x01 {
        Lang::Rust
    } else if b == 0x02 {
        Lang::TypeScript
    } else if b == 0x03 {
        Lang::JavaScript
    } else if b == 0x04 {
        Lang::Python
    } else if b == 0x05 {
        Lang::Go
    } else if b == 0x06 {
        Lang::Java
    } else if b == 0x07 {
        Lang::C
    } else if b == 0x08 {
        Lang::Cpp
    } else if b == 0x09 {
        Lang::Ruby
    } else if b == 0x0A {
        Lang::Shell
    } else if b == 0x0B {
        Lang::Sql
    } else if b == 0x0C {
        Lang::Html
    } else if b == 0x0D {
        Lang::Css
    } else if b == 0x0E {
        Lang::Json
    } else if b == 0x0F {
        Lang::Yaml
    } else if b == 0x10 {
        Lang::Toml
    } else if b == 0x11 {
        Lang::Markdown
    } else if b == 0xFF {
        Lang::Unknown
    } else {
        Lang::Other(b)
    }
}

/// A `Lang` is canonical when `Other` holds a byte no named variant uses.
pub open spec fn spec_lang_canonical(l: Lang) -> bool {
    match l {
        Lang::Other(b) => b == 0 || (0x12 <= b && b < 0xFF),
        _ => true,
    }
}

impl Lang {
    /// The wire byte of this language.
    pub fn to_wire_byte(&self) -> (b: u8)
        ensures
            b == spec_lang_byte(*self),
    {
        match self {
            Lang::Rust => 0x01,
            Lang::TypeScript => 0x02,
            Lang::JavaScript => 0x03,
            Lang::Python => 0x04,
            Lang::Go => 0x05,
            Lang::Java => 0x06,
            Lang::C => 0x07,
            Lang::Cpp => 0x08,
            Lang::Ruby => 0x09,
            Lang::Shell => 0x0A,
            Lang::Sql => 0x0B,
            Lang::Html => 0x0C,
            Lang::Css => 0x0D,
            Lang::Json => 0x0E,
            Lang::Yaml => 0x0F,
            Lang::Toml => 0x10,
            Lang::Markdown => 0x11,
            Lang::Unknown => 0xFF,
            Lang::Other(b) => *b,
        }
    }

    /// The language named by a wire byte; never fails.
    pub fn from_wire_byte(b: u8) -> (l: Lang)
        ensures
            l == spec_lang_from_byte(b),
    {
        if b == 0x01 {
            Lang::Rust
        } else if b == 0x02 {
            Lang::TypeScript
        } else if b == 0x03 {
            Lang::JavaScript
        } else if b == 0x04 {
            Lang::Python
        } else if b == 0x05 {
            Lang::Go
        } else if b == 0x06 {
            Lang::Java
        } else if b == 0x07 {
            Lang::C
        } else if b == 0x08 {
            Lang::Cpp
        } else if b == 0x09 {
            Lang::Ruby
        } else if b == 0x0A {
            Lang::Shell
        } else if b == 0x0B {
            Lang::Sql
        } else if b == 0x0C {
            Lang::Html
        } else if b == 0x0D {
            Lang::Css
        } else if b == 0x0E {
            Lang::Json
        } else if b == 0x0F {
            Lang::Yaml
        } else if b == 0x10 {
            Lang::Toml
        } else if b == 0x11 {
            Lang::Markdown
        } else if b == 0xFF {
            Lang::Unknown
        } else {
            Lang::Other(b)
        }
    }
}

/// Reading back the byte of a canonical `Lang` gives it back.
pub proof fn lemma_lang_roundtrip(l: Lang)
    requires
        spec_lang_canonical(l),
    ensures
        spec_lang_from_byte(spec_lang_byte(l)) == l,
{
}

/// Every byte names a language whose byte is the same.
pub proof fn lemma_lang_byte_roundtrip(b: u8)
    ensures
        spec_lang_byte(spec_lang_from_byte(b)) == b,
        spec_lang_canonical(spec_lang_from_byte(b)),
{
}


/// Speaker of a conversation turn.
#[derive(Clone, Copy, Debug, PartialEq, Eq, Hash, Structural)]
pub enum Role {
    System,
    User,
    Assistant,
    Tool,
}

pub open spec fn spec_role_byte(e: Role) -> u8 {
    match e {
        Role::System => 1,
        Role::User => 2,
        Role::Assistant => 3,
        Role::Tool => 4,
    }
}

pub open spec fn spec_role_from_byte(b: u8) -> Result<Role, TypeError> {
    if b == 1 {
        Ok(Role::System)
    } else if b == 2 {
        Ok(Role::User)
    } else if b == 3 {
        Ok(Role::Assistant)
    } else if b == 4 {
        Ok(Role::Tool)
    } else {
        Err(TypeError::InvalidEnumValue { enum_name: "Role", value: b as u64 })
    }
}

impl Role {
    /// The wire byte of this value.
    pub fn to_wire_byte(&self) -> (b: u8)
        ensures
            b == spec_role_byte(*self),
    {
        match self {
            Role::System => 1,
            Role::User => 2,
            Role::Assistant => 3,
            Role::Tool => 4,
        }
    }

    /// The value named by a wire byte.
    ///
    /// # Errors
    ///
    /// `InvalidEnumValue` for a byte that names no variant.
    pub fn from_wire_byte(b: u8) -> (r: Result<Role, TypeError>)
        ensures
            r == spec_role_from_byte(b),
    {
        if b == 1 {
            Ok(Role::System)
        } else if b == 2 {
            Ok(Role::User)
        } else if b == 3 {
            Ok(Role::Assistant)
        } else if b == 4 {
            Ok(Role::Tool)
        } else {
            Err(TypeError::InvalidEnumValue { enum_name: "Role", value: b as u64 })
        }
    }
}

/// Reading back the byte of a value gives the value.
pub proof fn lemma_role_roundtrip(e: Role)
    ensures
        spec_role_from_byte(spec_role_byte(e)) == Ok::<Role, TypeError>(e),
{
}


/// Outcome of a tool invocation.
#[derive(Clone, Copy, Debug, PartialEq, Eq, Hash, Structural)]
pub enum Status {
    Success,
    Error,
    Timeout,
}

pub open spec fn spec_status_byte(e: Status) -> u8 {
    match e {
        Status::Success => 1,
        Status::Error => 2,
        Status::Timeout => 3,
    }
}

pub open spec fn spec_status_from_byte(b: u8) -> Result<Status, TypeError> {
    if b == 1 {
        Ok(Status::Success)
    } else if b == 2 {
        Ok(Status::Error)
    } else if b == 3 {
        Ok(Status::Timeout)
    } else {
        Err(TypeError::InvalidEnumValue { enum_name: "Status", value: b as u64 })
    }
}

impl Status {
    /// The wire byte of this value.
    pub fn to_wire_byte(&self) -> (b: u8)
        ensures
            b == spec_status_byte(*self),
    {
        match self {
            Status::Success => 1,
            Status::Error => 2,
            Status::Timeout => 3,
        }
    }

    /// The value named by a wire byte.
    ///
    /// # Errors
    ///
    /// `InvalidEnumValue` for a byte that names no variant.
    pub fn from_wire_byte(b: u8) -> (r: Result<Status, TypeError>)
        ensures
            r == spec_status_from_byte(b),
    {
        if b == 1 {
            Ok(Status::Success)
        } else if b == 2 {
            Ok(Status::Error)
        } else if b == 3 {
            Ok(Status::Timeout)
        } else {
            Err(TypeError::InvalidEnumValue { enum_name: "Status", value: b as u64 })
        }
    }
}

/// Reading back the byte of a value gives the value.
pub proof fn lemma_status_roundtrip(e: Status)
    ensures
        spec_status_from_byte(spec_status_byte(e)) == Ok::<Status, TypeError>(e),
{
}


/// How a document body should be read.
#[derive(Clone, Copy, Debug, PartialEq, Eq, Hash, Structural)]
pub enum FormatHint {
    Markdown,
    Plain,
    Html,
}

pub open spec fn spec_format_hint_byte(e: FormatHint) -> u8 {
    match e {
        FormatHint::Markdown => 1,
        FormatHint::Plain => 2,
        FormatHint::Html => 3,
    }
}

pub open spec fn spec_format_hint_from_byte(b: u8) -> Result<FormatHint, TypeError> {
    if b == 1 {
        Ok(FormatHint::Markdown)
    } else if b == 2 {
        Ok(FormatHint::Plain)
    } else if b == 3 {
        Ok(FormatHint::Html)
    } else {
        Err(TypeError::InvalidEnumValue { enum_name: "FormatHint", value: b as u64 })
    }
}

impl FormatHint {
    /// The wire byte of this value.
    pub fn to_wire_byte(&self) -> (b: u8)
        ensures
            b == spec_format_hint_byte(*self),
    {
        match self {
            FormatHint::Markdown => 1,
            FormatHint::Plain => 2,
            FormatHint::Html => 3,
        }
    }

    /// The value named by a wire byte.
    ///
    /// # Errors
    ///
    /// `InvalidEnumValue` for a byte that names no variant.
    pub fn from_wire_byte(b: u8) -> (r: Result<FormatHint, TypeError>)
        ensures
            r == spec_format_hint_from_byte(b),
    {
        if b == 1 {
            Ok(FormatHint::Markdown)
        } else if b == 2 {
            Ok(FormatHint::Plain)
        } else if b == 3 {
            Ok(FormatHint::Html)
        } else {
            Err(TypeError::InvalidEnumValue { enum_name: "FormatHint", value: b as u64 })
        }
    }
}

/// Reading back the byte of a value gives the value.
pub proof fn lemma_format_hint_roundtrip(e: FormatHint)
    ensures
        spec_format_hint_from_byte(spec_format_hint_byte(e)) == Ok::<FormatHint, TypeError>(e),
{
}


/// Serialization format of structured data.
#[derive(Clone, Copy, Debug, PartialEq, Eq, Hash, Structural)]
pub enum DataFormat {
    Json,
    Yaml,
    Toml,
    Csv,
}

pub open spec fn spec_data_format_byte(e: DataFormat) -> u8 {
    match e {
        DataFormat::Json => 1,
        DataFormat::Yaml => 2,
        DataFormat::Toml => 3,
        DataFormat::Csv => 4,
    }
}

pub open spec fn spec_data_format_from_byte(b: u8) -> Result<DataFormat, TypeError> {
    if b == 1 {
        Ok(DataFormat::Json)
    } else if b == 2 {
        Ok(DataFormat::Yaml)
    } else if b == 3 {
        Ok(DataFormat::Toml)
    } else if b == 4 {
        Ok(DataFormat::Csv)
    } else {
        Err(TypeError::InvalidEnumValue { enum_name: "DataFormat", value: b as u64 })
    }
}

impl DataFormat {
    /// The wire byte of this value.
    pub fn to_wire_byte(&self) -> (b: u8)
        ensures
            b == spec_data_format_byte(*self),
    {
        match self {
            DataFormat::Json => 1,
            DataFormat::Yaml => 2,
            DataFormat::Toml => 3,
            DataFormat::Csv => 4,
        }
    }

    /// The value named by a wire byte.
    ///
    /// # Errors
    ///
    /// `InvalidEnumValue` for a byte that names no variant.
    pub fn from_wire_byte(b: u8) -> (r: Result<DataFormat, TypeError>)
        ensures
            r == spec_data_format_from_byte(b),
    {
        if b == 1 {
            Ok(DataFormat::Json)
        } else if b == 2 {
            Ok(DataFormat::Yaml)
        } else if b == 3 {
            Ok(DataFormat::Toml)
        } else if b == 4 {
            Ok(DataFormat::Csv)
        } else {
            Err(TypeError::InvalidEnumValue { enum_name: "DataFormat", value: b as u64 })
        }
    }
}

/// Reading back the byte of a value gives the value.
pub proof fn lemma_data_format_roundtrip(e: DataFormat)
    ensures
        spec_data_format_from_byte(spec_data_format_byte(e)) == Ok::<DataFormat, TypeError>(e),
{
}


/// Image format.
#[derive(Clone, Copy, Debug, PartialEq, Eq, Hash, Structural)]
pub enum MediaType {
    Png,
    Jpeg,
    Gif,
    Svg,
    Webp,
}

pub open spec fn spec_media_type_byte(e: MediaType) -> u8 {
    match e {
        MediaType::Png => 1,
        MediaType::Jpeg => 2,
        MediaType::Gif => 3,
        MediaType::Svg => 4,
        MediaType::Webp => 5,
    }
}

pub open spec fn spec_media_type_from_byte(b: u8) -> Result<MediaType, TypeError> {
    if b == 1 {
        Ok(MediaType::Png)
    } else if b == 2 {
        Ok(MediaType::Jpeg)
    } else if b == 3 {
        Ok(MediaType::Gif)
    } else if b == 4 {
        Ok(MediaType::Svg)
    } else if b == 5 {
        Ok(MediaType::Webp)
    } else {
        Err(TypeError::InvalidEnumValue { enum_name: "MediaType", value: b as u64 })
    }
}

impl MediaType {
    /// The wire byte of this value.
    pub fn to_wire_byte(&self) -> (b: u8)
        ensures
            b == spec_media_type_byte(*self),
    {
        match self {
            MediaType::Png => 1,
            MediaType::Jpeg => 2,
            MediaType::Gif => 3,
            MediaType::Svg => 4,
            MediaType::Webp => 5,
        }
    }

    /// The value named by a wire byte.
    ///
    /// # Errors
    ///
    /// `InvalidEnumValue` for a byte that names no variant.
    pub fn from_wire_byte(b: u8) -> (r: Result<MediaType, TypeError>)
        ensures
            r == spec_media_type_from_byte(b),
    {
        if b == 1 {
            Ok(MediaType::Png)
        } else if b == 2 {
            Ok(MediaType::Jpeg)
        } else if b == 3 {
            Ok(MediaType::Gif)
        } else if b == 4 {
            Ok(MediaType::Svg)
        } else if b == 5 {
            Ok(MediaType::Webp)
        } else {
            Err(TypeError::InvalidEnumValue { enum_name: "MediaType", value: b as u64 })
        }
    }
}

/// Reading back the byte of a value gives the value.
pub proof fn lemma_media_type_roundtrip(e: MediaType)
    ensures
        spec_media_type_from_byte(spec_media_type_byte(e)) == Ok::<MediaType, TypeError>(e),
{
}


/// How an annotation's value is read.
#[derive(Clone, Copy, Debug, PartialEq, Eq, Hash, Structural)]
pub enum AnnotationKind {
    Priority,
    Summary,
    Tag,
}

pub open spec fn spec_annotation_kind_byte(e: AnnotationKind) -> u8 {
    match e {
        AnnotationKind::Priority => 1,
        AnnotationKind::Summary => 2,
        AnnotationKind::Tag => 3,
    }
}

pub open spec fn spec_annotation_kind_from_byte(b: u8) -> Result<AnnotationKind, TypeError> {
    if b == 1 {
        Ok(AnnotationKind::Priority)
    } else if b == 2 {
        Ok(AnnotationKind::Summary)
    } else if b == 3 {
        Ok(AnnotationKind::Tag)
    } else {
        Err(TypeError::InvalidEnumValue { enum_name: "AnnotationKind", value: b as u64 })
    }
}

impl AnnotationKind {
    /// The wire byte of this value.
    pub fn to_wire_byte(&self) -> (b: u8)
        ensures
            b == spec_annotation_kind_byte(*self),
    {
        match self {
            AnnotationKind::Priority => 1,
            AnnotationKind::Summary => 2,
            AnnotationKind::Tag => 3,
        }
    }

    /// The value named by a wire byte.
    ///
    /// # Errors
    ///
    /// `InvalidEnumValue` for a byte that names no variant.
    pub fn from_wire_byte(b: u8) -> (r: Result<AnnotationKind, TypeError>)
        ensures
            r == spec_annotation_kind_from_byte(b),
    {
        if b == 1 {
            Ok(AnnotationKind::Priority)
        } else if b == 2 {
            Ok(AnnotationKind::Summary)
        } else if b == 3 {
            Ok(AnnotationKind::Tag)
        } else {
            Err(TypeError::InvalidEnumValue { enum_name: "AnnotationKind", value: b as u64 })
        }
    }
}

/// Reading back the byte of a value gives the value.
pub proof fn lemma_annotation_kind_roundtrip(e: AnnotationKind)
    ensures
        spec_annotation_kind_from_byte(spec_annotation_kind_byte(e)) == Ok::<AnnotationKind, TypeError>(e),
{
}


/// Rendering priority, most important first.
#[derive(Clone, Copy, Debug, PartialEq, Eq, PartialOrd, Ord, Hash, Structural)]
pub enum Priority {
    Critical,
    High,
    Normal,
    Low,
    Background,
}

pub open spec fn spec_priority_byte(e: Priority) -> u8 {
    match e {
        Priority::Critical => 1,
        Priority::High => 2,
        Priority::Normal => 3,
        Priority::Low => 4,
        Priority::Background => 5,
    }
}

pub open spec fn spec_priority_from_byte(b: u8) -> Result<Priority, TypeError> {
    if b == 1 {
        Ok(Priority::Critical)
    } else if b == 2 {
        Ok(Priority::High)
    } else if b == 3 {
        Ok(Priority::Normal)
    } else if b == 4 {
        Ok(Priority::Low)
    } else if b == 5 {
        Ok(Priority::Background)
    } else {
        Err(TypeError::InvalidEnumValue { enum_name: "Priority", value: b as u64 })
    }
}

impl Priority {
    /// The wire byte of this value.
    pub fn to_wire_byte(&self) -> (b: u8)
        ensures
            b == spec_priority_byte(*self),
    {
        match self {
            Priority::Critical => 1,
            Priority::High => 2,
            Priority::Normal => 3,
            Priority::Low => 4,
            Priority::Background => 5,
        }
    }

    /// The value named by a wire byte.
    ///
    /// # Errors
    ///
    /// `InvalidEnumValue` for a byte that names no variant.
    pub fn from_wire_byte(b: u8) -> (r: Result<Priority, TypeError>)
        ensures
            r == spec_priority_from_byte(b),
    {
        if b == 1 {
            Ok(Priority::Critical)
        } else if b == 2 {
            Ok(Priority::High)
        } else if b == 3 {
            Ok(Priority::Normal)
        } else if b == 4 {
            Ok(Priority::Low)
        } else if b == 5 {
            Ok(Priority::Background)
        } else {
            Err(TypeError::InvalidEnumValue { enum_name: "Priority", value: b as u64 })
        }
    }
}

/// Reading back the byte of a value gives the value.
pub proof fn lemma_priority_roundtrip(e: Priority)
    ensures
        spec_priority_from_byte(spec_priority_byte(e)) == Ok::<Priority, TypeError>(e),
{
}


/// Whether a file-tree entry is a file or a directory.
#[derive(Clone, Copy, Debug, PartialEq, Eq, Hash, Structural)]
pub enum FileEntryKind {
    File,
    Directory,
}

pub open spec fn spec_file_entry_kind_byte(e: FileEntryKind) -> u8 {
    match e {
        FileEntryKind::File => 0,
        FileEntryKind::Directory => 1,
    }
}

pub open spec fn spec_file_entry_kind_from_byte(b: u8) -> Result<FileEntryKind, TypeError> {
    if b == 0 {
        Ok(FileEntryKind::File)
    } else if b == 1 {
        Ok(FileEntryKind::Directory)
    } else {
        Err(TypeError::InvalidEnumValue { enum_name: "FileEntryKind", value: b as u64 })
    }
}

impl FileEntryKind {
    /// The wire byte of this value.
    pub fn to_wire_byte(&self) -> (b: u8)
        ensures
            b == spec_file_entry_kind_byte(*self),
    {
        match self {
            FileEntryKind::File => 0,
            FileEntryKind::Directory => 1,
        }
    }

    /// The value named by a wire byte.
    ///
    /// # Errors
    ///
    /// `InvalidEnumValue` for a byte that names no variant.
    pub fn from_wire_byte(b: u8) -> (r: Result<FileEntryKind, TypeError>)
        ensures
            r == spec_file_entry_kind_from_byte(b),
    {
        if b == 0 {
            Ok(FileEntryKind::File)
        } else if b == 1 {
            Ok(FileEntryKind::Directory)
        } else {
            Err(TypeError::InvalidEnumValue { enum_name: "FileEntryKind", value: b as u64 })
        }
    }
}

/// Reading back the byte of a value gives the value.
pub proof fn lemma_file_entry_kind_roundtrip(e: FileEntryKind)
    ensures
        spec_file_entry_kind_from_byte(spec_file_entry_kind_byte(e)) == Ok::<FileEntryKind, TypeError>(e),
{
}

} // verus!
