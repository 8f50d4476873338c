//! Tag values, declared sizes and decoding errors.
use vstd::prelude::*;
use crate::vint::be_value;
use crate::payload::{utf8_text, signed_value, be_u64, be_i64, decode_utf8};

verus! {

/// Semantic type that a specification declares for a tag identifier.
#[derive(Clone, Copy, Debug, PartialEq, Eq, Structural)]
pub enum DataType {
    Master,
    UnsignedInt,
    Integer,
    Utf8,
    Binary,
    Float,
}

/// Declared payload size of a tag.
#[derive(Clone, Copy, Debug, PartialEq, Eq, Structural)]
pub enum Size {
    Known(u64),
    Unknown,
}

/// A decoded tag.
#[derive(Debug)]
#[allow(inconsistent_fields)]
pub enum Tag {
    MasterStart { id: u64 },
    MasterEnd { id: u64 },
    UnsignedInt { id: u64, value: u64 },
    Integer { id: u64, value: i64 },
    Utf8 { id: u64, value: String },
    /// Payload of a tag declared binary.
    Binary { id: u64, data: Vec<u8> },
    /// Big-endian IEEE-754 payload, four or eight bytes.
    Float { id: u64, data: Vec<u8> },
    /// Payload of a tag whose identifier the specification does not know.
    Raw { id: u64, data: Vec<u8> },
}

#[allow(inconsistent_fields)]
pub enum TagView {
    MasterStart { id: u64 },
    MasterEnd { id: u64 },
    UnsignedInt { id: u64, value: u64 },
    Integer { id: u64, value: i64 },
    Utf8 { id: u64, value: Seq<char> },
    Binary { id: u64, data: Seq<u8> },
    Float { id: u64, data: Seq<u8> },
    Raw { id: u64, data: Seq<u8> },
}

impl View for Tag {
    type V = TagView;

    open spec fn view(&self) -> TagView {
        match self {
            Tag::MasterStart { id } => TagView::MasterStart { id: *id },
            Tag::MasterEnd { id } => TagView::MasterEnd { id: *id },
            Tag::UnsignedInt { id, value } => TagView::UnsignedInt { id: *id, value: *value },
            Tag::Integer { id, value } => TagView::Integer { id: *id, value: *value },
            Tag::Utf8 { id, value } => TagView::Utf8 { id: *id, value: value@ },
            Tag::Binary { id, data } => TagView::Binary { id: *id, data: data@ },
            Tag::Float { id, data } => TagView::Float { id: *id, data: data@ },
            Tag::Raw { id, data } => TagView::Raw { id: *id, data: data@ },
        }
    }
}

/// Why decoding stopped.
#[derive(Debug)]
pub enum DecodeError {
    /// A tag identifier or size whose first byte has no length marker.
    MalformedVint,
    /// The source ended inside a tag identifier or size.
    TruncatedHeader,
    /// A leaf tag declared with the unknown size.
    UnknownSizeLeaf { id: u64 },
    /// The source ended inside a leaf payload.
    TruncatedPayload { id: u64 },
    /// An integer payload wider than eight bytes.
    IntegerTooWide { id: u64, len: usize },
    /// A float payload that is neither four nor eight bytes.
    FloatWidth { id: u64, len: usize },
    /// A text payload that is not valid UTF-8, with its bytes.
    InvalidUtf8 { id: u64, bytes: Vec<u8> },
}

pub enum DecodeErrorView {
    MalformedVint,
    TruncatedHeader,
    UnknownSizeLeaf { id: u64 },
    TruncatedPayload { id: u64 },
    IntegerTooWide { id: u64, len: usize },
    FloatWidth { id: u64, len: usize },
    InvalidUtf8 { id: u64, bytes: Seq<u8> },
}

impl View for DecodeError {
    type V = DecodeErrorView;

    open spec fn view(&self) -> DecodeErrorView {
        match self {
            DecodeError::MalformedVint => DecodeErrorView::MalformedVint,
            DecodeError::TruncatedHeader => DecodeErrorView::TruncatedHeader,
            DecodeError::UnknownSizeLeaf { id } => DecodeErrorView::UnknownSizeLeaf { id: *id },
            DecodeError::TruncatedPayload { id } => DecodeErrorView::TruncatedPayload { id: *id },
            DecodeError::IntegerTooWide { id, len } => DecodeErrorView::IntegerTooWide { id: *id, len: *len },
            DecodeError::FloatWidth { id, len } => DecodeErrorView::FloatWidth { id: *id, len: *len },
            DecodeError::InvalidUtf8 { id, bytes } => DecodeErrorView::InvalidUtf8 { id: *id, bytes: bytes@ },
        }
    }
}

/// The leaf tag that payload `data` of tag `id` decodes to, for declared type
/// `kind` (`None`: the identifier is unknown to the specification).
pub open spec fn leaf_spec(kind: Option<DataType>, id: u64, data: Seq<u8>) -> Result<TagView, DecodeErrorView> {
    match kind {
        None => Ok(TagView::Raw { id, data }),
        Some(DataType::UnsignedInt) => if data.len() > 8 {
            Err(DecodeErrorView::IntegerTooWide { id, len: data.len() as usize })
        } else {
            Ok(TagView::UnsignedInt { id, value: be_value(data) as u64 })
        },
        Some(DataType::Integer) => if data.len() > 8 {
            Err(DecodeErrorView::IntegerTooWide { id, len: data.len() as usize })
        } else {
            Ok(TagView::Integer { id, value: signed_value(data) as i64 })
        },
        Some(DataType::Utf8) => match utf8_text(data) {
            Some(t) => Ok(TagView::Utf8 { id, value: t }),
            None => Err(DecodeErrorView::InvalidUtf8 { id, bytes: data }),
        },
        Some(DataType::Float) => if data.len() == 4 || data.len() == 8 {
            Ok(TagView::Float { id, data })
        } else {
            Err(DecodeErrorView::FloatWidth { id, len: data.len() as usize })
        },
        Some(_) => Ok(TagView::Binary { id, data }),
    }
}

/// Decodes the payload of leaf tag `id` as its declared type `kind`.
pub fn decode_leaf(kind: Option<DataType>, id: u64, data: Vec<u8>) -> (r: Result<Tag, DecodeError>)
    requires
        kind != Some(DataType::Master),
    ensures
        match r {
            Ok(t) => leaf_spec(kind, id, data@) == Ok::<TagView, DecodeErrorView>(t@),
            Err(e) => leaf_spec(kind, id, data@) == Err::<TagView, DecodeErrorView>(e@),
        },
{
    match kind {
        None => Ok(Tag::Raw { id, data }),
        Some(DataType::UnsignedInt) => if data.len() > 8 {
            Err(DecodeError::IntegerTooWide { id, len: data.len() })
        } else {
            Ok(Tag::UnsignedInt { id, value: be_u64(data.as_slice()) })
        },
        Some(DataType::Integer) => if data.len() > 8 {
            Err(DecodeError::IntegerTooWide { id, len: data.len() })
        } else {
            Ok(Tag::Integer { id, value: be_i64(data.as_slice()) })
        },
        Some(DataType::Utf8) => match decode_utf8(data) {
            Ok(value) => Ok(Tag::Utf8 { id, value }),
            Err(bytes) => Err(DecodeError::InvalidUtf8 { id, bytes }),
        },
        Some(DataType::Float) => if data.len() == 4 || data.len() == 8 {
            Ok(Tag::Float { id, data })
        } else {
            Err(DecodeError::FloatWidth { id, len: data.len() })
        },
        Some(_) => Ok(Tag::Binary { id, data }),
    }
}

} // verus!
