//! Structured parse errors.
//!
//! Every failure carries enough context (entity kind, array position, field,
//! offending value) to locate the faulty part of the document without
//! re-parsing it. No error is ever downgraded to a default value.

use vstd::prelude::*;

verus! {

/// The kind of document entity an error refers to.
#[derive(Clone, Copy, Debug, PartialEq, Eq, Structural)]
pub enum Entity {
    /// The top-level document object.
    Document,
    /// An element of the `buffers` array.
    Buffer,
    /// An element of the `bufferViews` array.
    BufferView,
    /// An element of the `accessors` array.
    Accessor,
}

/// The document field an error refers to.
#[derive(Clone, Copy, Debug, PartialEq, Eq, Structural)]
pub enum Field {
    /// The top-level `buffers` array.
    Buffers,
    /// The top-level `bufferViews` array.
    BufferViews,
    /// The top-level `accessors` array.
    Accessors,
    /// A `byteLength` field.
    ByteLength,
    /// A `uri` field.
    Uri,
    /// A `buffer` index field of a buffer view.
    Buffer,
    /// A `byteOffset` field.
    ByteOffset,
    /// A `byteStride` field.
    ByteStride,
    /// A `bufferView` index field of an accessor.
    BufferView,
    /// A `type` field of an accessor.
    ElementType,
    /// A `componentType` field of an accessor.
    ComponentType,
    /// A `count` field of an accessor.
    Count,
}

/// A terminal parse failure. The first error encountered aborts the whole
/// parse; no partial document is ever returned.
#[derive(Debug, PartialEq, Eq)]
pub enum GltfError {
    /// The document text is not well-formed JSON; carries the line and
    /// column of the syntax error.
    JsonSyntax { line: usize, column: usize },
    /// A required key is absent. `index` is the entity's position in its
    /// array (0 for the top-level document).
    MissingField { entity: Entity, field: Field, index: usize },
    /// A key is present but its JSON value has the wrong type.
    TypeMismatch { entity: Entity, field: Field, index: usize },
    /// A `componentType` code outside the recognized set; carries the
    /// offending code and the accessor's position.
    UnrecognizedComponentType { value: u64, index: usize },
    /// A `type` tag outside the recognized set; carries the offending tag
    /// and the accessor's position.
    UnrecognizedAccessorType { value: String, index: usize },
    /// A cross-reference index that exceeds the referenced array's bounds;
    /// the valid range is `[0, bound)`.
    IndexOutOfRange { entity: Entity, field: Field, index: usize, value: u64, bound: u64 },
    /// A loaded buffer's size disagrees with its declared `byteLength`.
    ByteLengthMismatch { index: usize, declared: u64, actual: u64 },
    /// An entity's byte range ends past the end of the object it refers
    /// into: `end` is the exclusive end of the range, `bound` the size of
    /// the referenced object.
    ExtentOutOfRange { entity: Entity, index: usize, end: u128, bound: u64 },
}

} // verus!
