//! The validated data model: buffers, buffer views, accessors, and the
//! enum-coded type tags they carry.

use vstd::prelude::*;

use crate::error::Entity;
use crate::error::Field;
use crate::error::GltfError;

verus! {

/// The numeric encoding of one scalar component of an accessor's element.
#[derive(Clone, Copy, Debug, PartialEq, Eq, Structural)]
pub enum ComponentType {
    /// Code 5120: signed 8-bit.
    Byte,
    /// Code 5121: unsigned 8-bit.
    UnsignedByte,
    /// Code 5122: signed 16-bit.
    Short,
    /// Code 5123: unsigned 16-bit.
    UnsignedShort,
    /// Code 5125: unsigned 32-bit.
    UnsignedInt,
    /// Code 5126: 32-bit float.
    Float,
}

/// The element shape of an accessor: scalar, vector, or square matrix.
#[derive(Clone, Copy, Debug, PartialEq, Eq, Structural)]
pub enum AccessorType {
    /// Tag `"SCALAR"`: 1 component.
    Scalar,
    /// Tag `"VEC2"`: 2 components.
    Vec2,
    /// Tag `"VEC3"`: 3 components.
    Vec3,
    /// Tag `"VEC4"`: 4 components.
    Vec4,
    /// Tag `"MAT2"`: 4 components.
    Mat2,
    /// Tag `"MAT3"`: 9 components.
    Mat3,
    /// Tag `"MAT4"`: 16 components.
    Mat4,
}

/// The component type a numeric code decodes to, or the error for a code
/// outside the recognized set {5120, 5121, 5122, 5123, 5125, 5126}.
pub open spec fn spec_component_type_from_code(code: u64, at: usize) -> Result<
    ComponentType,
    GltfError,
> {
    if code == 5120 {
        Ok(ComponentType::Byte)
    } else if code == 5121 {
        Ok(ComponentType::UnsignedByte)
    } else if code == 5122 {
        Ok(ComponentType::Short)
    } else if code == 5123 {
        Ok(ComponentType::UnsignedShort)
    } else if code == 5125 {
        Ok(ComponentType::UnsignedInt)
    } else if code == 5126 {
        Ok(ComponentType::Float)
    } else {
        Err(GltfError::UnrecognizedComponentType { value: code, index: at })
    }
}

/// The byte width of one component of the given type.
pub open spec fn spec_byte_width(c: ComponentType) -> u64 {
    match c {
        ComponentType::Byte => 1,
        ComponentType::UnsignedByte => 1,
        ComponentType::Short => 2,
        ComponentType::UnsignedShort => 2,
        ComponentType::UnsignedInt => 4,
        ComponentType::Float => 4,
    }
}

/// The accessor type a string tag decodes to, or the error for a tag
/// outside the recognized set. The error carries the offending tag.
pub open spec fn spec_accessor_type_from_tag(tag: String, at: usize) -> Result<
    AccessorType,
    GltfError,
> {
    if tag@ == "SCALAR"@ {
        Ok(AccessorType::Scalar)
    } else if tag@ == "VEC2"@ {
        Ok(AccessorType::Vec2)
    } else if tag@ == "VEC3"@ {
        Ok(AccessorType::Vec3)
    } else if tag@ == "VEC4"@ {
        Ok(AccessorType::Vec4)
    } else if tag@ == "MAT2"@ {
        Ok(AccessorType::Mat2)
    } else if tag@ == "MAT3"@ {
        Ok(AccessorType::Mat3)
    } else if tag@ == "MAT4"@ {
        Ok(AccessorType::Mat4)
    } else {
        Err(GltfError::UnrecognizedAccessorType { value: tag, index: at })
    }
}

/// The number of components in one element of the given shape.
pub open spec fn spec_num_components(t: AccessorType) -> u64 {
    match t {
        AccessorType::Scalar => 1,
        AccessorType::Vec2 => 2,
        AccessorType::Vec3 => 3,
        AccessorType::Vec4 => 4,
        AccessorType::Mat2 => 4,
        AccessorType::Mat3 => 9,
        AccessorType::Mat4 => 16,
    }
}

impl ComponentType {
    /// Decodes a `componentType` integer code; `at` is the accessor's
    /// position in its array, carried into the error.
    pub fn from_code(code: u64, at: usize) -> (r: Result<ComponentType, GltfError>)
        ensures
            r == spec_component_type_from_code(code, at),
    {
        if code == 5120 {
            Ok(ComponentType::Byte)
        } else if code == 5121 {
            Ok(ComponentType::UnsignedByte)
        } else if code == 5122 {
            Ok(ComponentType::Short)
        } else if code == 5123 {
            Ok(ComponentType::UnsignedShort)
        } else if code == 5125 {
            Ok(ComponentType::UnsignedInt)
        } else if code == 5126 {
            Ok(ComponentType::Float)
        } else {
            Err(GltfError::UnrecognizedComponentType { value: code, index: at })
        }
    }

    /// The byte width of one component: 1 for the 8-bit types, 2 for the
    /// 16-bit types, 4 for unsigned 32-bit and 32-bit float.
    pub fn byte_width(&self) -> (r: u64)
        ensures
            r == spec_byte_width(*self),
    {
        match self {
            ComponentType::Byte => 1,
            ComponentType::UnsignedByte => 1,
            ComponentType::Short => 2,
            ComponentType::UnsignedShort => 2,
            ComponentType::UnsignedInt => 4,
            ComponentType::Float => 4,
        }
    }
}

impl AccessorType {
    /// Decodes a `type` string tag; `at` is the accessor's position in its
    /// array, carried into the error.
    pub fn from_tag(tag: &String, at: usize) -> (r: Result<AccessorType, GltfError>)
        ensures
            r == spec_accessor_type_from_tag(*tag, at),
    {
        if *tag == String::from_str("SCALAR") {
            Ok(AccessorType::Scalar)
        } else if *tag == String::from_str("VEC2") {
            Ok(AccessorType::Vec2)
        } else if *tag == String::from_str("VEC3") {
            Ok(AccessorType::Vec3)
        } else if *tag == String::from_str("VEC4") {
            Ok(AccessorType::Vec4)
        } else if *tag == String::from_str("MAT2") {
            Ok(AccessorType::Mat2)
        } else if *tag == String::from_str("MAT3") {
            Ok(AccessorType::Mat3)
        } else if *tag == String::from_str("MAT4") {
            Ok(AccessorType::Mat4)
        } else {
            Err(GltfError::UnrecognizedAccessorType { value: tag.clone(), index: at })
        }
    }

    /// The number of components per element: 1 for a scalar, 2 to 4 for a
    /// vector, 4, 9 or 16 for a square matrix.
    pub fn num_components(&self) -> (r: u64)
        ensures
            r == spec_num_components(*self),
    {
        match self {
            AccessorType::Scalar => 1,
            AccessorType::Vec2 => 2,
            AccessorType::Vec3 => 3,
            AccessorType::Vec4 => 4,
            AccessorType::Mat2 => 4,
            AccessorType::Mat3 => 9,
            AccessorType::Mat4 => 16,
        }
    }
}

/// A buffer as declared in the document, before its bytes are loaded:
/// the declared byte length and the URI the bytes live at.
#[derive(Debug, PartialEq, Eq)]
pub struct BufferSpec {
    /// The declared `byteLength`.
    pub byte_length: u64,
    /// The `uri` the raw bytes are to be loaded from, relative to the
    /// document's directory.
    pub uri: String,
}

/// A named binary source whose loaded bytes matched its declared length.
#[derive(Debug, PartialEq, Eq)]
pub struct Buffer {
    /// The raw bytes, exactly as loaded.
    pub data: Vec<u8>,
}

impl View for Buffer {
    type V = Seq<u8>;

    open spec fn view(&self) -> Seq<u8> {
        self.data@
    }
}

/// A contiguous byte range inside one buffer, optionally strided.
#[derive(Clone, Copy, Debug, PartialEq, Eq, Structural)]
pub struct BufferView {
    /// Index into the document's `buffers` array.
    pub buffer: u64,
    /// Offset of the range inside that buffer, in bytes.
    pub byte_offset: u64,
    /// Length of the range, in bytes.
    pub byte_length: u64,
    /// Distance between elements for interleaved data; 0 means tightly
    /// packed.
    pub byte_stride: u64,
}

/// A typed view over a buffer view's bytes: element shape, component
/// encoding, and element count.
#[derive(Clone, Copy, Debug, PartialEq, Eq, Structural)]
pub struct Accessor {
    /// Index into the document's `bufferViews` array.
    pub buffer_view: u64,
    /// Offset inside that view, in bytes.
    pub byte_offset: u64,
    /// The element shape.
    pub data_type: AccessorType,
    /// The scalar component encoding.
    pub component_type: ComponentType,
    /// The number of elements.
    pub count: u64,
}

/// The mathematical content of a parsed document: the bytes of each
/// buffer, and the two descriptor sequences.
pub ghost struct ParsedView {
    /// The raw bytes of each buffer, in document order.
    pub buffers: Seq<Seq<u8>>,
    /// The buffer views, in document order.
    pub buffer_views: Seq<BufferView>,
    /// The accessors, in document order.
    pub accessors: Seq<Accessor>,
}

/// The parse result: three parallel index spaces. Positions in these
/// sequences are the indices the entities refer to each other by, so no
/// entity is ever removed or reordered after construction.
#[derive(Debug)]
pub struct ParsedGLTF {
    /// The loaded buffers; `buffer_views[i].buffer` indexes this sequence.
    pub buffers: Vec<Buffer>,
    /// The buffer views; `accessors[i].buffer_view` indexes this sequence.
    pub buffer_views: Vec<BufferView>,
    /// The accessors.
    pub accessors: Vec<Accessor>,
}

/// The byte sequences of a sequence of buffers.
pub open spec fn buffers_bytes(bufs: Seq<Buffer>) -> Seq<Seq<u8>> {
    Seq::new(bufs.len(), |i: int| bufs[i]@)
}

impl View for ParsedGLTF {
    type V = ParsedView;

    open spec fn view(&self) -> ParsedView {
        ParsedView {
            buffers: buffers_bytes(self.buffers@),
            buffer_views: self.buffer_views@,
            accessors: self.accessors@,
        }
    }
}

} // verus!
