//! Structural parser and validator for the buffer-layout portion of a
//! glTF 2.0 document: the `buffers`, `bufferViews` and `accessors` arrays.
//!
//! The caller (an ordinary I/O shell) reads the document text and the raw
//! binary side files; this crate turns them into a validated [`ParsedGLTF`]
//! or a structured error, and proves exactly which documents are accepted.
#![verifier::loop_isolation(false)]

pub mod error;
pub mod json;
pub mod laws;
pub mod parse;
pub mod types;
pub mod uri;

pub use types::Accessor;
pub use types::AccessorType;
pub use types::Buffer;
pub use types::BufferSpec;
pub use types::BufferView;
pub use types::ComponentType;
pub use types::ParsedGLTF;

pub use error::Entity;
pub use error::Field;
pub use error::GltfError;

