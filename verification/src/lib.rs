//! Schema-driven decoder for a canonical, length-prefixed binary encoding.
//!
//! A schema is a tree of field names: every field is either a leaf naming one
//! of the four primitive encodings (`"u64"`, `"u32"`, `"bool"`, `"bytes"`) or
//! a nested group of further fields.  Decoding walks the schema in field
//! order, reads one primitive from a byte cursor for each leaf, and builds a
//! value tree of the same shape as the schema.  The decoded tree can be
//! rendered to compact or pretty JSON text.

pub mod abi;
pub mod cursor;
pub mod decode;
pub mod laws;
pub mod render;
pub mod schema;
pub mod text;
pub mod value;

pub use abi::AbiDeserializer;
pub use cursor::Cursor;
pub use cursor::CursorError;
pub use value::ValueMap;
pub use value::ValueNode;
pub use decode::AbiError;
pub use schema::SchemaMap;
pub use schema::SchemaNode;
pub use render::render_compact;
pub use render::render_pretty;
