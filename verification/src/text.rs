//! Construction of a schema tree from JSON text, through serde_json.
//!
//! The text format is an object whose every value is either a string naming
//! a primitive type tag or a nested object of the same shape.  Parsing the
//! text is serde_json's job; everything after the parse — the shape check
//! and all decoding — is verified code over the library's own schema tree.

use vstd::prelude::*;
use crate::schema::{schema_node_wf, SchemaMap, SchemaNode};

verus! {

#[verifier::external_type_specification]
#[verifier::external_body]
pub struct ExValue(serde_json::Value);

/// Relies on serde_json::Value's variants: a JSON string becomes a leaf
/// carrying its text, a JSON object a group carrying its fields — in order,
/// with unique names, as serde_json's map holds them — and any other JSON
/// value the node that no decode accepts.
#[verifier::external_body]
fn schema_node_of_json(v: serde_json::Value) -> (r: SchemaNode)
    ensures
        schema_node_wf(r),
{
    match v {
        serde_json::Value::String(s) => SchemaNode::Leaf(s),
        serde_json::Value::Object(m) => SchemaNode::Group(
            SchemaMap { entries: m.into_iter().map(|(k, c)| (k, schema_node_of_json(c))).collect() },
        ),
        _ => SchemaNode::Other,
    }
}

/// The schema that the given text parses to, or a failure for text that the
/// parser rejects.
///
/// Parsing depends on the text alone, so its result bears a name: what the
/// name is on a given text is never stated, only that [`parse_schema_text`]
/// returns it, which lets callers' contracts say exactly how their results
/// follow from the parse.
pub uninterp spec fn parse_of(s: Seq<char>) -> Result<SchemaNode, ()>;

/// Relies on serde_json::from_str::<Value>: parses JSON text into one JSON
/// value, failing when the text is not JSON it accepts (ill-formed text, or
/// nesting beyond serde_json's recursion limit).  The result is a function
/// of the text alone, named [`parse_of`].
#[verifier::external_body]
pub(crate) fn parse_schema_text(s: &str) -> (r: Result<SchemaNode, ()>)
    ensures
        r == parse_of(s@),
        r matches Ok(n) ==> schema_node_wf(n),
{
    match serde_json::from_str::<serde_json::Value>(s) {
        Ok(v) => Ok(schema_node_of_json(v)),
        Err(_) => Err(()),
    }
}

} // verus!
