//! The decoder's public face: a schema tree adopted from a caller-built map
//! or parsed from text, and the decode entry points over it.

use vstd::prelude::*;
use crate::cursor::Cursor;
use crate::decode::{
    decode_fields_exec, err_model_of, is_decode_err, seed_compat_fields, spec_decode_fields,
    AbiError,
};
use crate::render::{render_compact, render_compact_obj, render_pretty, render_pretty_obj};
use crate::schema::{SchemaMap, SchemaNode};
use crate::text::{parse_of, parse_schema_text};
use crate::value::ValueMap;

verus! {

/// A schema-driven decoder: holds one schema tree, reusable across decode
/// passes against different byte buffers.
pub struct AbiDeserializer(pub SchemaMap);

impl AbiDeserializer {
    /// Field names are unique at every level of the held schema.
    pub open spec fn wf(&self) -> bool {
        self.0.wf()
    }

    /// Adopts an existing schema map by value.  Nothing is validated here:
    /// tags are checked at decode time, field by field, so construction
    /// always succeeds.
    pub fn from_map(m: SchemaMap) -> (d: AbiDeserializer)
        ensures
            d.0 == m,
    {
        AbiDeserializer(m)
    }

    /// Parses a schema from JSON text: the text must be well-formed JSON
    /// whose top level is an object.  Beyond that nothing is validated:
    /// tags are checked at decode time, field by field.
    ///
    /// The outcome follows the parse exactly: a rejected text gives the
    /// parse error, a parsed non-object the malformed-schema error, and a
    /// parsed object a deserializer holding exactly that object — the same
    /// deserializer that [`Self::from_map`] would build from it.
    pub fn from_str(s: &str) -> (r: Result<AbiDeserializer, AbiError>)
        ensures
            match r {
                Ok(d) => d.wf(),
                Err(e) => e matches AbiError::ParseError || e matches AbiError::MalformedSchema,
            },
            match parse_of(s@) {
                Err(_) => r matches Err(AbiError::ParseError),
                Ok(SchemaNode::Group(m)) => (match r {
                    Ok(d) => d.0 == m,
                    Err(_) => false,
                }),
                Ok(_) => r matches Err(AbiError::MalformedSchema),
            },
    {
        match parse_schema_text(s) {
            Err(_) => Err(AbiError::ParseError),
            Ok(node) => match node {
                SchemaNode::Group(m) => Ok(AbiDeserializer(m)),
                _ => Err(AbiError::MalformedSchema),
            },
        }
    }

    /// The held schema map, read-only.
    pub fn get_map(&self) -> (r: &SchemaMap)
        ensures
            *r == self.0,
    {
        &self.0
    }

    /// The held schema map, for callers that patch the schema before
    /// decoding.
    pub fn get_map_mut(&mut self) -> (r: &mut SchemaMap)
        ensures
            *r == old(self).0,
            final(self).0 == *final(r),
    {
        &mut self.0
    }

    /// Decodes one record from the cursor into a fresh value tree, exactly
    /// as [`spec_decode_fields`] says, starting from an empty output.
    pub fn deserialize(&self, cursor: &mut Cursor) -> (r: Result<ValueMap, AbiError>)
        requires
            old(cursor).wf(),
            self.wf(),
        ensures
            final(cursor).wf(),
            final(cursor).bytes() == old(cursor).bytes(),
            match spec_decode_fields(
                self.0.entries@,
                0,
                Seq::empty(),
                old(cursor).bytes(),
                old(cursor).position(),
            ) {
                Ok(p) => match r {
                    Ok(m) => m.model() == p.0 && final(cursor).position() == p.1,
                    Err(_) => false,
                },
                Err(q) => match r {
                    Err(e) => is_decode_err(e) && err_model_of(e) == q.0
                        && final(cursor).position() == q.1,
                    Ok(_) => false,
                },
            },
    {
        self.deserialize_seeded(cursor, ValueMap::new())
    }

    /// Decodes one record from the cursor into the given output, which may
    /// have been pre-seeded: a field already present keeps its seeded value
    /// (its bytes are still consumed), and a pre-seeded nested group is
    /// filled in place.  Wherever the schema holds a group, a pre-seeded
    /// value under that name must itself be a group.
    pub fn deserialize_seeded(&self, cursor: &mut Cursor, seed: ValueMap) -> (r: Result<
        ValueMap,
        AbiError,
    >)
        requires
            old(cursor).wf(),
            self.wf(),
            seed_compat_fields(self.0.entries@, seed.model()),
        ensures
            final(cursor).wf(),
            final(cursor).bytes() == old(cursor).bytes(),
            match spec_decode_fields(
                self.0.entries@,
                0,
                seed.model(),
                old(cursor).bytes(),
                old(cursor).position(),
            ) {
                Ok(p) => match r {
                    Ok(m) => m.model() == p.0 && final(cursor).position() == p.1,
                    Err(_) => false,
                },
                Err(q) => match r {
                    Err(e) => is_decode_err(e) && err_model_of(e) == q.0
                        && final(cursor).position() == q.1,
                    Ok(_) => false,
                },
            },
    {
        decode_fields_exec(&self.0.entries, 0, seed, cursor)
    }

    /// Decodes one record and renders it as compact JSON text.
    pub fn deserialize_to_string(&self, cursor: &mut Cursor) -> (r: Result<String, AbiError>)
        requires
            old(cursor).wf(),
            self.wf(),
        ensures
            final(cursor).wf(),
            final(cursor).bytes() == old(cursor).bytes(),
            match spec_decode_fields(
                self.0.entries@,
                0,
                Seq::empty(),
                old(cursor).bytes(),
                old(cursor).position(),
            ) {
                Ok(p) => match r {
                    Ok(s) => s@ == render_compact_obj(p.0) && final(cursor).position() == p.1,
                    Err(_) => false,
                },
                Err(q) => match r {
                    Err(e) => is_decode_err(e) && err_model_of(e) == q.0
                        && final(cursor).position() == q.1,
                    Ok(_) => false,
                },
            },
    {
        match self.deserialize(cursor) {
            Ok(m) => Ok(render_compact(&m)),
            Err(e) => Err(e),
        }
    }

    /// Decodes one record and renders it as pretty JSON text, indented two
    /// spaces per nesting level.
    pub fn deserialize_to_string_pretty(&self, cursor: &mut Cursor) -> (r: Result<
        String,
        AbiError,
    >)
        requires
            old(cursor).wf(),
            self.wf(),
        ensures
            final(cursor).wf(),
            final(cursor).bytes() == old(cursor).bytes(),
            match spec_decode_fields(
                self.0.entries@,
                0,
                Seq::empty(),
                old(cursor).bytes(),
                old(cursor).position(),
            ) {
                Ok(p) => match r {
                    Ok(s) => s@ == render_pretty_obj(p.0) && final(cursor).position() == p.1,
                    Err(_) => false,
                },
                Err(q) => match r {
                    Err(e) => is_decode_err(e) && err_model_of(e) == q.0
                        && final(cursor).position() == q.1,
                    Ok(_) => false,
                },
            },
    {
        match self.deserialize(cursor) {
            Ok(m) => Ok(render_pretty(&m)),
            Err(e) => Err(e),
        }
    }
}

} // verus!
