//! The decoder driver: walks a schema depth-first in field order, decodes one
//! primitive from the cursor for each leaf, and assembles a value tree of the
//! same shape as the schema.
//!
//! The whole algorithm is stated once as a specification
//! ([`spec_decode_fields`]) and the executable engine is proved to return
//! exactly what the specification says, for every schema, every seed and
//! every byte buffer.

use vstd::prelude::*;
use crate::cursor::{
    bool_at, bool_err_at, bool_read_ok, bytes_at, bytes_end, bytes_read_ok, u32_at, u32_read_ok,
    u64_at, u64_read_ok, Cursor, CursorError,
};
use crate::schema::{schema_entries_wf, schema_node_wf, SchemaNode};
use crate::value::{
    lemma_model_find, lemma_model_put_get, lemma_value_entries_model, lemma_value_entries_push,
    model_get, model_put, value_entries_model, value_model, ValueMap, ValueModel, ValueNode,
};
use vstd::pervasive::unreached;

verus! {

/// An error of the decoder or of schema construction.
///
/// The two decode-time errors carry the path of field names from the root of
/// the schema down to the field where decoding stopped.
#[derive(Debug)]
pub enum AbiError {
    /// The schema text is not well-formed structured data.
    ParseError,
    /// The schema text parsed, but its top level is not an object.
    MalformedSchema,
    /// A schema leaf names a tag outside the closed primitive set, or a
    /// schema node is neither a leaf nor a group.
    UnsupportedType { path: Vec<String> },
    /// The cursor could not decode the primitive a schema leaf asked for.
    CursorDecodeError { path: Vec<String>, cause: CursorError },
}

/// Mathematical model of a decode-time error: the field path and, for a
/// cursor failure, its cause.
pub enum ErrModel {
    Unsupported { path: Seq<Seq<char>> },
    CursorFailed { path: Seq<Seq<char>>, cause: CursorError },
}

/// Whether an error is one of the two decode-time kinds.
pub open spec fn is_decode_err(e: AbiError) -> bool {
    ||| e matches AbiError::UnsupportedType { .. }
    ||| e matches AbiError::CursorDecodeError { .. }
}

/// The model of a decode-time error.
pub open spec fn err_model_of(e: AbiError) -> ErrModel {
    match e {
        AbiError::UnsupportedType { path } => ErrModel::Unsupported { path: path.deep_view() },
        AbiError::CursorDecodeError { path, cause } => ErrModel::CursorFailed {
            path: path.deep_view(),
            cause,
        },
        _ => ErrModel::Unsupported { path: Seq::empty() },
    }
}

/// Prepends one field name to an error's path.
pub open spec fn err_prepend(k: Seq<char>, e: ErrModel) -> ErrModel {
    match e {
        ErrModel::Unsupported { path } => ErrModel::Unsupported { path: seq![k] + path },
        ErrModel::CursorFailed { path, cause } => ErrModel::CursorFailed {
            path: seq![k] + path,
            cause,
        },
    }
}

/// The closed set of primitive type tags.
pub open spec fn tag_recognized(t: Seq<char>) -> bool {
    ||| t == "u64"@
    ||| t == "bytes"@
    ||| t == "bool"@
    ||| t == "u32"@
}

/// What decoding one recognized primitive at `pos` yields: its value and the
/// position just past it, or the cursor's failure.
pub open spec fn spec_decode_prim(t: Seq<char>, data: Seq<u8>, pos: int) -> Result<
    (ValueModel, int),
    CursorError,
> {
    if t == "u64"@ {
        if u64_read_ok(data, pos) {
            Ok((ValueModel::U64(u64_at(data, pos)), pos + 8))
        } else {
            Err(CursorError::UnexpectedEof)
        }
    } else if t == "bytes"@ {
        if bytes_read_ok(data, pos) {
            Ok((ValueModel::Bytes(bytes_at(data, pos)), bytes_end(data, pos)))
        } else {
            Err(CursorError::UnexpectedEof)
        }
    } else if t == "bool"@ {
        if bool_read_ok(data, pos) {
            Ok((ValueModel::Bool(bool_at(data, pos)), pos + 1))
        } else {
            Err(bool_err_at(data, pos))
        }
    } else {
        if u32_read_ok(data, pos) {
            Ok((ValueModel::U32(u32_at(data, pos)), pos + 4))
        } else {
            Err(CursorError::UnexpectedEof)
        }
    }
}

/// What decoding one schema node at `pos` yields.
///
/// `seed` is the value already present in the output under this node's key,
/// if any.  A seeded leaf keeps its seed — the primitive is still decoded
/// and its bytes consumed, but the decoded value is dropped — and a seeded
/// group is filled in place: its present fields are kept, its missing ones
/// decoded.  An error carries the position at which the failing field's
/// decoding started.
pub open spec fn spec_decode_node(
    n: SchemaNode,
    seed: Option<ValueModel>,
    data: Seq<u8>,
    pos: int,
) -> Result<(ValueModel, int), (ErrModel, int)>
    decreases n, 0int,
{
    match n {
        SchemaNode::Leaf(t) => if !tag_recognized(t@) {
            Err((ErrModel::Unsupported { path: Seq::empty() }, pos))
        } else {
            match spec_decode_prim(t@, data, pos) {
                Ok((v, p2)) => Ok(
                    (
                        match seed {
                            Some(s) => s,
                            None => v,
                        },
                        p2,
                    ),
                ),
                Err(c) => Err((ErrModel::CursorFailed { path: Seq::empty(), cause: c }, pos)),
            }
        },
        SchemaNode::Group(m) => {
            let sub = match seed {
                Some(ValueModel::Group(s)) => s,
                _ => Seq::empty(),
            };
            match spec_decode_fields(m.entries@, 0, sub, data, pos) {
                Ok((out, p2)) => Ok((ValueModel::Group(out), p2)),
                Err(e) => Err(e),
            }
        },
        SchemaNode::Other => Err((ErrModel::Unsupported { path: Seq::empty() }, pos)),
    }
}

/// What decoding the fields of one group yields, starting at field `i` with
/// the group's output built up in `acc`: the finished group and the position
/// just past its bytes, or the first error, annotated with the path to the
/// failing field.
pub open spec fn spec_decode_fields(
    fields: Seq<(String, SchemaNode)>,
    i: int,
    acc: Seq<(Seq<char>, ValueModel)>,
    data: Seq<u8>,
    pos: int,
) -> Result<(Seq<(Seq<char>, ValueModel)>, int), (ErrModel, int)>
    decreases fields, fields.len() - i,
{
    if i < 0 || i >= fields.len() {
        Ok((acc, pos))
    } else {
        let k = fields[i].0@;
        match spec_decode_node(fields[i].1, model_get(acc, k), data, pos) {
            Err((e, ep)) => Err((err_prepend(k, e), ep)),
            Ok((v, p2)) => spec_decode_fields(fields, i + 1, model_put(acc, k, v), data, p2),
        }
    }
}

/// A seed value fits a schema node: wherever the schema expects a group, a
/// present seed is itself a group, recursively.
pub open spec fn seed_compat_node(n: SchemaNode, seed: Option<ValueModel>) -> bool
    decreases n, 0int,
{
    match n {
        SchemaNode::Group(m) => match seed {
            Some(v) => match v {
                ValueModel::Group(sub) => seed_compat_fields(m.entries@, sub),
                _ => false,
            },
            None => true,
        },
        _ => true,
    }
}

/// Every seeded value in `acc` fits the schema field of the same name.
pub open spec fn seed_compat_fields(
    fields: Seq<(String, SchemaNode)>,
    acc: Seq<(Seq<char>, ValueModel)>,
) -> bool
    decreases fields, fields.len() + 1,
{
    forall|i: int|
        0 <= i < fields.len() ==> seed_compat_node(
            (#[trigger] fields[i]).1,
            model_get(acc, fields[i].0@),
        )
}

/// As `seed_compat_fields`, but only for the fields from `i` on.
pub open spec fn seed_compat_from(
    fields: Seq<(String, SchemaNode)>,
    i: int,
    acc: Seq<(Seq<char>, ValueModel)>,
) -> bool {
    forall|j: int|
        i <= j < fields.len() ==> seed_compat_node(
            (#[trigger] fields[j]).1,
            model_get(acc, fields[j].0@),
        )
}

/// Prepends one field name to a decode-time error's path.
fn err_prepend_exec(k: &String, e: AbiError) -> (r: AbiError)
    requires
        is_decode_err(e),
    ensures
        is_decode_err(r),
        err_model_of(r) == err_prepend(k@, err_model_of(e)),
{
    match e {
        AbiError::UnsupportedType { path } => {
            let ghost old_path = path;
            let mut p = path;
            p.insert(0, k.clone());
            proof {
                assert(p.deep_view() =~= seq![k@] + old_path.deep_view());
            }
            AbiError::UnsupportedType { path: p }
        },
        AbiError::CursorDecodeError { path, cause } => {
            let ghost old_path = path;
            let mut p = path;
            p.insert(0, k.clone());
            proof {
                assert(p.deep_view() =~= seq![k@] + old_path.deep_view());
            }
            AbiError::CursorDecodeError { path: p, cause }
        },
        _ => unreached(),
    }
}

/// An empty field path.
fn empty_path() -> (p: Vec<String>)
    ensures
        p.deep_view() == Seq::<Seq<char>>::empty(),
{
    let p: Vec<String> = Vec::new();
    proof {
        assert(p.deep_view() =~= Seq::<Seq<char>>::empty());
    }
    p
}

/// The model of a seed as the engine passes it.
pub open spec fn opt_value_model(o: Option<ValueNode>) -> Option<ValueModel> {
    match o {
        Some(v) => Some(value_model(v)),
        None => None,
    }
}

/// Decodes one schema node against the cursor, exactly as
/// [`spec_decode_node`] says.
pub(crate) fn decode_node_exec(n: &SchemaNode, seed: Option<ValueNode>, cursor: &mut Cursor) -> (r:
    Result<ValueNode, AbiError>)
    requires
        old(cursor).wf(),
        schema_node_wf(*n),
        seed_compat_node(*n, opt_value_model(seed)),
    ensures
        final(cursor).wf(),
        final(cursor).bytes() == old(cursor).bytes(),
        match spec_decode_node(*n, opt_value_model(seed), old(cursor).bytes(), old(
            cursor,
        ).position()) {
            Ok(p) => match r {
                Ok(v) => value_model(v) == p.0 && final(cursor).position() == p.1,
                Err(_) => false,
            },
            Err(q) => match r {
                Err(e) => is_decode_err(e) && err_model_of(e) == q.0 && final(cursor).position()
                    == q.1,
                Ok(_) => false,
            },
        },
    decreases *n, 0int,
{
    match n {
        SchemaNode::Leaf(t) => {
            let decoded: Result<ValueNode, CursorError> = if t.eq(&"u64".to_owned()) {
                match cursor.decode_u64() {
                    Ok(x) => Ok(ValueNode::U64(x)),
                    Err(c) => Err(c),
                }
            } else if t.eq(&"bytes".to_owned()) {
                match cursor.decode_bytes() {
                    Ok(v) => Ok(ValueNode::Bytes(v)),
                    Err(c) => Err(c),
                }
            } else if t.eq(&"bool".to_owned()) {
                match cursor.decode_bool() {
                    Ok(b) => Ok(ValueNode::Bool(b)),
                    Err(c) => Err(c),
                }
            } else if t.eq(&"u32".to_owned()) {
                match cursor.decode_u32() {
                    Ok(x) => Ok(ValueNode::U32(x)),
                    Err(c) => Err(c),
                }
            } else {
                return Err(AbiError::UnsupportedType { path: empty_path() });
            };
            match decoded {
                Ok(v) => match seed {
                    Some(s) => Ok(s),
                    None => Ok(v),
                },
                Err(c) => Err(AbiError::CursorDecodeError { path: empty_path(), cause: c }),
            }
        },
        SchemaNode::Group(m) => {
            let sub: ValueMap = match seed {
                Some(ValueNode::Group(s)) => s,
                Some(_) => unreached(),
                None => ValueMap::new(),
            };
            match decode_fields_exec(&m.entries, 0, sub, cursor) {
                Ok(out) => Ok(ValueNode::Group(out)),
                Err(e) => Err(e),
            }
        },
        SchemaNode::Other => Err(AbiError::UnsupportedType { path: empty_path() }),
    }
}

/// Decodes the fields of one group from field `i` on, exactly as
/// [`spec_decode_fields`] says.
pub(crate) fn decode_fields_exec(
    fields: &Vec<(String, SchemaNode)>,
    i: usize,
    acc: ValueMap,
    cursor: &mut Cursor,
) -> (r: Result<ValueMap, AbiError>)
    requires
        i <= fields@.len(),
        old(cursor).wf(),
        schema_entries_wf(fields@),
        seed_compat_from(fields@, i as int, acc.model()),
    ensures
        final(cursor).wf(),
        final(cursor).bytes() == old(cursor).bytes(),
        match spec_decode_fields(fields@, i as int, acc.model(), old(cursor).bytes(), old(
            cursor,
        ).position()) {
            Ok(p) => match r {
                Ok(m) => m.model() == p.0 && final(cursor).position() == p.1,
                Err(_) => false,
            },
            Err(q) => match r {
                Err(e) => is_decode_err(e) && err_model_of(e) == q.0 && final(cursor).position()
                    == q.1,
                Ok(_) => false,
            },
        },
    decreases fields@, fields@.len() - i,
{
    if i >= fields.len() {
        return Ok(acc);
    }
    let ghost acc0 = acc.model();
    let k: &String = &fields[i].0;
    let n: &SchemaNode = &fields[i].1;
    let found = acc.find(k);
    proof {
        lemma_value_entries_model(acc.entries@);
        lemma_model_find(acc.model(), k@);
    }
    match found {
        Some(j) => {
            let mut acc = acc;
            let ghost old_entries = acc.entries@;
            let (k0, node0) = acc.entries.remove(j);
            proof {
                lemma_value_entries_model(old_entries);
                assert(value_model(node0) == acc0[j as int].1);
                assert(model_get(acc0, k@) == Some(value_model(node0)));
            }
            match decode_node_exec(n, Some(node0), cursor) {
                Ok(v2) => {
                    acc.entries.insert(j, (k0, v2));
                    proof {
                        assert(acc.entries@ =~= old_entries.update(j as int, (k0, v2)));
                        lemma_value_entries_update(old_entries, j as int, (k0, v2));
                        assert(k0@ == k@);
                        assert(acc.model() =~= model_put(acc0, k@, value_model(v2)));
                        lemma_compat_after_put(fields@, i as int, acc0, k@, value_model(v2));
                    }
                    decode_fields_exec(fields, i + 1, acc, cursor)
                },
                Err(e) => Err(err_prepend_exec(k, e)),
            }
        },
        None => {
            match decode_node_exec(n, None, cursor) {
                Ok(v2) => {
                    let mut acc = acc;
                    let ghost old_entries = acc.entries@;
                    let key2 = k.clone();
                    acc.entries.push((key2, v2));
                    proof {
                        lemma_value_entries_push(old_entries, (key2, v2));
                        assert(acc.model() =~= model_put(acc0, k@, value_model(v2)));
                        lemma_compat_after_put(fields@, i as int, acc0, k@, value_model(v2));
                    }
                    decode_fields_exec(fields, i + 1, acc, cursor)
                },
                Err(e) => Err(err_prepend_exec(k, e)),
            }
        },
    }
}

/// Updating an entry updates its model.
pub proof fn lemma_value_entries_update(
    es: Seq<(String, ValueNode)>,
    i: int,
    p: (String, ValueNode),
)
    requires
        0 <= i < es.len(),
    ensures
        value_entries_model(es.update(i, p)) == value_entries_model(es).update(
            i,
            (p.0@, value_model(p.1)),
        ),
{
    lemma_value_entries_model(es);
    lemma_value_entries_model(es.update(i, p));
    assert(value_entries_model(es.update(i, p)) =~= value_entries_model(es).update(
        i,
        (p.0@, value_model(p.1)),
    ));
}

/// After the engine writes the value of field `i`, the seeds of the fields
/// after `i` are unchanged, since field names are unique.
pub proof fn lemma_compat_after_put(
    fields: Seq<(String, SchemaNode)>,
    i: int,
    acc: Seq<(Seq<char>, ValueModel)>,
    k: Seq<char>,
    v: ValueModel,
)
    requires
        0 <= i < fields.len(),
        schema_entries_wf(fields),
        seed_compat_from(fields, i, acc),
        k == fields[i].0@,
    ensures
        seed_compat_from(fields, i + 1, model_put(acc, k, v)),
{
    assert forall|j: int| i + 1 <= j < fields.len() implies seed_compat_node(
        (#[trigger] fields[j]).1,
        model_get(model_put(acc, k, v), fields[j].0@),
    ) by {
        assert(fields[i].0@ != fields[j].0@);
        lemma_model_put_get(acc, k, v, fields[j].0@);
    }
}

} // verus!
