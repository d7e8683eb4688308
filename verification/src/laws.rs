//! The decoder's general laws, stated and proved over the decode
//! specification: every successful decode is shape-isomorphic to its schema,
//! pre-seeded values survive a decode untouched, an unrecognized tag fails
//! whatever the cursor holds, and an exhausted cursor fails the decode.

use vstd::prelude::*;
use crate::decode::{
    err_prepend, spec_decode_fields, spec_decode_node, spec_decode_prim, tag_recognized, ErrModel,
};
use crate::cursor::CursorError;
use crate::schema::{schema_entries_wf, schema_node_wf, SchemaNode};
use crate::value::{
    lemma_model_find_none, lemma_model_put_get, model_get, model_put, ValueModel,
};

verus! {

/// A leaf of the given tag produced a value of the matching primitive kind.
pub open spec fn leaf_shape(t: Seq<char>, v: ValueModel) -> bool {
    if t == "u64"@ {
        v matches ValueModel::U64(_)
    } else if t == "bytes"@ {
        v matches ValueModel::Bytes(_)
    } else if t == "bool"@ {
        v matches ValueModel::Bool(_)
    } else {
        v matches ValueModel::U32(_)
    }
}

/// A decoded value has exactly the shape of its schema node: leaves carry
/// primitives of the tag's kind, groups carry groups of the same shape.
pub open spec fn shape_node(n: SchemaNode, v: ValueModel) -> bool
    decreases n, 0int,
{
    match n {
        SchemaNode::Leaf(t) => tag_recognized(t@) && leaf_shape(t@, v),
        SchemaNode::Group(m) => match v {
            ValueModel::Group(out) => shape_fields(m.entries@, out),
            _ => false,
        },
        SchemaNode::Other => false,
    }
}

/// A decoded group has exactly the fields of its schema, under the same
/// names, in the same order, each of the right shape.
pub open spec fn shape_fields(
    fields: Seq<(String, SchemaNode)>,
    out: Seq<(Seq<char>, ValueModel)>,
) -> bool
    decreases fields, fields.len() + 1,
{
    &&& out.len() == fields.len()
    &&& forall|i: int|
        0 <= i < fields.len() ==> (#[trigger] out[i]).0 == fields[i].0@ && shape_node(
            fields[i].1,
            out[i].1,
        )
}

/// Shape isomorphism, one node: decoding a well-formed schema node without
/// a seed yields, when it succeeds, a value of exactly the node's shape.
pub proof fn lemma_shape_node(n: SchemaNode, data: Seq<u8>, pos: int)
    requires
        schema_node_wf(n),
    ensures
        match spec_decode_node(n, None, data, pos) {
            Ok(p) => shape_node(n, p.0),
            Err(_) => true,
        },
    decreases n, 0int,
{
    match n {
        SchemaNode::Leaf(t) => {
        },
        SchemaNode::Group(m) => {
            assert(m.entries@.subrange(0, 0) =~= Seq::<(String, SchemaNode)>::empty());
            lemma_shape_fields(m.entries@, 0, Seq::empty(), data, pos);
        },
        SchemaNode::Other => {
        },
    }
}

/// Shape isomorphism, one group: if the output so far mirrors the fields
/// before `i`, a successful decode of the rest yields an output mirroring
/// the whole group.
pub proof fn lemma_shape_fields(
    fields: Seq<(String, SchemaNode)>,
    i: int,
    acc: Seq<(Seq<char>, ValueModel)>,
    data: Seq<u8>,
    pos: int,
)
    requires
        schema_entries_wf(fields),
        0 <= i <= fields.len(),
        shape_fields(fields.subrange(0, i), acc),
    ensures
        match spec_decode_fields(fields, i, acc, data, pos) {
            Ok(p) => shape_fields(fields, p.0),
            Err(_) => true,
        },
    decreases fields, fields.len() - i,
{
    if i == fields.len() {
        assert(fields.subrange(0, i) =~= fields);
    } else {
        let k = fields[i].0@;
        let pre = fields.subrange(0, i);
        assert forall|j: int| 0 <= j < acc.len() implies (#[trigger] acc[j]).0 != k by {
            assert(acc[j].0 == pre[j].0@);
            assert(pre[j] == fields[j]);
        }
        lemma_model_find_none(acc, k);
        match spec_decode_node(fields[i].1, None, data, pos) {
            Err(_) => {
            },
            Ok((v, p2)) => {
                lemma_shape_node(fields[i].1, data, pos);
                let acc2 = model_put(acc, k, v);
                assert(acc2 == acc.push((k, v)));
                let pre2 = fields.subrange(0, i + 1);
                assert forall|j: int|
                    0 <= j < pre2.len() implies (#[trigger] acc2[j]).0 == pre2[j].0@ && shape_node(
                    pre2[j].1,
                    acc2[j].1,
                ) by {
                    assert(pre2[j] == fields[j]);
                    if j < i {
                        assert(acc2[j] == acc[j]);
                        assert(pre[j] == fields[j]);
                    } else {
                        assert(acc2[j] == (k, v));
                    }
                }
                lemma_shape_fields(fields, i + 1, acc2, data, p2);
            },
        }
    }
}

/// Shape isomorphism: for every well-formed schema and every byte buffer,
/// a successful decode from an empty output yields a value tree with
/// exactly the schema's keys and nesting.
pub proof fn lemma_decode_shape(fields: Seq<(String, SchemaNode)>, data: Seq<u8>, pos: int)
    requires
        schema_entries_wf(fields),
    ensures
        match spec_decode_fields(fields, 0, Seq::empty(), data, pos) {
            Ok(p) => shape_fields(fields, p.0),
            Err(_) => true,
        },
{
    assert(fields.subrange(0, 0) =~= Seq::<(String, SchemaNode)>::empty());
    lemma_shape_fields(fields, 0, Seq::empty(), data, pos);
}

/// No field of the schema would decode the key as a nested group.
pub open spec fn leaf_or_absent(fields: Seq<(String, SchemaNode)>, k: Seq<char>) -> bool {
    forall|i: int|
        0 <= i < fields.len() && (#[trigger] fields[i]).0@ == k ==> !(fields[i].1 matches
        SchemaNode::Group(_))
}

/// First-write-wins: a key already present in the output before decoding
/// still holds its original value afterwards, wherever the schema does not
/// fill it as a nested group — the decoded value for that field is dropped.
pub proof fn lemma_seed_preserved(
    fields: Seq<(String, SchemaNode)>,
    i: int,
    acc: Seq<(Seq<char>, ValueModel)>,
    data: Seq<u8>,
    pos: int,
    k: Seq<char>,
)
    requires
        0 <= i <= fields.len(),
        model_get(acc, k) is Some,
        leaf_or_absent(fields, k),
    ensures
        match spec_decode_fields(fields, i, acc, data, pos) {
            Ok(p) => model_get(p.0, k) == model_get(acc, k),
            Err(_) => true,
        },
    decreases fields.len() - i,
{
    if i < fields.len() {
        let ki = fields[i].0@;
        match spec_decode_node(fields[i].1, model_get(acc, ki), data, pos) {
            Err(_) => {
            },
            Ok((v, p2)) => {
                let acc2 = model_put(acc, ki, v);
                lemma_model_put_get(acc, ki, v, k);
                if ki == k {
                    match fields[i].1 {
                        SchemaNode::Leaf(_) => {
                            assert(v == model_get(acc, k)->Some_0);
                        },
                        SchemaNode::Group(_) => {
                            assert(false);
                        },
                        SchemaNode::Other => {
                            assert(false);
                        },
                    }
                }
                assert(model_get(acc2, k) == model_get(acc, k));
                lemma_seed_preserved(fields, i + 1, acc2, data, p2, k);
            },
        }
    }
}

/// Unsupported tag rejection: a leaf whose tag lies outside the closed
/// primitive set fails with the unsupported-type error for every seed and
/// every cursor content, and consumes no bytes for that field.
pub proof fn lemma_unsupported_tag(
    t: String,
    seed: Option<ValueModel>,
    data: Seq<u8>,
    pos: int,
)
    requires
        !tag_recognized(t@),
    ensures
        spec_decode_node(SchemaNode::Leaf(t), seed, data, pos) == Err::<
            (ValueModel, int),
            (ErrModel, int),
        >((ErrModel::Unsupported { path: Seq::empty() }, pos)),
{
}

/// A leaf naming a tag outside the closed primitive set.
pub open spec fn unsupported_leaf(n: SchemaNode) -> bool {
    match n {
        SchemaNode::Leaf(t) => !tag_recognized(t@),
        _ => false,
    }
}

/// Unsupported tag rejection, within a group: once the traversal reaches a
/// field whose leaf names an unrecognized tag — after however many earlier
/// fields decoded and advanced the cursor to `pos` — the whole decode fails
/// right there, named after that field, with no bytes consumed for it,
/// whatever the buffer holds and whatever was seeded.
pub proof fn lemma_unsupported_field(
    fields: Seq<(String, SchemaNode)>,
    i: int,
    acc: Seq<(Seq<char>, ValueModel)>,
    data: Seq<u8>,
    pos: int,
)
    requires
        0 <= i < fields.len(),
        unsupported_leaf(fields[i].1),
    ensures
        match spec_decode_fields(fields, i, acc, data, pos) {
            Err(q) => q.0 == ErrModel::Unsupported { path: seq![fields[i].0@] } && q.1 == pos,
            Ok(_) => false,
        },
{
    let k = fields[i].0@;
    match fields[i].1 {
        SchemaNode::Leaf(t) => {
            lemma_unsupported_tag(t, model_get(acc, k), data, pos);
            assert(seq![k] + Seq::<Seq<char>>::empty() =~= seq![k]);
            assert(err_prepend(k, ErrModel::Unsupported { path: Seq::empty() })
                == ErrModel::Unsupported { path: seq![k] });
        },
        _ => {
            assert(false);
        },
    }
}

/// Fatal truncation: when not even one byte remains, a leaf of any
/// recognized tag fails with the cursor's truncation error, for every seed,
/// and the whole decode returns that error and no output tree.
pub proof fn lemma_truncation(t: String, seed: Option<ValueModel>, data: Seq<u8>, pos: int)
    requires
        tag_recognized(t@),
        data.len() < pos + 1,
    ensures
        spec_decode_node(SchemaNode::Leaf(t), seed, data, pos) == Err::<
            (ValueModel, int),
            (ErrModel, int),
        >((
            ErrModel::CursorFailed { path: Seq::empty(), cause: CursorError::UnexpectedEof },
            pos,
        )),
{
}

} // verus!
