//! The decoded value tree: shape-isomorphic to the schema that produced it,
//! with a concrete primitive value at every leaf.
//!
//! A group is an ordered mapping from field name to child value.  Its one
//! insertion policy is first-write-wins: inserting under a key that is
//! already present leaves the old value in place, so a caller may pre-seed
//! defaults before decoding and have them preserved.

use vstd::prelude::*;

verus! {

/// Mathematical model of a decoded value: leaves carry plain values, groups
/// carry their fields as a sequence of (name, child) pairs in field order.
pub enum ValueModel {
    U64(u64),
    U32(u32),
    Bool(bool),
    Bytes(Seq<u8>),
    Group(Seq<(Seq<char>, ValueModel)>),
}

/// One decoded value: a primitive or a nested group.
#[verifier::ext_equal]
pub enum ValueNode {
    U64(u64),
    U32(u32),
    Bool(bool),
    Bytes(Vec<u8>),
    Group(ValueMap),
}

/// An ordered mapping from field name to decoded value.
#[verifier::ext_equal]
pub struct ValueMap {
    pub entries: Vec<(String, ValueNode)>,
}

/// The model of a decoded value.
pub open spec fn value_model(v: ValueNode) -> ValueModel
    decreases v,
{
    match v {
        ValueNode::U64(x) => ValueModel::U64(x),
        ValueNode::U32(x) => ValueModel::U32(x),
        ValueNode::Bool(b) => ValueModel::Bool(b),
        ValueNode::Bytes(bs) => ValueModel::Bytes(bs@),
        ValueNode::Group(m) => ValueModel::Group(value_entries_model(m.entries@)),
    }
}

/// The model of a group's entries, in order.
pub open spec fn value_entries_model(es: Seq<(String, ValueNode)>) -> Seq<(Seq<char>, ValueModel)>
    decreases es,
{
    if es.len() == 0 {
        Seq::empty()
    } else {
        seq![(es[0].0@, value_model(es[0].1))] + value_entries_model(es.drop_first())
    }
}

/// The entries of a model group are the entries of the map, one for one.
pub proof fn lemma_value_entries_model(es: Seq<(String, ValueNode)>)
    ensures
        value_entries_model(es).len() == es.len(),
        forall|i: int|
            0 <= i < es.len() ==> #[trigger] value_entries_model(es)[i] == (
            es[i].0@,
            value_model(es[i].1),
            ),
    decreases es.len(),
{
    if es.len() > 0 {
        lemma_value_entries_model(es.drop_first());
        assert forall|i: int| 0 <= i < es.len() implies #[trigger] value_entries_model(es)[i] == (
            es[i].0@,
            value_model(es[i].1),
        ) by {
            if i > 0 {
                assert(value_entries_model(es)[i] == value_entries_model(es.drop_first())[i - 1]);
                assert(es.drop_first()[i - 1] == es[i]);
            }
        }
    }
}

/// Index of the first entry with the given key, or `-1` if none has it.
pub open spec fn model_find(es: Seq<(Seq<char>, ValueModel)>, k: Seq<char>) -> int
    decreases es.len(),
{
    if es.len() == 0 {
        -1
    } else if es[0].0 == k {
        0
    } else if model_find(es.drop_first(), k) == -1 {
        -1
    } else {
        model_find(es.drop_first(), k) + 1
    }
}

/// The value under the given key, if any.
pub open spec fn model_get(es: Seq<(Seq<char>, ValueModel)>, k: Seq<char>) -> Option<ValueModel> {
    if model_find(es, k) == -1 {
        None
    } else {
        Some(es[model_find(es, k)].1)
    }
}

/// Replaces the value at the key's position if the key is present, else
/// appends the pair at the end.
pub open spec fn model_put(
    es: Seq<(Seq<char>, ValueModel)>,
    k: Seq<char>,
    v: ValueModel,
) -> Seq<(Seq<char>, ValueModel)> {
    if model_find(es, k) == -1 {
        es.push((k, v))
    } else {
        es.update(model_find(es, k), (k, v))
    }
}

/// What `model_find` finds: the first entry with the key, or a witness that
/// no entry has it.
pub proof fn lemma_model_find(es: Seq<(Seq<char>, ValueModel)>, k: Seq<char>)
    ensures
        model_find(es, k) == -1 ==> forall|i: int| 0 <= i < es.len() ==> (#[trigger] es[i]).0 != k,
        model_find(es, k) != -1 ==> {
            &&& 0 <= model_find(es, k) < es.len()
            &&& es[model_find(es, k)].0 == k
            &&& forall|i: int| 0 <= i < model_find(es, k) ==> (#[trigger] es[i]).0 != k
        },
    decreases es.len(),
{
    if es.len() > 0 && es[0].0 != k {
        lemma_model_find(es.drop_first(), k);
        let r = model_find(es.drop_first(), k);
        if r == -1 {
            assert forall|i: int| 0 <= i < es.len() implies (#[trigger] es[i]).0 != k by {
                if i > 0 {
                    assert(es.drop_first()[i - 1] == es[i]);
                }
            }
        } else {
            assert(es.drop_first()[r] == es[r + 1]);
            assert forall|i: int| 0 <= i < r + 1 implies (#[trigger] es[i]).0 != k by {
                if i > 0 {
                    assert(es.drop_first()[i - 1] == es[i]);
                }
            }
        }
    }
}

/// No entry has the key, so the key is not found.
pub proof fn lemma_model_find_none(es: Seq<(Seq<char>, ValueModel)>, k: Seq<char>)
    requires
        forall|i: int| 0 <= i < es.len() ==> (#[trigger] es[i]).0 != k,
    ensures
        model_find(es, k) == -1,
{
    lemma_model_find(es, k);
}

/// How a put moves the found index: the put key is found where it was put,
/// and any other key is found where it was before.
pub proof fn lemma_model_put_find(
    es: Seq<(Seq<char>, ValueModel)>,
    k: Seq<char>,
    v: ValueModel,
    k2: Seq<char>,
)
    ensures
        k2 == k ==> model_find(model_put(es, k, v), k2) == (if model_find(es, k) == -1 {
            es.len() as int
        } else {
            model_find(es, k)
        }),
        k2 != k ==> model_find(model_put(es, k, v), k2) == model_find(es, k2),
{
    let f = model_find(es, k);
    let es2 = model_put(es, k, v);
    lemma_model_find(es, k);
    lemma_model_find(es, k2);
    let f2 = model_find(es, k2);
    if f == -1 {
        assert(es2 == es.push((k, v)));
        assert(es2[es.len() as int] == (k, v));
        if k2 == k {
            lemma_model_find_first(es2, k, es.len() as int);
        } else if f2 == -1 {
            lemma_model_find_none(es2, k2);
        } else {
            assert(es2[f2] == es[f2]);
            lemma_model_find_first(es2, k2, f2);
        }
    } else {
        assert(es2 == es.update(f, (k, v)));
        assert(es2[f] == (k, v));
        if k2 == k {
            lemma_model_find_first(es2, k, f);
        } else if f2 == -1 {
            lemma_model_find_none(es2, k2);
        } else {
            assert(es[f2].0 == k2);
            assert(f2 != f);
            assert(es2[f2] == es[f2]);
            lemma_model_find_first(es2, k2, f2);
        }
    }
}

/// A put changes the value under its own key and no other.
pub proof fn lemma_model_put_get(
    es: Seq<(Seq<char>, ValueModel)>,
    k: Seq<char>,
    v: ValueModel,
    k2: Seq<char>,
)
    ensures
        model_get(model_put(es, k, v), k) == Some(v),
        k2 != k ==> model_get(model_put(es, k, v), k2) == model_get(es, k2),
{
    let f = model_find(es, k);
    let es2 = model_put(es, k, v);
    lemma_model_find(es, k);
    lemma_model_find(es, k2);
    lemma_model_put_find(es, k, v, k);
    lemma_model_put_find(es, k, v, k2);
    if f == -1 {
        assert(es2 == es.push((k, v)));
        assert(es2[es.len() as int] == (k, v));
        if k2 != k && model_find(es, k2) != -1 {
            assert(es2[model_find(es, k2)] == es[model_find(es, k2)]);
        }
    } else {
        assert(es2 == es.update(f, (k, v)));
        assert(es2[f] == (k, v));
        if k2 != k && model_find(es, k2) != -1 {
            assert(model_find(es, k2) != f);
            assert(es2[model_find(es, k2)] == es[model_find(es, k2)]);
        }
    }
}

impl ValueMap {
    /// The model of this map's entries.
    pub open spec fn model(&self) -> Seq<(Seq<char>, ValueModel)> {
        value_entries_model(self.entries@)
    }

    /// An empty map.
    pub fn new() -> (m: ValueMap)
        ensures
            m.model() == Seq::<(Seq<char>, ValueModel)>::empty(),
            m.entries@.len() == 0,
    {
        ValueMap { entries: Vec::new() }
    }

    /// How many fields the map holds.
    pub fn len(&self) -> (n: usize)
        ensures
            n == self.model().len(),
    {
        proof {
            lemma_value_entries_model(self.entries@);
        }
        self.entries.len()
    }

    /// The index of the first entry under the given key, if the key is present.
    pub fn find(&self, key: &String) -> (r: Option<usize>)
        ensures
            match r {
                Some(i) => i == model_find(self.model(), key@) && i < self.entries@.len(),
                None => model_find(self.model(), key@) == -1,
            },
    {
        proof {
            lemma_value_entries_model(self.entries@);
            lemma_model_find(self.model(), key@);
        }
        let mut i: usize = 0;
        while i < self.entries.len()
            invariant
                i <= self.entries@.len(),
                forall|j: int| 0 <= j < i ==> (#[trigger] self.entries@[j]).0@ != key@,
                self.model().len() == self.entries@.len(),
                forall|j: int|
                    0 <= j < self.entries@.len() ==> (#[trigger] self.model()[j]).0
                        == self.entries@[j].0@,
            decreases self.entries@.len() - i,
        {
            if self.entries[i].0.eq(key) {
                proof {
                    lemma_model_find_first(self.model(), key@, i as int);
                }
                return Some(i);
            }
            i = i + 1;
        }
        proof {
            lemma_model_find(self.model(), key@);
            if model_find(self.model(), key@) != -1 {
                assert((self.entries@[model_find(self.model(), key@)]).0@ == key@);
            }
        }
        None
    }

    /// The value under the given key, if the key is present.
    pub fn get(&self, key: &String) -> (r: Option<&ValueNode>)
        ensures
            match r {
                Some(v) => model_get(self.model(), key@) == Some(value_model(*v)),
                None => model_get(self.model(), key@) is None,
            },
    {
        proof {
            lemma_value_entries_model(self.entries@);
        }
        match self.find(key) {
            Some(i) => Some(&self.entries[i].1),
            None => None,
        }
    }

    /// Inserts under the given key only if the key is absent: the one merge
    /// policy of the value tree, first-write-wins.  Returns whether the pair
    /// was inserted.
    pub fn insert(&mut self, key: String, node: ValueNode) -> (inserted: bool)
        ensures
            inserted == (model_get(old(self).model(), key@) is None),
            inserted ==> final(self).model() == old(self).model().push(
                (key@, value_model(node)),
            ),
            !inserted ==> final(self).model() == old(self).model(),
    {
        proof {
            lemma_value_entries_model(self.entries@);
        }
        match self.find(&key) {
            Some(_) => false,
            None => {
                let ghost old_entries = self.entries@;
                self.entries.push((key, node));
                proof {
                    lemma_value_entries_push(old_entries, (key, node));
                }
                true
            },
        }
    }
}

/// `model_find` returns the first matching index.
pub proof fn lemma_model_find_first(es: Seq<(Seq<char>, ValueModel)>, k: Seq<char>, i: int)
    requires
        0 <= i < es.len(),
        es[i].0 == k,
        forall|j: int| 0 <= j < i ==> (#[trigger] es[j]).0 != k,
    ensures
        model_find(es, k) == i,
    decreases es.len(),
{
    if i > 0 {
        assert forall|j: int| 0 <= j < i - 1 implies (#[trigger] es.drop_first()[j]).0 != k by {
            assert(es.drop_first()[j] == es[j + 1]);
        }
        assert(es.drop_first()[i - 1] == es[i]);
        lemma_model_find_first(es.drop_first(), k, i - 1);
    }
}

/// Appending an entry appends its model.
pub proof fn lemma_value_entries_push(es: Seq<(String, ValueNode)>, p: (String, ValueNode))
    ensures
        value_entries_model(es.push(p)) == value_entries_model(es).push((p.0@, value_model(p.1))),
    decreases es.len(),
{
    if es.len() == 0 {
        assert(es.push(p)[0] == p);
        assert(es.push(p).drop_first() =~= Seq::<(String, ValueNode)>::empty());
        assert(value_entries_model(es.push(p)) == seq![(p.0@, value_model(p.1))]
            + value_entries_model(Seq::<(String, ValueNode)>::empty()));
        assert(value_entries_model(Seq::<(String, ValueNode)>::empty()) == Seq::<
            (Seq<char>, ValueModel),
        >::empty());
        assert(value_entries_model(es.push(p)) =~= value_entries_model(es).push(
            (p.0@, value_model(p.1)),
        ));
    } else {
        assert(es.push(p)[0] == es[0]);
        assert(es.push(p).drop_first() =~= es.drop_first().push(p));
        lemma_value_entries_push(es.drop_first(), p);
        assert(value_entries_model(es.push(p)) == seq![(es[0].0@, value_model(es[0].1))]
            + value_entries_model(es.drop_first()).push((p.0@, value_model(p.1))));
        assert(value_entries_model(es) == seq![(es[0].0@, value_model(es[0].1))]
            + value_entries_model(es.drop_first()));
        assert(value_entries_model(es.push(p)) =~= value_entries_model(es).push(
            (p.0@, value_model(p.1)),
        ));
    }
}

} // verus!
