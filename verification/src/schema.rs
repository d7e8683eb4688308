//! The schema tree: a description of a record's field names, primitive type
//! tags and nesting, in the order the fields were laid out in the encoding.
//!
//! A leaf carries its type tag as text; tags are checked against the closed
//! primitive set only at decode time, field by field, so a schema holding an
//! unrecognized tag can be built and is rejected only when decoding reaches
//! that field.

use vstd::prelude::*;

verus! {

/// One schema node: a leaf naming a primitive type, a nested group of
/// fields, or some other value shape that no decode accepts.
#[verifier::ext_equal]
pub enum SchemaNode {
    Leaf(String),
    Group(SchemaMap),
    Other,
}

/// An ordered mapping from field name to child schema node.
#[verifier::ext_equal]
pub struct SchemaMap {
    pub entries: Vec<(String, SchemaNode)>,
}

/// Field names are unique at every level of the schema.
pub open spec fn schema_node_wf(n: SchemaNode) -> bool
    decreases n, 0int,
{
    match n {
        SchemaNode::Group(m) => schema_entries_wf(m.entries@),
        _ => true,
    }
}

/// Field names are unique among these entries, and every child is well
/// formed.
pub open spec fn schema_entries_wf(es: Seq<(String, SchemaNode)>) -> bool
    decreases es, 1int,
{
    &&& forall|i: int, j: int|
        0 <= i < j < es.len() ==> (#[trigger] es[i]).0@ != (#[trigger] es[j]).0@
    &&& forall|i: int| 0 <= i < es.len() ==> schema_node_wf((#[trigger] es[i]).1)
}

impl SchemaMap {
    /// Field names are unique at every level.
    pub open spec fn wf(&self) -> bool {
        schema_entries_wf(self.entries@)
    }

    /// Whether some entry carries the given key.
    pub open spec fn spec_contains_key(&self, k: Seq<char>) -> bool {
        exists|i: int| 0 <= i < self.entries@.len() && (#[trigger] self.entries@[i]).0@ == k
    }

    /// An empty schema map.
    pub fn new() -> (m: SchemaMap)
        ensures
            m.entries@.len() == 0,
            m.wf(),
    {
        SchemaMap { entries: Vec::new() }
    }

    /// How many fields the map holds.
    pub fn len(&self) -> (n: usize)
        ensures
            n == self.entries@.len(),
    {
        self.entries.len()
    }

    /// Whether some entry carries the given key.
    pub fn contains_key(&self, key: &String) -> (r: bool)
        ensures
            r == self.spec_contains_key(key@),
    {
        let mut i: usize = 0;
        while i < self.entries.len()
            invariant
                i <= self.entries@.len(),
                forall|j: int| 0 <= j < i ==> (#[trigger] self.entries@[j]).0@ != key@,
            decreases self.entries@.len() - i,
        {
            if self.entries[i].0.eq(key) {
                return true;
            }
            i = i + 1;
        }
        false
    }

    /// Appends a field only if its name is absent: names stay unique.
    /// Returns whether the field was appended.
    pub fn insert(&mut self, key: String, node: SchemaNode) -> (inserted: bool)
        requires
            old(self).wf(),
            schema_node_wf(node),
        ensures
            final(self).wf(),
            inserted == !old(self).spec_contains_key(key@),
            inserted ==> final(self).entries@ == old(self).entries@.push((key, node)),
            !inserted ==> final(self).entries@ == old(self).entries@,
    {
        if self.contains_key(&key) {
            false
        } else {
            let ghost old_entries = self.entries@;
            self.entries.push((key, node));
            proof {
                assert forall|i: int, j: int| 0 <= i < j < self.entries@.len() implies (
                #[trigger] self.entries@[i]).0@ != (#[trigger] self.entries@[j]).0@ by {
                    if j < old_entries.len() {
                        assert(self.entries@[i] == old_entries[i]);
                        assert(self.entries@[j] == old_entries[j]);
                    } else {
                        assert(self.entries@[i] == old_entries[i]);
                        assert(self.entries@[j] == (key, node));
                    }
                }
                assert forall|i: int| 0 <= i < self.entries@.len() implies schema_node_wf(
                    (#[trigger] self.entries@[i]).1,
                ) by {
                    if i < old_entries.len() {
                        assert(self.entries@[i] == old_entries[i]);
                    } else {
                        assert(self.entries@[i] == (key, node));
                    }
                }
            }
            true
        }
    }
}

} // verus!
