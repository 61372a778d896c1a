//! Schemas: named, versioned sets of attribute names.

use vstd::prelude::*;
use crate::ids::SchemaId;

verus! {

/// The attribute names of a schema.
#[derive(Debug)]
pub struct AttributeNames(pub Vec<String>);

/// The one active schema shape.
#[derive(Debug)]
pub struct SchemaV1 {
    pub id: SchemaId,
    pub name: String,
    pub version: String,
    pub attr_names: AttributeNames,
    pub seq_no: Option<u32>,
}

/// A versioned schema record; one case is populated today, and the tag is
/// kept so stored data stays readable when more are added.
#[derive(Debug)]
pub enum Schema {
    SchemaV1(SchemaV1),
}

impl Clone for AttributeNames {
    /// A clone carries the same attribute names.
    fn clone(&self) -> (r: Self)
        ensures
            r.0@.len() == self.0@.len(),
            forall|i: int| 0 <= i < self.0@.len() ==> (#[trigger] r.0@[i])@ == self.0@[i]@,
    {
        let mut v: Vec<String> = Vec::new();
        let n = self.0.len();
        let mut i: usize = 0;
        while i < n
            invariant
                0 <= i <= n == self.0@.len(),
                v@.len() == i,
                forall|k: int| 0 <= k < i ==> (#[trigger] v@[k])@ == self.0@[k]@,
            decreases n - i,
        {
            v.push(self.0[i].clone());
            i = i + 1;
        }
        AttributeNames(v)
    }
}

impl Clone for SchemaV1 {
    /// A clone carries the same fields.
    fn clone(&self) -> (r: Self)
        ensures
            r.id.0@ == self.id.0@,
            r.name@ == self.name@,
            r.version@ == self.version@,
            r.attr_names.0@.len() == self.attr_names.0@.len(),
            forall|i: int|
                0 <= i < self.attr_names.0@.len() ==> (#[trigger] r.attr_names.0@[i])@
                    == self.attr_names.0@[i]@,
            r.seq_no == self.seq_no,
    {
        SchemaV1 {
            id: self.id.clone(),
            name: self.name.clone(),
            version: self.version.clone(),
            attr_names: self.attr_names.clone(),
            seq_no: self.seq_no,
        }
    }
}

} // verus!
