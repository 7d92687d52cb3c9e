//! Projection-to-index materialization.
//!
//! A catalog is materialized as one document per projection, under the
//! projection's document ID, carrying its `(field, text)` pairs in order.
//! Field aliases name fields for query planning in the backend.

use vstd::prelude::*;

use crate::base::{FieldId, SubjectRef};
use crate::schema::ProjectionCatalog;

verus! {

/// Field alias registered for query planning in the materialized backend.
#[derive(Clone, Copy, Debug, PartialEq, Eq)]
pub struct FieldAlias<'a> {
    /// Retrieval field identifier.
    pub field: FieldId,
    /// User-facing alias for the field.
    pub alias: &'a str,
}

impl<'a> FieldAlias<'a> {
    /// Create a new field alias.
    pub fn new(field: FieldId, alias: &'a str) -> (r: Self)
        ensures
            r.field == field,
            r.alias == alias,
    {
        FieldAlias { field, alias }
    }
}

/// The documents a catalog materializes into: one per projection, in
/// document ID order, each with the document ID and the projection's
/// `(field, text)` pairs in order.
pub fn materialized_documents<'c, S: SubjectRef, A, M>(
    catalog: &'c ProjectionCatalog<S, A, M>,
) -> (r: Vec<(u32, Vec<(FieldId, &'c str)>)>)
    ensures
        r@.len() == catalog@.len(),
        forall|i: int|
            #![trigger r@[i]]
            0 <= i < r@.len() ==> {
                let fields = catalog@[i].materialized_fields@;
                &&& r@[i].0 == i + 1
                &&& r@[i].1@.len() == fields.len()
                &&& forall|k: int|
                    0 <= k < fields.len() ==> (#[trigger] r@[i].1@[k]).0 == fields[k].field
                        && r@[i].1@[k].1@ == fields[k].text@
            },
{
    let entries = catalog.iter();
    let n = entries.len();
    let mut documents: Vec<(u32, Vec<(FieldId, &'c str)>)> = Vec::new();
    let mut i: usize = 0;
    while i < n
        invariant
            n == entries@.len(),
            n == catalog@.len(),
            i <= n,
            documents@.len() == i,
            forall|j: int|
                0 <= j < n ==> (#[trigger] entries@[j]).0 == j + 1 && *entries@[j].1
                    == catalog@[j],
            forall|j: int|
                #![trigger documents@[j]]
                0 <= j < i ==> {
                    let fields = catalog@[j].materialized_fields@;
                    &&& documents@[j].0 == j + 1
                    &&& documents@[j].1@.len() == fields.len()
                    &&& forall|k: int|
                        0 <= k < fields.len() ==> (#[trigger] documents@[j].1@[k]).0
                            == fields[k].field && documents@[j].1@[k].1@ == fields[k].text@
                },
        decreases n - i,
    {
        let (doc_id, projection) = entries[i];
        let source_fields = &projection.materialized_fields;
        let m = source_fields.len();
        let mut fields: Vec<(FieldId, &'c str)> = Vec::new();
        let mut k: usize = 0;
        while k < m
            invariant
                m == source_fields@.len(),
                k <= m,
                fields@.len() == k,
                forall|t: int|
                    0 <= t < k ==> (#[trigger] fields@[t]).0 == source_fields@[t].field
                        && fields@[t].1@ == source_fields@[t].text@,
            decreases m - k,
        {
            let field = &source_fields[k];
            fields.push((field.field, field.text.as_str()));
            k = k + 1;
        }
        documents.push((doc_id, fields));
        i = i + 1;
    }
    documents
}

} // verus!
