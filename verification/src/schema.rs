//! Subject projection records and the projection catalog.
//!
//! Materialized fields are explicit `(field, text)` records, subject identity
//! stays host-defined, and optional affordances and metadata ride alongside
//! each projection. A catalog assigns every projection a stable document ID
//! (its position, counted from one) and keeps each subject at most once.

use vstd::prelude::*;
use crate::query::converts_to;

use crate::base::{subject_laws, Affordance, FieldId, StandardAffordance, SubjectRef};

verus! {

broadcast use vstd::std_specs::vec::axiom_spec_into_iter;

/// One materialized text field emitted from a host projection.
#[derive(Clone, Debug, PartialEq, Eq)]
pub struct MaterializedField {
    /// Field identifier understood by the retrieval backend.
    pub field: FieldId,
    /// Text materialized into that field.
    pub text: String,
}

impl MaterializedField {
    /// Create a new materialized field.
    pub fn new<T: Into<String>>(field: FieldId, text: T) -> (r: Self)
        ensures
            r.field == field,
            converts_to(text, r.text),
    {
        MaterializedField { field, text: text.into() }
    }
}

/// A host-defined subject projection ready for retrieval materialization.
#[derive(Clone, Debug, PartialEq)]
pub struct SubjectProjection<S: SubjectRef, A = StandardAffordance, M = ()> {
    /// Host-defined subject identity.
    pub subject: S,
    /// Materialized textual fields for retrieval backends.
    pub materialized_fields: Vec<MaterializedField>,
    /// Affordances that should be attached when this subject becomes a hit.
    pub affordances: Vec<Affordance<A>>,
    /// Optional host-defined metadata carried with the projection.
    pub metadata: M,
}

impl<S: SubjectRef, A> SubjectProjection<S, A, ()> {
    /// Create a new projection with no affordances and no metadata.
    pub fn new(subject: S, materialized_fields: Vec<MaterializedField>) -> (r: Self)
        ensures
            r.subject == subject,
            r.materialized_fields@ == materialized_fields@,
            r.affordances@.len() == 0,
    {
        SubjectProjection { subject, materialized_fields, affordances: Vec::new(), metadata: () }
    }
}

impl<S: SubjectRef, A, M> SubjectProjection<S, A, M> {
    /// Replace the affordances attached to this projection.
    pub fn with_affordances(self, affordances: Vec<Affordance<A>>) -> (r: Self)
        ensures
            r.subject == self.subject,
            r.materialized_fields@ == self.materialized_fields@,
            r.affordances@ == affordances@,
            r.metadata == self.metadata,
    {
        SubjectProjection {
            subject: self.subject,
            materialized_fields: self.materialized_fields,
            affordances,
            metadata: self.metadata,
        }
    }

    /// Replace the metadata carried with this projection.
    pub fn with_metadata<NewM>(self, metadata: NewM) -> (r: SubjectProjection<S, A, NewM>)
        ensures
            r.subject == self.subject,
            r.materialized_fields@ == self.materialized_fields@,
            r.affordances@ == self.affordances@,
            r.metadata == metadata,
    {
        SubjectProjection {
            subject: self.subject,
            materialized_fields: self.materialized_fields,
            affordances: self.affordances,
            metadata,
        }
    }
}

/// Project host-owned values into subject projections.
pub trait ProjectSubject<Host, S: SubjectRef, A = StandardAffordance, M = ()> {
    /// Create a retrievable projection from one host value.
    fn project(&self, value: &Host) -> SubjectProjection<S, A, M>;
}

/// Error returned when a [`ProjectionCatalog`] cannot preserve its identity invariants.
#[derive(Clone, Debug, PartialEq, Eq)]
pub enum ProjectionCatalogError<S: SubjectRef> {
    /// The subject is already present in the catalog.
    DuplicateSubject {
        /// Subject that would have been inserted twice.
        subject: S,
    },
}

/// No subject occurs twice.
pub open spec fn subjects_distinct<S: SubjectRef, A, M>(
    projections: Seq<SubjectProjection<S, A, M>>,
) -> bool {
    forall|i: int, j: int|
        0 <= i < j < projections.len() ==> projections[i].subject != projections[j].subject
}

/// Whether some projection carries `subject`.
pub open spec fn has_subject<S: SubjectRef, A, M>(
    projections: Seq<SubjectProjection<S, A, M>>,
    subject: S,
) -> bool {
    exists|i: int| 0 <= i < projections.len() && projections[i].subject == subject
}

/// The document ID of `subject`: one more than the position of its projection.
pub open spec fn catalog_doc_id<S: SubjectRef, A, M>(
    projections: Seq<SubjectProjection<S, A, M>>,
    subject: S,
) -> Option<u32> {
    if has_subject(projections, subject) {
        let i = choose|i: int| 0 <= i < projections.len() && projections[i].subject == subject;
        Some((i + 1) as u32)
    } else {
        None
    }
}

/// Stable catalog of projections keyed by retrieval document ID.
///
/// Document ID `d` names the `d`-th inserted projection, counting from one.
#[derive(Debug)]
pub struct ProjectionCatalog<S: SubjectRef, A = StandardAffordance, M = ()> {
    projections: Vec<SubjectProjection<S, A, M>>,
}

impl<S: SubjectRef, A, M> View for ProjectionCatalog<S, A, M> {
    type V = Seq<SubjectProjection<S, A, M>>;

    closed spec fn view(&self) -> Seq<SubjectProjection<S, A, M>> {
        self.projections@
    }
}

impl<S: SubjectRef, A, M> Default for ProjectionCatalog<S, A, M> {
    fn default() -> (r: Self)
        ensures
            r@.len() == 0,
    {
        ProjectionCatalog { projections: Vec::new() }
    }
}

impl<S: SubjectRef, A, M> ProjectionCatalog<S, A, M> {
    /// Document IDs fit in `u32`, and for value-like subjects no subject
    /// occurs twice.
    #[verifier::type_invariant]
    spec fn inv(self) -> bool {
        &&& self.projections@.len() <= u32::MAX
        &&& subject_laws::<S>() ==> subjects_distinct(self.projections@)
    }

    /// Create an empty projection catalog.
    pub fn new() -> (r: Self)
        ensures
            r@.len() == 0,
    {
        ProjectionCatalog { projections: Vec::new() }
    }

    /// Position of the projection carrying `subject`, if any.
    fn position_of(&self, subject: &S) -> (r: Option<usize>)
        ensures
            r matches Some(i) ==> i < self@.len(),
            subject_laws::<S>() ==> match r {
                Some(i) => self@[i as int].subject == *subject,
                None => !has_subject(self@, *subject),
            },
    {
        let n = self.projections.len();
        let mut i: usize = 0;
        while i < n
            invariant
                n == self@.len(),
                i <= n,
                subject_laws::<S>() ==> forall|k: int|
                    0 <= k < i ==> self@[k].subject != *subject,
            decreases n - i,
        {
            let same = self.projections[i].subject == *subject;
            proof {
                if subject_laws::<S>() {
                    reveal(vstd::laws_eq::obeys_concrete_eq);
                }
            }
            if same {
                return Some(i);
            }
            i = i + 1;
        }
        None
    }

    /// Insert one projection and return its stable document ID.
    ///
    /// A projection whose subject is already present is refused and the
    /// catalog is left unchanged.
    pub fn insert(&mut self, projection: SubjectProjection<S, A, M>) -> (r: Result<
        u32,
        ProjectionCatalogError<S>,
    >)
        requires
            old(self)@.len() < u32::MAX,
        ensures
            subject_laws::<S>() ==> (r is Err <==> has_subject(old(self)@, projection.subject)),
            subject_laws::<S>() ==> subjects_distinct(final(self)@),
            r is Ok ==> r->Ok_0 == old(self)@.len() + 1,
            r is Ok ==> final(self)@ == old(self)@.push(projection),
            r is Err ==> final(self)@ == old(self)@,
            r is Err ==> r->Err_0 == (ProjectionCatalogError::DuplicateSubject {
                subject: projection.subject,
            }),
    {
        proof {
            use_type_invariant(&*self);
        }
        if self.position_of(&projection.subject).is_some() {
            return Err(ProjectionCatalogError::DuplicateSubject { subject: projection.subject });
        }
        let doc_id = (self.projections.len() + 1) as u32;
        let mut projections = Vec::new();
        std::mem::swap(&mut projections, &mut self.projections);
        projections.push(projection);
        self.projections = projections;
        Ok(doc_id)
    }

    /// Build a catalog from projections, in order.
    ///
    /// Fails on the first projection whose subject already occurred.
    pub fn from_projections(projections: Vec<SubjectProjection<S, A, M>>) -> (r: Result<
        Self,
        ProjectionCatalogError<S>,
    >)
        requires
            projections@.len() <= u32::MAX,
        ensures
            r is Ok ==> r->Ok_0@ == projections@,
            subject_laws::<S>() ==> (r is Ok <==> subjects_distinct(projections@)),
            r is Err ==> exists|j: int|
                0 <= j < projections@.len() && r->Err_0 == (ProjectionCatalogError::DuplicateSubject {
                    subject: projections@[j].subject,
                }) && (subject_laws::<S>() ==> {
                    &&& has_subject(projections@.take(j), projections@[j].subject)
                    &&& subjects_distinct(projections@.take(j))
                }),
    {
        let ghost all = projections@;
        let mut catalog = ProjectionCatalog::new();
        for projection in it: projections.into_iter()
            invariant
                it.seq() == all,
                all.len() <= u32::MAX,
                catalog@ == all.take(it.index() as int),
        {
            proof {
                use_type_invariant(&catalog);
            }
            let ghost before = catalog@;
            match catalog.insert(projection) {
                Ok(_) => {
                    proof {
                        assert(all.take(it.index() + 1) =~= before.push(all[it.index() as int]));
                    }
                },
                Err(e) => {
                    proof {
                        let j = it.index() as int;
                        assert(before =~= all.take(j));
                        if subject_laws::<S>() {
                            assert(!subjects_distinct(all)) by {
                                let k = choose|k: int|
                                    0 <= k < before.len() && before[k].subject == all[j].subject;
                                assert(all[k].subject == all[j].subject);
                            }
                        }
                    }
                    return Err(e);
                },
            }
        }
        proof {
            assert(all.take(all.len() as int) =~= all);
            use_type_invariant(&catalog);
        }
        Ok(catalog)
    }

    /// Number of stored projections. Every catalog holds at most `u32::MAX`
    /// projections and, for value-like subjects, each subject at most once.
    pub fn len(&self) -> (r: usize)
        ensures
            r == self@.len(),
            r <= u32::MAX,
            subject_laws::<S>() ==> subjects_distinct(self@),
    {
        proof {
            use_type_invariant(self);
        }
        self.projections.len()
    }

    /// Whether the catalog contains no projections.
    pub fn is_empty(&self) -> (r: bool)
        ensures
            r == (self@.len() == 0),
    {
        self.projections.len() == 0
    }

    /// Borrow the projection for one document ID.
    pub fn projection(&self, doc_id: u32) -> (r: Option<&SubjectProjection<S, A, M>>)
        ensures
            r is Some <==> 1 <= doc_id <= self@.len(),
            r matches Some(p) ==> *p == self@[doc_id - 1],
    {
        if doc_id >= 1 && ((doc_id - 1) as usize) < self.projections.len() {
            Some(&self.projections[(doc_id - 1) as usize])
        } else {
            None
        }
    }

    /// Borrow the subject for one document ID.
    pub fn subject(&self, doc_id: u32) -> (r: Option<&S>)
        ensures
            r is Some <==> 1 <= doc_id <= self@.len(),
            r matches Some(s) ==> *s == self@[doc_id - 1].subject,
    {
        match self.projection(doc_id) {
            Some(p) => Some(&p.subject),
            None => None,
        }
    }

    /// Look up the document ID for one subject.
    pub fn doc_id_for_subject(&self, subject: &S) -> (r: Option<u32>)
        ensures
            r matches Some(d) ==> 1 <= d <= self@.len(),
            subject_laws::<S>() ==> r == catalog_doc_id(self@, *subject),
    {
        proof {
            use_type_invariant(self);
        }
        match self.position_of(subject) {
            Some(i) => {
                proof {
                    if subject_laws::<S>() {
                        let k = choose|k: int|
                            0 <= k < self@.len() && self@[k].subject == *subject;
                        assert(k == i);
                    }
                }
                Some((i + 1) as u32)
            },
            None => None,
        }
    }

    /// The projections with their document IDs, in document ID order.
    pub fn iter(&self) -> (r: Vec<(u32, &SubjectProjection<S, A, M>)>)
        ensures
            r@.len() == self@.len(),
            forall|i: int|
                0 <= i < r@.len() ==> (#[trigger] r@[i]).0 == i + 1 && *r@[i].1 == self@[i],
    {
        proof {
            use_type_invariant(self);
        }
        let n = self.projections.len();
        let mut entries: Vec<(u32, &SubjectProjection<S, A, M>)> = Vec::new();
        let mut i: usize = 0;
        while i < n
            invariant
                n == self@.len(),
                n <= u32::MAX,
                i <= n,
                entries@.len() == i,
                forall|k: int|
                    0 <= k < i ==> (#[trigger] entries@[k]).0 == k + 1 && *entries@[k].1
                        == self@[k],
            decreases n - i,
        {
            entries.push(((i + 1) as u32, &self.projections[i]));
            i = i + 1;
        }
        entries
    }
}

/// Document IDs and reverse lookup agree: in a catalog of distinct subjects,
/// the document ID of the subject stored under `d` is `d`, and the subject
/// stored under the document ID of `subject` is `subject`.
pub proof fn law_catalog_lookup_round_trip<S: SubjectRef, A, M>(
    projections: Seq<SubjectProjection<S, A, M>>,
    doc_id: u32,
    subject: S,
)
    requires
        subjects_distinct(projections),
        projections.len() <= u32::MAX,
    ensures
        1 <= doc_id <= projections.len() ==> catalog_doc_id(projections, projections[doc_id - 1].subject)
            == Some(doc_id),
        catalog_doc_id(projections, subject) matches Some(d) ==> 1 <= d <= projections.len()
            && projections[d - 1].subject == subject,
{
    if 1 <= doc_id <= projections.len() {
        let s = projections[doc_id - 1].subject;
        assert(has_subject(projections, s));
        let k = choose|k: int| 0 <= k < projections.len() && projections[k].subject == s;
        assert(k == doc_id - 1);
    }
}

/// Inserting never disturbs earlier document IDs: the catalog only grows at
/// the end.
pub proof fn law_catalog_insert_keeps_doc_ids<S: SubjectRef, A, M>(
    before: Seq<SubjectProjection<S, A, M>>,
    projection: SubjectProjection<S, A, M>,
    doc_id: u32,
)
    requires
        1 <= doc_id <= before.len(),
    ensures
        before.push(projection)[doc_id - 1] == before[doc_id - 1],
{
}

} // verus!
