//! The backend-independent half of the Leit adapter.
//!
//! Queries are lowered to text; the backend returns scored document IDs; a
//! host-supplied mapper turns each document ID into a subject, and every
//! mapped document becomes one materialized-index hit, in backend order.

use vstd::prelude::*;

use crate::base::{PortolanHit, RetrievalOrigin, Score, SubjectRef};
use crate::query::PortolanQuery;
use crate::source::CandidateBuffer;

verus! {

/// Maps backend document identifiers into host-defined subjects.
///
/// A mapper is a function of the document ID: `maps_to` names the subject it
/// gives for each one, and `map_subject` returns exactly that. Outside
/// verified code, implement `maps_to` with the same body as `map_subject`.
pub trait SubjectMapper<S: SubjectRef> {
    /// The subject the mapper gives for `doc_id`, if any.
    spec fn maps_to(&self, doc_id: u32) -> Option<S>;

    /// Map a backend document ID into a host subject.
    fn map_subject(&self, doc_id: u32) -> (r: Option<S>)
        ensures
            r == self.maps_to(doc_id),
    ;
}

/// What the mapper gives for each match, in match order.
pub open spec fn mapper_answers<S: SubjectRef, M: SubjectMapper<S>>(
    mapper: M,
    matches: Seq<(u32, Score)>,
) -> Seq<Option<S>> {
    Seq::new(matches.len(), |i: int| mapper.maps_to(matches[i].0))
}

/// Lowers a query into the textual query string consumed by the backend.
pub trait QueryLowerer<Scope = (), Filter = ()> {
    /// Lower a query into a textual backend query.
    fn lower_query(&self, query: &PortolanQuery<Scope, Filter>) -> String;
}

/// Default textual lowering: the free text of the parsed query.
#[derive(Clone, Copy, Debug, Default)]
pub struct TextQueryLowerer;

impl<Scope, Filter> QueryLowerer<Scope, Filter> for TextQueryLowerer {
    fn lower_query(&self, query: &PortolanQuery<Scope, Filter>) -> (r: String)
        ensures
            r@ == query.parsed.text_spec()@,
    {
        match &query.parsed {
            crate::query::ParsedQuery::Text { text } => text.clone(),
            crate::query::ParsedQuery::Scoped { text, .. } => text.clone(),
            crate::query::ParsedQuery::Structured { text, .. } => text.clone(),
        }
    }
}

/// `hit` is the plain materialized-index hit for `subject` with `score`.
pub open spec fn is_index_hit<S: SubjectRef, A>(hit: PortolanHit<S, A, ()>, subject: S, score: Score) -> bool {
    &&& hit.subject == subject
    &&& hit.score == score
    &&& hit.evidence@.len() == 0
    &&& hit.affordances@.len() == 0
    &&& hit.origin == RetrievalOrigin::MaterializedIndex
}

/// `added` holds one index hit per backend match whose document the mapper
/// resolved (`mapped[i]` is what it returned for match `i`), in match order.
pub open spec fn mapped_hits<S: SubjectRef, A>(
    matches: Seq<(u32, Score)>,
    mapped: Seq<Option<S>>,
    added: Seq<PortolanHit<S, A, ()>>,
) -> bool
    decreases matches.len(),
{
    if matches.len() == 0 {
        added.len() == 0
    } else {
        match mapped[matches.len() - 1] {
            Some(subject) => {
                &&& added.len() > 0
                &&& is_index_hit(added.last(), subject, matches.last().1)
                &&& mapped_hits(matches.drop_last(), mapped, added.drop_last())
            },
            None => mapped_hits(matches.drop_last(), mapped, added),
        }
    }
}

/// Turn backend matches `(document ID, score)` into hits, in order.
///
/// Each document ID is mapped through `mapper`, in match order; documents it
/// does not resolve are skipped. Every resolved document becomes one
/// materialized-index hit with the backend's score and no evidence or
/// affordances, appended to `out`.
pub fn push_mapped_hits<S: SubjectRef, A, M: SubjectMapper<S>>(
    mapper: &M,
    matches: &[(u32, Score)],
    out: &mut CandidateBuffer<S, A, ()>,
)
    ensures
        final(out)@.take(old(out)@.len() as int) == old(out)@,
        final(out)@.len() >= old(out)@.len(),
        mapped_hits(
            matches@,
            mapper_answers(*mapper, matches@),
            final(out)@.skip(old(out)@.len() as int),
        ),
{
    let ghost start = out@;
    let ghost mut mapped: Seq<Option<S>> = Seq::empty();
    let n = matches.len();
    let mut i: usize = 0;
    while i < n
        invariant
            n == matches@.len(),
            i <= n,
            mapped.len() == i,
            forall|k: int| 0 <= k < i ==> #[trigger] mapped[k] == mapper.maps_to(matches@[k].0),
            out@.len() >= start.len(),
            out@.take(start.len() as int) == start,
            mapped_hits(matches@.take(i as int), mapped, out@.skip(start.len() as int)),
        decreases n - i,
    {
        let (doc_id, score) = matches[i];
        let found = mapper.map_subject(doc_id);
        let ghost before = out@;
        let ghost prefix = matches@.take(i as int);
        proof {
            assert(matches@.take(i + 1).drop_last() =~= prefix);
        }
        match found {
            Some(subject) => {
                let ghost old_mapped = mapped;
                proof {
                    mapped = mapped.push(Some(subject));
                }
                out.push_hit(PortolanHit::new(subject, score, RetrievalOrigin::MaterializedIndex));
                proof {
                    assert(out@.skip(start.len() as int).drop_last() =~= before.skip(
                        start.len() as int,
                    ));
                    assert(out@.take(start.len() as int) =~= start);
                    lemma_mapped_hits_frame(prefix, old_mapped, mapped, before.skip(start.len() as int));
                }
            },
            None => {
                proof {
                    let old_mapped = mapped;
                    mapped = mapped.push(None);
                    lemma_mapped_hits_frame(prefix, old_mapped, mapped, before.skip(start.len() as int));
                }
            },
        }
        i = i + 1;
    }
    proof {
        assert(matches@.take(n as int) =~= matches@);
        assert(mapped =~= mapper_answers(*mapper, matches@));
    }
}

/// The hits of some matches depend only on what the mapper returned for them.
proof fn lemma_mapped_hits_frame<S: SubjectRef, A>(
    matches: Seq<(u32, Score)>,
    m1: Seq<Option<S>>,
    m2: Seq<Option<S>>,
    added: Seq<PortolanHit<S, A, ()>>,
)
    requires
        forall|i: int| 0 <= i < matches.len() ==> #[trigger] m1[i] == m2[i],
        mapped_hits(matches, m1, added),
    ensures
        mapped_hits(matches, m2, added),
    decreases matches.len(),
{
    if matches.len() > 0 {
        assert(m1[matches.len() - 1] == m2[matches.len() - 1]);
        match m1[matches.len() - 1] {
            Some(_) => lemma_mapped_hits_frame(matches.drop_last(), m1, m2, added.drop_last()),
            None => lemma_mapped_hits_frame(matches.drop_last(), m1, m2, added),
        }
    }
}

} // verus!
