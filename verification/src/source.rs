//! Synchronous retrieval sources and candidate buffers.

use vstd::prelude::*;

use crate::base::{PortolanHit, RetrievalBudget, RetrievalContext, StandardAffordance, SubjectRef};
use crate::query::PortolanQuery;

verus! {

/// Sink for retrieval candidates.
pub trait CandidateSink<S: SubjectRef, A = StandardAffordance, E = ()> {
    /// Push one candidate into the sink.
    fn push(&mut self, hit: PortolanHit<S, A, E>);
}

/// Simple growable buffer of retrieval candidates, in push order.
#[derive(Clone, Debug, PartialEq)]
pub struct CandidateBuffer<S: SubjectRef, A = StandardAffordance, E = ()> {
    hits: Vec<PortolanHit<S, A, E>>,
}

impl<S: SubjectRef, A, E> View for CandidateBuffer<S, A, E> {
    type V = Seq<PortolanHit<S, A, E>>;

    closed spec fn view(&self) -> Seq<PortolanHit<S, A, E>> {
        self.hits@
    }
}

impl<S: SubjectRef, A, E> Default for CandidateBuffer<S, A, E> {
    fn default() -> (r: Self)
        ensures
            r@ == Seq::<PortolanHit<S, A, E>>::empty(),
    {
        CandidateBuffer { hits: Vec::new() }
    }
}

impl<S: SubjectRef, A, E> CandidateBuffer<S, A, E> {
    /// Create an empty buffer.
    pub fn new() -> (r: Self)
        ensures
            r@ == Seq::<PortolanHit<S, A, E>>::empty(),
    {
        CandidateBuffer { hits: Vec::new() }
    }

    /// Append one candidate.
    pub fn push_hit(&mut self, hit: PortolanHit<S, A, E>)
        ensures
            final(self)@ == old(self)@.push(hit),
    {
        self.hits.push(hit);
    }

    /// Move every candidate of `other` to the end of this buffer, in order.
    pub fn append(&mut self, other: CandidateBuffer<S, A, E>)
        ensures
            final(self)@ == old(self)@ + other@,
    {
        let mut other = other;
        self.hits.append(&mut other.hits);
    }

    /// Number of buffered candidates.
    pub fn len(&self) -> (r: usize)
        ensures
            r == self@.len(),
    {
        self.hits.len()
    }

    /// Whether no candidate is buffered.
    pub fn is_empty(&self) -> (r: bool)
        ensures
            r == (self@.len() == 0),
    {
        self.hits.len() == 0
    }

    /// Borrow the buffered candidates.
    pub fn as_slice(&self) -> (r: &[PortolanHit<S, A, E>])
        ensures
            r@ == self@,
    {
        self.hits.as_slice()
    }

    /// Take the buffered candidates out of the buffer.
    pub fn into_hits(self) -> (r: Vec<PortolanHit<S, A, E>>)
        ensures
            r@ == self@,
    {
        self.hits
    }
}

impl<S: SubjectRef, A, E> CandidateSink<S, A, E> for CandidateBuffer<S, A, E> {
    fn push(&mut self, hit: PortolanHit<S, A, E>)
        ensures
            final(self)@ == old(self)@.push(hit),
    {
        self.hits.push(hit);
    }
}

/// A synchronous retrieval source.
///
/// A source receives a query, the host context and a budget, and appends its
/// candidates to the caller-provided buffer.
pub trait RetrievalSource<
    S: SubjectRef,
    Scope = (),
    Filter = (),
    Context = (),
    A = StandardAffordance,
    E = (),
> {
    /// The candidates the source retrieves for a query, a context and a
    /// budget, in order. Retrieval depends on these inputs alone: the context
    /// is explicit, not ambient. Outside verified code, implement it by
    /// running `retrieve_into` on an empty buffer.
    spec fn retrieved(
        &self,
        query: &PortolanQuery<Scope, Filter>,
        context: &RetrievalContext<Context>,
        budget: RetrievalBudget,
    ) -> Vec<PortolanHit<S, A, E>>;

    /// Retrieve candidates into the caller-provided buffer: the source
    /// appends what it retrieves and leaves earlier candidates alone.
    fn retrieve_into(
        &self,
        query: &PortolanQuery<Scope, Filter>,
        context: &RetrievalContext<Context>,
        budget: RetrievalBudget,
        out: &mut CandidateBuffer<S, A, E>,
    )
        ensures
            final(out)@ == old(out)@ + self.retrieved(query, context, budget)@,
    ;
}

} // verus!
