//! Core vocabulary: hits, evidence, affordances, budgets and context envelopes.

use vstd::prelude::*;

verus! {

/// Trait bound for host-defined retrievable subjects.
///
/// Portolan does not define one global subject universe. Any host type that is
/// `Clone`, `Eq`, `Hash` and `Debug` is a subject.
pub trait SubjectRef: Clone + Eq + core::hash::Hash + core::fmt::Debug {

}

impl<T> SubjectRef for T where T: Clone + Eq + core::hash::Hash + core::fmt::Debug {

}

/// Whether the host subject type behaves like a value: `==` is structural
/// equality and `clone` returns an equal value.
///
/// Every derived `Clone`/`PartialEq` on plain data satisfies this; the
/// protocol contracts of the live layer are exact for such subject types.
pub open spec fn subject_laws<S: Clone + PartialEq>() -> bool {
    &&& vstd::laws_eq::obeys_concrete_eq::<S>()
    &&& clone_faithful::<S>()
}

/// Whether `clone` on `T` returns a value equal to the one it was called on.
pub open spec fn clone_faithful<T: Clone>() -> bool {
    forall|a: T, b: T| #[trigger] vstd::pervasive::strictly_cloned(a, b) ==> a == b
}

/// Cloning a shared reference gives the same reference, so references (such
/// as `&str` source labels) satisfy [`clone_faithful`].
pub proof fn lemma_reference_clone_faithful<'a, T: ?Sized>()
    ensures
        clone_faithful::<&'a T>(),
{
    assert forall|a: &'a T, b: &'a T| #[trigger] vstd::pervasive::strictly_cloned(a, b) implies a == b by {}
}

/// Built-in affordance kinds that Portolan understands semantically.
#[derive(Clone, Copy, Debug, PartialEq, Eq, Hash, Structural)]
pub enum StandardAffordance {
    /// Execute the target subject.
    Execute,
    /// Open the target subject.
    Open,
    /// Move focus to the target subject.
    Focus,
    /// Inspect the target subject.
    Inspect,
    /// Reveal the target subject in a larger structure.
    Reveal,
    /// Toggle a state associated with the target subject.
    Toggle,
    /// Preview the target subject.
    Preview,
    /// Refine the current query using the target subject.
    RefineQuery,
}

/// An affordance attached to a [`PortolanHit`].
#[derive(Clone, Debug, PartialEq, Eq)]
pub struct Affordance<A = StandardAffordance> {
    /// Host-defined affordance payload.
    pub action: A,
}

impl<A> Affordance<A> {
    /// Create a new affordance descriptor.
    pub fn new(action: A) -> (r: Self)
        ensures
            r.action == action,
    {
        Affordance { action }
    }
}

/// Identifier of one retrieval field understood by a retrieval backend.
#[derive(Clone, Copy, Debug, PartialEq, Eq, Hash, Structural)]
pub struct FieldId(u32);

impl FieldId {
    /// Create a field identifier from its raw number.
    pub fn new(value: u32) -> (r: Self)
        ensures
            r.get_spec() == value,
    {
        FieldId(value)
    }

    /// Raw field number.
    pub fn get(&self) -> (r: u32)
        ensures
            r == self.get_spec(),
    {
        self.0
    }

    /// Raw field number, as used in contracts.
    pub closed spec fn get_spec(&self) -> u32 {
        self.0
    }
}

/// Retrieval score.
///
/// Scores are produced by retrieval backends and carried through routing and
/// live sessions unchanged; the library never computes with them. A score is
/// stored as the IEEE-754 bit pattern of a single-precision value, so it
/// round-trips exactly.
#[derive(Clone, Copy, Debug, PartialEq, Eq, Hash, Structural)]
pub struct Score {
    bits: u32,
}

impl Score {
    /// Create a score from the bit pattern of a single-precision value.
    pub fn from_bits(bits: u32) -> (r: Self)
        ensures
            r.bits_spec() == bits,
    {
        Score { bits }
    }

    /// Bit pattern of the single-precision value of this score.
    pub fn to_bits(&self) -> (r: u32)
        ensures
            r == self.bits_spec(),
    {
        self.bits
    }

    /// Bit pattern of this score, as used in contracts.
    pub closed spec fn bits_spec(&self) -> u32 {
        self.bits
    }
}

/// Evidence explaining why a [`PortolanHit`] matched.
#[derive(Clone, Debug, PartialEq)]
pub struct Evidence<K = ()> {
    /// Field associated with this evidence when known.
    pub field: Option<FieldId>,
    /// Score contribution attributed to this evidence.
    pub contribution: Score,
    /// Host-defined evidence classification.
    pub kind: K,
}

impl<K> Evidence<K> {
    /// Create a new evidence record with no associated field.
    pub fn new(contribution: Score, kind: K) -> (r: Self)
        ensures
            r.field is None,
            r.contribution == contribution,
            r.kind == kind,
    {
        Evidence { field: None, contribution, kind }
    }

    /// Attach a field to this evidence record.
    pub fn with_field(self, field: FieldId) -> (r: Self)
        ensures
            r.field == Some(field),
            r.contribution == self.contribution,
            r.kind == self.kind,
    {
        Evidence { field: Some(field), contribution: self.contribution, kind: self.kind }
    }
}

/// Describes where a [`PortolanHit`] originated.
#[derive(Clone, Copy, Debug, PartialEq, Eq, Hash, Structural)]
pub enum RetrievalOrigin {
    /// A materialized retrieval engine such as a Leit index.
    MaterializedIndex,
    /// A host-maintained contextual cache.
    ContextCache,
    /// A visible or already-loaded working set.
    VisibleWorkset,
    /// An on-demand or virtual scan.
    VirtualScan,
    /// A derived hit synthesized from other data.
    Derived,
}

/// A typed retrieval result.
#[derive(Clone, Debug, PartialEq)]
pub struct PortolanHit<S: SubjectRef, A = StandardAffordance, E = ()> {
    /// Host-defined subject identity.
    pub subject: S,
    /// Final score assigned to this hit.
    pub score: Score,
    /// Evidence explaining the match.
    pub evidence: Vec<Evidence<E>>,
    /// Supported actions for the subject.
    pub affordances: Vec<Affordance<A>>,
    /// Origin of the hit.
    pub origin: RetrievalOrigin,
}

impl<S: SubjectRef, A, E> PortolanHit<S, A, E> {
    /// Create a hit with no evidence or affordances.
    pub fn new(subject: S, score: Score, origin: RetrievalOrigin) -> (r: Self)
        ensures
            r.subject == subject,
            r.score == score,
            r.evidence@.len() == 0,
            r.affordances@.len() == 0,
            r.origin == origin,
    {
        PortolanHit { subject, score, evidence: Vec::new(), affordances: Vec::new(), origin }
    }

    /// Replace the affordances attached to this hit.
    pub fn with_affordances(self, affordances: Vec<Affordance<A>>) -> (r: Self)
        ensures
            r.subject == self.subject,
            r.score == self.score,
            r.evidence@ == self.evidence@,
            r.affordances@ == affordances@,
            r.origin == self.origin,
    {
        PortolanHit {
            subject: self.subject,
            score: self.score,
            evidence: self.evidence,
            affordances,
            origin: self.origin,
        }
    }

    /// Replace the evidence attached to this hit.
    pub fn with_evidence(self, evidence: Vec<Evidence<E>>) -> (r: Self)
        ensures
            r.subject == self.subject,
            r.score == self.score,
            r.evidence@ == evidence@,
            r.affordances@ == self.affordances@,
            r.origin == self.origin,
    {
        PortolanHit {
            subject: self.subject,
            score: self.score,
            evidence,
            affordances: self.affordances,
            origin: self.origin,
        }
    }

    /// Append one evidence record.
    pub fn push_evidence(&mut self, evidence: Evidence<E>)
        ensures
            final(self).subject == old(self).subject,
            final(self).score == old(self).score,
            final(self).evidence@ == old(self).evidence@.push(evidence),
            final(self).affordances@ == old(self).affordances@,
            final(self).origin == old(self).origin,
    {
        self.evidence.push(evidence);
    }
}

/// Explicit retrieval work budget.
#[derive(Clone, Copy, Debug, PartialEq, Eq, Structural)]
pub struct RetrievalBudget {
    /// Candidate cap per source.
    pub max_candidates_per_source: u32,
    /// Cap on virtual expansions.
    pub max_virtual_expansions: u32,
    /// Cap on scanned nodes.
    pub max_nodes_scanned: u32,
    /// Wall-clock work budget in microseconds.
    pub max_time_us: u64,
}

impl RetrievalBudget {
    /// A conservative small default budget for interactive use.
    pub fn interactive_default() -> (r: Self)
        ensures
            r.max_candidates_per_source == 64,
            r.max_virtual_expansions == 16,
            r.max_nodes_scanned == 256,
            r.max_time_us == 5_000,
    {
        RetrievalBudget {
            max_candidates_per_source: 64,
            max_virtual_expansions: 16,
            max_nodes_scanned: 256,
            max_time_us: 5_000,
        }
    }
}

/// Explicit retrieval context envelope carrying one host-defined snapshot.
#[derive(Clone, Debug, PartialEq, Eq)]
pub struct RetrievalContext<Host = ()> {
    /// Optional host-defined retrieval snapshot.
    pub host: Option<Host>,
}

impl<Host> RetrievalContext<Host> {
    /// Create a retrieval context from an optional host snapshot.
    pub fn new(host: Option<Host>) -> (r: Self)
        ensures
            r.host == host,
    {
        RetrievalContext { host }
    }

    /// Create a retrieval context that carries one host snapshot.
    pub fn with_host(host: Host) -> (r: Self)
        ensures
            r.host == Some(host),
    {
        RetrievalContext { host: Some(host) }
    }
}

impl<Host> Default for RetrievalContext<Host> {
    fn default() -> (r: Self)
        ensures
            r.host is None,
    {
        RetrievalContext { host: None }
    }
}

/// Host-owned resolver for turning affordance descriptors into host actions.
///
/// Resolution is pure description lookup; Portolan never executes actions.
pub trait AffordanceResolver<S: SubjectRef, A> {
    /// Host-defined resolved action description.
    type Resolved;

    /// Resolve a hit affordance into a host action descriptor.
    fn resolve(&self, subject: &S, affordance: &Affordance<A>) -> Option<Self::Resolved>;
}

} // verus!
