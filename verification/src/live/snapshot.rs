//! Lifting one-shot retrieval sources into the live layer.
//!
//! A lifted session emits `Begin`, one patch inserting every current hit, and
//! a terminal `Complete` status; canceled before it runs, it emits `Begin`
//! and a terminal `Canceled` status instead.

use core::marker::PhantomData;

use vstd::prelude::*;

use crate::base::{PortolanHit, RetrievalBudget, RetrievalContext, StandardAffordance, SubjectRef};
use crate::live::events::{
    BoxedLiveSession, LiveSession, LiveSource, PollOutcome, SourceEventBuffer, SourcePatchOp,
    SourceResult, SourceSearchEvent, StagedLiveSource,
};
use crate::live::protocol::{apply_patch_ops, has_id, validate_spec, KnownResult};
use crate::live::ids::{
    LocalResultId, QuerySessionId, Revision, SourceCapabilities, SourceState, StatusUpdate,
};
use crate::query::PortolanQuery;
use crate::route::RouteStage;
use crate::source::{CandidateBuffer, RetrievalSource};

verus! {

broadcast use vstd::std_specs::vec::axiom_spec_into_iter;

/// Lift one cloneable `'static` [`RetrievalSource`] into a live source.
///
/// This is useful when a host wants to mix existing synchronous sources with
/// richer progressive sources under one live coordinator.
#[derive(Clone, Copy, Debug)]
pub struct SnapshotLiveSource<Inner> {
    inner: Inner,
}

impl<Inner> SnapshotLiveSource<Inner> {
    /// The wrapped one-shot source, as used in contracts.
    pub closed spec fn inner_spec(&self) -> Inner {
        self.inner
    }

    /// Wrap one one-shot retrieval source as a live source.
    pub fn new(inner: Inner) -> (r: Self)
        ensures
            r.inner_spec() == inner,
    {
        SnapshotLiveSource { inner }
    }

    /// Recover the wrapped one-shot source.
    pub fn into_inner(self) -> (r: Inner)
        ensures
            r == self.inner_spec(),
    {
        self.inner
    }

    /// Open one snapshot session over a clone of the wrapped source, before
    /// it is boxed as a live session.
    pub fn open_session<S: SubjectRef, Scope, Filter, Context, A, E, Progress, Detail>(
        &self,
        session_id: QuerySessionId,
        query: PortolanQuery<Scope, Filter>,
        context: RetrievalContext<Context>,
        budget: RetrievalBudget,
    ) -> (r: SnapshotLiveSession<Inner, S, Scope, Filter, Context, A, E, Progress, Detail>) where
        Inner: Clone,
        ensures
            r.phase_spec() == SnapshotPhase::Ready,
            r.session_id_spec() == session_id,
            vstd::pervasive::cloned(self.inner_spec(), r.inner_spec()),
            r.query_spec() == query,
            r.context_spec() == context,
            r.budget_spec() == budget,
            r.runs_spec() == 0,
    {
        SnapshotLiveSession::new(self.inner.clone(), session_id, query, context, budget)
    }
}

/// Where a lifted snapshot session stands.
#[derive(Clone, Copy, Debug, PartialEq, Eq, Structural)]
pub enum SnapshotPhase {
    /// Nothing emitted yet; the next poll runs the wrapped source.
    Ready,
    /// Everything emitted; polls emit nothing.
    Finished,
    /// Canceled before running; the next poll reports the cancellation.
    Canceled,
    /// The snapshot was emitted; the next poll finishes the session.
    Drained,
}

/// Phase after one poll.
pub open spec fn snapshot_next_phase(phase: SnapshotPhase) -> SnapshotPhase {
    match phase {
        SnapshotPhase::Ready => SnapshotPhase::Drained,
        _ => SnapshotPhase::Finished,
    }
}

/// How many times one poll runs the wrapped source: once, when the session is
/// ready, and never otherwise.
pub open spec fn snapshot_poll_runs(phase: SnapshotPhase) -> nat {
    match phase {
        SnapshotPhase::Ready => 1,
        _ => 0,
    }
}

/// Number of events one poll emits.
pub open spec fn snapshot_poll_events(phase: SnapshotPhase) -> nat {
    match phase {
        SnapshotPhase::Ready => 3,
        SnapshotPhase::Canceled => 2,
        _ => 0,
    }
}

/// Phase after a cancellation request.
pub open spec fn snapshot_cancel_phase(phase: SnapshotPhase) -> SnapshotPhase {
    match phase {
        SnapshotPhase::Ready => SnapshotPhase::Canceled,
        other => other,
    }
}

/// Every operation inserts one result, numbered from zero in order.
pub open spec fn numbered_inserts<S: SubjectRef, A, E>(ops: Seq<SourcePatchOp<S, A, E>>) -> bool {
    &&& ops.len() <= u64::MAX
    &&& forall|i: int|
        0 <= i < ops.len() ==> {
            &&& #[trigger] ops[i] is Insert
            &&& ops[i]->Insert_result.id == LocalResultId::from_raw(i as u64)
        }
}

/// The `Begin` event of a snapshot session.
pub open spec fn snapshot_begin<S: SubjectRef, A, E, Progress, Detail>(
    session_id: QuerySessionId,
) -> SourceSearchEvent<S, A, E, Progress, Detail> {
    SourceSearchEvent::Begin {
        session_id,
        revision: Revision::from_raw(0),
        capabilities: SourceCapabilities::snapshot_spec(),
    }
}

/// The terminal status event of a snapshot session.
pub open spec fn snapshot_status<S: SubjectRef, A, E, Progress, Detail>(
    session_id: QuerySessionId,
    revision: u64,
    state: SourceState,
) -> SourceSearchEvent<S, A, E, Progress, Detail> {
    SourceSearchEvent::StatusChanged {
        session_id,
        revision: Revision::from_raw(revision),
        status: StatusUpdate { state, detail: None },
    }
}

/// The patch event of a snapshot session: revision one, inserting every hit
/// the wrapped source emitted, numbered in order.
pub open spec fn snapshot_patch<S: SubjectRef, A, E, Progress, Detail>(
    event: SourceSearchEvent<S, A, E, Progress, Detail>,
    session_id: QuerySessionId,
) -> bool {
    &&& event is ApplyPatch
    &&& event->ApplyPatch_session_id == session_id
    &&& event->ApplyPatch_revision == Revision::from_raw(1)
    &&& numbered_inserts(event->ApplyPatch_ops@)
}

/// The operations insert `hits`, one each, in order.
pub open spec fn inserts_hits<S: SubjectRef, A, E>(
    ops: Seq<SourcePatchOp<S, A, E>>,
    hits: Seq<PortolanHit<S, A, E>>,
) -> bool {
    &&& ops.len() == hits.len()
    &&& forall|i: int| 0 <= i < ops.len() ==> (#[trigger] ops[i])->Insert_result.hit == hits[i]
}

/// What a lifted snapshot session is, seen through the live-session
/// interface: where it stands, its session id, and the hits its wrapped source
/// retrieves for the session's query, context and budget.
pub struct LiftedSnapshot<S: SubjectRef, A = StandardAffordance, E = ()> {
    /// Where the session stands.
    pub phase: SnapshotPhase,
    /// The session id its events carry.
    pub session_id: QuerySessionId,
    /// The hits the wrapped source retrieves, which the patch inserts in order.
    pub hits: Vec<PortolanHit<S, A, E>>,
}

/// What one poll of a lifted snapshot session standing at `lifted` appends
/// (`appended`), reports (`r`) and leaves (`after`): when ready, `Begin`, one
/// patch inserting the hits in order and a `Complete` status; when canceled
/// before running, `Begin` and a `Canceled` status; otherwise nothing. Every
/// poll is terminal, and the session moves to its next phase.
pub open spec fn lifted_poll<S: SubjectRef, A, E, Progress, Detail>(
    lifted: LiftedSnapshot<S, A, E>,
    appended: Seq<SourceSearchEvent<S, A, E, Progress, Detail>>,
    r: PollOutcome,
    after: Option<LiftedSnapshot<S, A, E>>,
) -> bool {
    &&& after == Some(
        LiftedSnapshot { phase: snapshot_next_phase(lifted.phase), session_id: lifted.session_id, hits: lifted.hits },
    )
    &&& r.terminal
    &&& r.emitted_events == snapshot_poll_events(lifted.phase)
    &&& appended.len() == snapshot_poll_events(lifted.phase)
    &&& lifted.phase == SnapshotPhase::Ready ==> {
        &&& appended[0] == snapshot_begin::<S, A, E, Progress, Detail>(lifted.session_id)
        &&& snapshot_patch(appended[1], lifted.session_id)
        &&& inserts_hits(appended[1]->ApplyPatch_ops@, lifted.hits@)
        &&& appended[2] == snapshot_status::<S, A, E, Progress, Detail>(lifted.session_id, 2, SourceState::Complete)
    }
    &&& lifted.phase == SnapshotPhase::Canceled ==> {
        &&& appended[0] == snapshot_begin::<S, A, E, Progress, Detail>(lifted.session_id)
        &&& appended[1] == snapshot_status::<S, A, E, Progress, Detail>(lifted.session_id, 1, SourceState::Canceled)
    }
}

/// What a cancellation request leaves of a lifted snapshot session.
pub open spec fn lifted_cancel<S: SubjectRef, A, E>(lifted: LiftedSnapshot<S, A, E>) -> Option<LiftedSnapshot<S, A, E>> {
    Some(LiftedSnapshot { phase: snapshot_cancel_phase(lifted.phase), session_id: lifted.session_id, hits: lifted.hits })
}

/// One live session over a wrapped one-shot source.
pub struct SnapshotLiveSession<Inner, S: SubjectRef, Scope, Filter, Context, A, E, Progress, Detail> {
    inner: Inner,
    session_id: QuerySessionId,
    query: PortolanQuery<Scope, Filter>,
    context: RetrievalContext<Context>,
    budget: RetrievalBudget,
    phase: SnapshotPhase,
    runs: Ghost<nat>,
    marker: PhantomData<(S, A, E, Progress, Detail)>,
}

impl<Inner, S: SubjectRef, Scope, Filter, Context, A, E, Progress, Detail> SnapshotLiveSession<
    Inner,
    S,
    Scope,
    Filter,
    Context,
    A,
    E,
    Progress,
    Detail,
> {
    /// Where the session stands, as used in contracts.
    pub closed spec fn phase_spec(&self) -> SnapshotPhase {
        self.phase
    }

    /// The session id, as used in contracts.
    pub closed spec fn session_id_spec(&self) -> QuerySessionId {
        self.session_id
    }

    /// The wrapped source, as used in contracts.
    pub closed spec fn inner_spec(&self) -> Inner {
        self.inner
    }

    /// The query the session retrieves for, as used in contracts.
    pub closed spec fn query_spec(&self) -> PortolanQuery<Scope, Filter> {
        self.query
    }

    /// The context the session retrieves in, as used in contracts.
    pub closed spec fn context_spec(&self) -> RetrievalContext<Context> {
        self.context
    }

    /// The budget the session retrieves under, as used in contracts.
    pub closed spec fn budget_spec(&self) -> RetrievalBudget {
        self.budget
    }

    /// How many times the session has run its wrapped source.
    pub closed spec fn runs_spec(&self) -> nat {
        self.runs@
    }

    /// Open a session that has not run yet.
    pub fn new(
        inner: Inner,
        session_id: QuerySessionId,
        query: PortolanQuery<Scope, Filter>,
        context: RetrievalContext<Context>,
        budget: RetrievalBudget,
    ) -> (r: Self)
        ensures
            r.phase_spec() == SnapshotPhase::Ready,
            r.session_id_spec() == session_id,
            r.inner_spec() == inner,
            r.query_spec() == query,
            r.context_spec() == context,
            r.budget_spec() == budget,
            r.runs_spec() == 0,
    {
        SnapshotLiveSession {
            inner,
            session_id,
            query,
            context,
            budget,
            phase: SnapshotPhase::Ready,
            runs: Ghost(0),
            marker: PhantomData,
        }
    }

    /// Where the session stands.
    pub fn phase(&self) -> (r: SnapshotPhase)
        ensures
            r == self.phase_spec(),
    {
        self.phase
    }
}

impl<Inner, S, Scope, Filter, Context, A, E, Progress, Detail> LiveSession<
    S,
    A,
    E,
    Progress,
    Detail,
> for SnapshotLiveSession<Inner, S, Scope, Filter, Context, A, E, Progress, Detail> where
    S: SubjectRef,
    Inner: RetrievalSource<S, Scope, Filter, Context, A, E>,
 {
    open spec fn capabilities_spec(&self) -> SourceCapabilities {
        SourceCapabilities::snapshot_spec()
    }

    open spec fn lifted_spec(&self) -> Option<LiftedSnapshot<S, A, E>> {
        Some(
            LiftedSnapshot {
                phase: self.phase_spec(),
                session_id: self.session_id_spec(),
                hits: self.inner_spec().retrieved(&self.query_spec(), &self.context_spec(), self.budget_spec()),
            },
        )
    }

    fn capabilities(&self) -> (r: SourceCapabilities)
        ensures
            r == SourceCapabilities::snapshot_spec(),
    {
        SourceCapabilities::snapshot()
    }

    fn poll_events_into(&mut self, out: &mut SourceEventBuffer<S, A, E, Progress, Detail>) -> (r:
        PollOutcome)
        ensures
            final(self).phase_spec() == snapshot_next_phase(old(self).phase_spec()),
            final(self).session_id_spec() == old(self).session_id_spec(),
            final(self).inner_spec() == old(self).inner_spec(),
            final(self).query_spec() == old(self).query_spec(),
            final(self).context_spec() == old(self).context_spec(),
            final(self).budget_spec() == old(self).budget_spec(),
            final(self).runs_spec() == old(self).runs_spec() + snapshot_poll_runs(old(self).phase_spec()),
            r.emitted_events == snapshot_poll_events(old(self).phase_spec()),
            r.terminal,
            final(out)@.len() == old(out)@.len() + snapshot_poll_events(old(self).phase_spec()),
            final(out)@.take(old(out)@.len() as int) == old(out)@,
            old(self).phase_spec() == SnapshotPhase::Ready ==> {
                let base = old(out)@.len() as int;
                &&& final(out)@[base] == snapshot_begin::<S, A, E, Progress, Detail>(
                    old(self).session_id_spec(),
                )
                &&& snapshot_patch(final(out)@[base + 1], old(self).session_id_spec())
                &&& inserts_hits(
                    final(out)@[base + 1]->ApplyPatch_ops@,
                    old(self).inner_spec().retrieved(
                        &old(self).query_spec(),
                        &old(self).context_spec(),
                        old(self).budget_spec(),
                    )@,
                )
                &&& final(out)@[base + 2] == snapshot_status::<S, A, E, Progress, Detail>(
                    old(self).session_id_spec(),
                    2,
                    SourceState::Complete,
                )
            },
            old(self).phase_spec() == SnapshotPhase::Canceled ==> {
                let base = old(out)@.len() as int;
                &&& final(out)@[base] == snapshot_begin::<S, A, E, Progress, Detail>(
                    old(self).session_id_spec(),
                )
                &&& final(out)@[base + 1] == snapshot_status::<S, A, E, Progress, Detail>(
                    old(self).session_id_spec(),
                    1,
                    SourceState::Canceled,
                )
            },
    {
        let ghost before = out@;
        match self.phase {
            SnapshotPhase::Ready => {
                out.push_event(
                    SourceSearchEvent::Begin {
                        session_id: self.session_id,
                        revision: Revision::new(0),
                        capabilities: SourceCapabilities::snapshot(),
                    },
                );
                let mut buffer: CandidateBuffer<S, A, E> = CandidateBuffer::new();
                self.inner.retrieve_into(&self.query, &self.context, self.budget, &mut buffer);
                proof {
                    self.runs@ = self.runs@ + 1;
                }
                let hits = buffer.into_hits();
                let ghost hit_view = hits@;
                let hit_count = hits.len();
                let mut ops: Vec<SourcePatchOp<S, A, E>> = Vec::new();
                let mut index: u64 = 0;
                for hit in it: hits.into_iter()
                    invariant
                        index == it.index(),
                        it.seq() == hit_view,
                        hit_view.len() == hit_count,
                        ops@.len() == index,
                        numbered_inserts(ops@),
                        forall|k: int| 0 <= k < index ==> (#[trigger] ops@[k])->Insert_result.hit == hit_view[k],
                {
                    ops.push(
                        SourcePatchOp::Insert {
                            result: SourceResult::new(LocalResultId::new(index), hit),
                        },
                    );
                    index = index + 1;
                }
                out.push_event(
                    SourceSearchEvent::ApplyPatch {
                        session_id: self.session_id,
                        revision: Revision::new(1),
                        ops,
                    },
                );
                out.push_event(
                    SourceSearchEvent::StatusChanged {
                        session_id: self.session_id,
                        revision: Revision::new(2),
                        status: StatusUpdate::new(SourceState::Complete),
                    },
                );
                self.phase = SnapshotPhase::Drained;
                proof {
                    assert(out@.take(before.len() as int) =~= before);
                }
                PollOutcome::with_event_count(3, true)
            },
            SnapshotPhase::Finished => {
                proof {
                    assert(out@.take(before.len() as int) =~= before);
                }
                PollOutcome::with_event_count(0, true)
            },
            SnapshotPhase::Canceled => {
                out.push_event(
                    SourceSearchEvent::Begin {
                        session_id: self.session_id,
                        revision: Revision::new(0),
                        capabilities: SourceCapabilities::snapshot(),
                    },
                );
                out.push_event(
                    SourceSearchEvent::StatusChanged {
                        session_id: self.session_id,
                        revision: Revision::new(1),
                        status: StatusUpdate::new(SourceState::Canceled),
                    },
                );
                self.phase = SnapshotPhase::Finished;
                proof {
                    assert(out@.take(before.len() as int) =~= before);
                }
                PollOutcome::with_event_count(2, true)
            },
            SnapshotPhase::Drained => {
                self.phase = SnapshotPhase::Finished;
                proof {
                    assert(out@.take(before.len() as int) =~= before);
                }
                PollOutcome::with_event_count(0, true)
            },
        }
    }

    fn cancel(&mut self)
        ensures
            final(self).phase_spec() == snapshot_cancel_phase(old(self).phase_spec()),
            final(self).session_id_spec() == old(self).session_id_spec(),
            final(self).runs_spec() == old(self).runs_spec(),
    {
        if self.phase == SnapshotPhase::Ready {
            self.phase = SnapshotPhase::Canceled;
        }
    }
}

impl<Inner, S, Scope, Filter, Context, A, E, Progress, Detail> LiveSource<
    S,
    Scope,
    Filter,
    Context,
    A,
    E,
    Progress,
    Detail,
> for SnapshotLiveSource<Inner> where
    S: SubjectRef + 'static,
    Scope: 'static,
    Filter: 'static,
    Context: 'static,
    A: 'static,
    E: 'static,
    Progress: 'static,
    Detail: 'static,
    Inner: RetrievalSource<S, Scope, Filter, Context, A, E> + Clone + 'static,
 {
    /// The boxed session is fresh (not polled, not canceled) and is a ready
    /// lifted snapshot session for `session_id` whose patch will insert the
    /// hits a clone of the wrapped source retrieves for `query`, `context`
    /// and `budget`.
    open spec fn opens(
        &self,
        session_id: QuerySessionId,
        query: PortolanQuery<Scope, Filter>,
        context: RetrievalContext<Context>,
        budget: RetrievalBudget,
        r: BoxedLiveSession<S, A, E, Progress, Detail>,
    ) -> bool {
        &&& r.polls().len() == 0
        &&& r.cancels() == 0
        &&& r.lifted() matches Some(lifted) && lifted.phase == SnapshotPhase::Ready
        &&& r.lifted().unwrap().session_id == session_id
        &&& exists|inner: Inner|
            #![trigger vstd::pervasive::cloned(self.inner_spec(), inner)]
            vstd::pervasive::cloned(self.inner_spec(), inner) && r.lifted().unwrap().hits == inner.retrieved(
                &query,
                &context,
                budget,
            )
    }

    fn begin_session(
        &self,
        session_id: QuerySessionId,
        query: PortolanQuery<Scope, Filter>,
        context: RetrievalContext<Context>,
        budget: RetrievalBudget,
    ) -> (r: BoxedLiveSession<S, A, E, Progress, Detail>) {
        let session: SnapshotLiveSession<Inner, S, Scope, Filter, Context, A, E, Progress, Detail> =
            self.open_session(session_id, query, context, budget);
        let ghost lifted = session.lifted_spec();
        let ghost inner = session.inner_spec();
        let r = BoxedLiveSession { session: Box::new(session), polls: Ghost(Seq::empty()), cancels: Ghost(0) };
        proof {
            r.lemma_handle_views();
            assert(r.session.lifted_spec() == lifted);
        }
        assert(vstd::pervasive::cloned(self.inner_spec(), inner));
        r
    }
}

/// Lightweight bridge for lifting one-shot routed sources into the live layer.
///
/// Callers usually implement this on the same type that already implements
/// [`RetrievalSource`] when they want to wrap it in [`SnapshotLiveSource`].
pub trait StagedSnapshotSource<
    S: SubjectRef,
    Scope = (),
    Filter = (),
    Context = (),
    A = StandardAffordance,
    E = (),
>: RetrievalSource<S, Scope, Filter, Context, A, E> {
    /// The stage the source declares. Outside verified code, implement it
    /// with the same body as `stage`.
    spec fn stage_spec(&self) -> RouteStage;

    /// Route stage for the lifted live source.
    fn stage(&self) -> (r: RouteStage)
        ensures
            r == self.stage_spec(),
    ;
}

impl<Inner, S, Scope, Filter, Context, A, E, Progress, Detail> StagedLiveSource<
    S,
    Scope,
    Filter,
    Context,
    A,
    E,
    Progress,
    Detail,
> for SnapshotLiveSource<Inner> where
    S: SubjectRef + 'static,
    Scope: 'static,
    Filter: 'static,
    Context: 'static,
    A: 'static,
    E: 'static,
    Progress: 'static,
    Detail: 'static,
    Inner: StagedSnapshotSource<S, Scope, Filter, Context, A, E> + Clone + 'static,
 {
    open spec fn stage_spec(&self) -> RouteStage {
        StagedSnapshotSource::<S, Scope, Filter, Context, A, E>::stage_spec(&self.inner_spec())
    }

    fn stage(&self) -> RouteStage {
        StagedSnapshotSource::<S, Scope, Filter, Context, A, E>::stage(&self.inner)
    }
}

/// One poll settles a snapshot session: from the second poll on it is
/// finished and emits nothing, and cancellation no longer changes it.
pub proof fn law_snapshot_session_settles(phase: SnapshotPhase)
    ensures
        snapshot_poll_events(snapshot_next_phase(phase)) == 0,
        snapshot_next_phase(snapshot_next_phase(phase)) == SnapshotPhase::Finished,
        snapshot_poll_events(SnapshotPhase::Finished) == 0,
        snapshot_next_phase(SnapshotPhase::Finished) == SnapshotPhase::Finished,
        snapshot_cancel_phase(snapshot_next_phase(phase)) == snapshot_next_phase(phase),
{
}

/// The phase a snapshot session reaches after `n` polls from `phase`.
pub open spec fn snapshot_phase_after(phase: SnapshotPhase, n: nat) -> SnapshotPhase
    decreases n,
{
    if n == 0 {
        phase
    } else {
        snapshot_next_phase(snapshot_phase_after(phase, (n - 1) as nat))
    }
}

/// A snapshot session runs its source at most once, and a session canceled
/// before its first poll never runs it: no poll from the canceled phase on
/// finds the session ready.
pub proof fn law_snapshot_source_runs_at_most_once(n: nat)
    ensures
        snapshot_poll_runs(snapshot_phase_after(snapshot_cancel_phase(SnapshotPhase::Ready), n)) == 0,
        n >= 1 ==> snapshot_poll_runs(snapshot_phase_after(SnapshotPhase::Ready, n)) == 0,
    decreases n,
{
    if n > 0 {
        law_snapshot_source_runs_at_most_once((n - 1) as nat);
    }
}

/// The results a run of numbered inserts introduces, in order.
pub open spec fn inserted_results<S: SubjectRef, A, E>(ops: Seq<SourcePatchOp<S, A, E>>) -> Seq<
    KnownResult<S>,
> {
    Seq::new(
        ops.len(),
        |i: int| KnownResult { id: ops[i]->Insert_result.id, subject: ops[i]->Insert_result.hit.subject },
    )
}

/// Inserts numbered from `base` on apply cleanly after results numbered below `base`.
proof fn lemma_numbered_inserts_apply<S: SubjectRef, A, E>(
    caps: SourceCapabilities,
    known: Seq<KnownResult<S>>,
    ops: Seq<SourcePatchOp<S, A, E>>,
    base: nat,
)
    requires
        base + ops.len() <= u64::MAX + 1,
        forall|k: int| 0 <= k < known.len() ==> (#[trigger] known[k]).id.get_spec() < base,
        forall|i: int|
            0 <= i < ops.len() ==> {
                &&& #[trigger] ops[i] is Insert
                &&& ops[i]->Insert_result.id.get_spec() == base + i
            },
    ensures
        apply_patch_ops(caps, known, ops) == Some(known + inserted_results(ops)),
    decreases ops.len(),
{
    if ops.len() == 0 {
        assert(known + inserted_results(ops) =~= known);
    } else {
        let op = ops[0];
        let id = op->Insert_result.id;
        assert(!has_id(known, id)) by {
            if has_id(known, id) {
                let k = choose|k: int| 0 <= k < known.len() && known[k].id == id;
                assert(known[k].id.get_spec() < base);
            }
        }
        let next = known.push(KnownResult { id, subject: op->Insert_result.hit.subject });
        let rest = ops.drop_first();
        assert forall|i: int| 0 <= i < rest.len() implies {
            &&& #[trigger] rest[i] is Insert
            &&& rest[i]->Insert_result.id.get_spec() == (base + 1) + i
        } by {
            assert(rest[i] == ops[i + 1]);
        }
        lemma_numbered_inserts_apply(caps, next, rest, base + 1);
        assert(next + inserted_results(rest) =~= known + inserted_results(ops));
    }
}

/// The events of a lifted snapshot session are always accepted by the live
/// protocol for the snapshot capabilities: `Begin` opens the session, the
/// patch introduces every hit under its number, and `Complete` (or, after a
/// cancellation, `Canceled`) ends it.
pub proof fn law_snapshot_session_follows_protocol<S: SubjectRef, A, E, Progress, Detail>(
    session_id: QuerySessionId,
    patch: SourceSearchEvent<S, A, E, Progress, Detail>,
)
    requires
        snapshot_patch(patch, session_id),
    ensures
        validate_spec(
            false,
            false,
            None,
            Seq::<KnownResult<S>>::empty(),
            false,
            SourceCapabilities::snapshot_spec(),
            session_id,
            snapshot_begin::<S, A, E, Progress, Detail>(session_id),
        ) == Some((true, false, Some(Revision::from_raw(0)), Seq::<KnownResult<S>>::empty(), false)),
        validate_spec(
            true,
            false,
            Some(Revision::from_raw(0)),
            Seq::<KnownResult<S>>::empty(),
            false,
            SourceCapabilities::snapshot_spec(),
            session_id,
            patch,
        ) == Some((true, false, Some(Revision::from_raw(1)), inserted_results(patch->ApplyPatch_ops@), true)),
        validate_spec(
            true,
            false,
            Some(Revision::from_raw(1)),
            inserted_results(patch->ApplyPatch_ops@),
            true,
            SourceCapabilities::snapshot_spec(),
            session_id,
            snapshot_status::<S, A, E, Progress, Detail>(session_id, 2, SourceState::Complete),
        ) == Some((true, true, Some(Revision::from_raw(2)), inserted_results(patch->ApplyPatch_ops@), true)),
        validate_spec(
            true,
            false,
            Some(Revision::from_raw(0)),
            Seq::<KnownResult<S>>::empty(),
            false,
            SourceCapabilities::snapshot_spec(),
            session_id,
            snapshot_status::<S, A, E, Progress, Detail>(session_id, 1, SourceState::Canceled),
        ) == Some((true, true, Some(Revision::from_raw(1)), Seq::<KnownResult<S>>::empty(), false)),
{
    broadcast use Revision::lemma_from_raw, LocalResultId::lemma_from_raw;

    let ops = patch->ApplyPatch_ops@;
    assert forall|i: int| 0 <= i < ops.len() implies {
        &&& #[trigger] ops[i] is Insert
        &&& ops[i]->Insert_result.id.get_spec() == 0 + i
    } by {
        assert(ops[i]->Insert_result.id == LocalResultId::from_raw(i as u64));
    }
    lemma_numbered_inserts_apply(
        SourceCapabilities::snapshot_spec(),
        Seq::<KnownResult<S>>::empty(),
        ops,
        0,
    );
    assert(Seq::<KnownResult<S>>::empty() + inserted_results(ops) =~= inserted_results(ops));
}

} // verus!
