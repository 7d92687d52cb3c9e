//! The live coordinator: one session id, many sources, one event stream.
//!
//! The coordinator opens one session per source in route-plan order, polls
//! them, validates every source event against the live protocol, fails
//! sources that break it, and stamps every coordinated event with the session
//! id and a coordinator revision.

use vstd::prelude::*;

use crate::base::{clone_faithful, subject_laws, RetrievalBudget, RetrievalContext, SubjectRef};
use crate::live::events::{
    BoxedLiveSession, PollOutcome, SearchEvent, SearchEventBuffer, SourceEventBuffer,
    SourceSearchEvent, StagedLiveSource,
};
use crate::live::ids::{
    QuerySessionId, Revision, SourceCapabilities, SourceSlot, SourceState, StatusUpdate,
};
use crate::live::protocol::{
    known_match, lemma_validate_spec_same_ids, same_ids, subject_free, validate_source_event, validate_spec, KnownResult,
    SourceProtocolState,
};
use crate::live::translate::{translate_event, translated};
use crate::live::snapshot::{lifted_cancel, lifted_poll};
use crate::query::PortolanQuery;
use crate::route::{lemma_route_schedule_len, lemma_stage_indices_len, route_schedule, stage_indices, RoutePlan, RouteStage};

verus! {

broadcast use {Revision::lemma_from_raw, QuerySessionId::lemma_from_raw};

/// `r` advanced by `j` revisions; the counter saturates at `u64::MAX`.
pub open spec fn rev_plus(r: u64, j: int) -> u64 {
    if r + j <= u64::MAX {
        (r + j) as u64
    } else {
        u64::MAX
    }
}

/// Protocol state of one source after its first `n` events, or `None` once an
/// event broke the protocol.
pub open spec fn protocol_after<S: SubjectRef, A, E, Progress, Detail>(
    start: (bool, bool, Option<Revision>, Seq<KnownResult<S>>, bool),
    caps: SourceCapabilities,
    session_id: QuerySessionId,
    events: Seq<SourceSearchEvent<S, A, E, Progress, Detail>>,
    n: nat,
) -> Option<(bool, bool, Option<Revision>, Seq<KnownResult<S>>, bool)>
    decreases n,
{
    if n == 0 {
        Some(start)
    } else {
        match protocol_after(start, caps, session_id, events, (n - 1) as nat) {
            Some(p) => validate_spec(p.0, p.1, p.2, p.3, p.4, caps, session_id, events[n - 1]),
            None => None,
        }
    }
}

/// Whether the protocol's verdicts on `events` are known for subjects of type
/// `S`: always when its `==` and `clone` behave like plain values, and
/// otherwise when no event compares subjects (replaces a result).
pub open spec fn verdicts_known<S: SubjectRef, A, E, Progress, Detail>(
    events: Seq<SourceSearchEvent<S, A, E, Progress, Detail>>,
) -> bool {
    subject_laws::<S>() || forall|j: int| 0 <= j < events.len() ==> subject_free(#[trigger] events[j])
}

/// Number of leading events the protocol accepts.
pub open spec fn accepted_count<S: SubjectRef, A, E, Progress, Detail>(
    start: (bool, bool, Option<Revision>, Seq<KnownResult<S>>, bool),
    caps: SourceCapabilities,
    session_id: QuerySessionId,
    events: Seq<SourceSearchEvent<S, A, E, Progress, Detail>>,
    n: nat,
) -> nat
    decreases n,
{
    if n == 0 {
        0
    } else if protocol_after(start, caps, session_id, events, n) is Some {
        n
    } else {
        accepted_count(start, caps, session_id, events, (n - 1) as nat)
    }
}

/// The status event that fails one source.
pub open spec fn failed_event<SourceId, S: SubjectRef, A, E, Progress, Detail>(
    session_id: QuerySessionId,
    revision: u64,
    source: SourceId,
    stage: RouteStage,
) -> SearchEvent<SourceId, S, A, E, Progress, Detail> {
    SearchEvent::StatusChanged {
        session_id,
        revision: Revision::from_raw(revision),
        source,
        stage,
        status: StatusUpdate { state: SourceState::Failed, detail: None },
    }
}

/// Every event carries `session_id`, and their revisions count up from `first`.
pub open spec fn stamped<SourceId, S: SubjectRef, A, E, Progress, Detail>(
    events: Seq<SearchEvent<SourceId, S, A, E, Progress, Detail>>,
    session_id: QuerySessionId,
    first: u64,
) -> bool {
    forall|j: int|
        0 <= j < events.len() ==> {
            &&& (#[trigger] events[j]).session_id_spec() == session_id
            &&& events[j].revision_spec() == Some(Revision::from_raw(rev_plus(first, j)))
        }
}

/// None of the events opens or closes the coordinated session.
pub open spec fn source_events_only<SourceId, S: SubjectRef, A, E, Progress, Detail>(
    events: Seq<SearchEvent<SourceId, S, A, E, Progress, Detail>>,
) -> bool {
    forall|j: int|
        0 <= j < events.len() ==> !((#[trigger] events[j]) is SessionStarted) && !(events[j] is SessionFinished)
}

/// Stamped sequences concatenate.
pub proof fn lemma_stamped_append<SourceId, S: SubjectRef, A, E, Progress, Detail>(
    a: Seq<SearchEvent<SourceId, S, A, E, Progress, Detail>>,
    b: Seq<SearchEvent<SourceId, S, A, E, Progress, Detail>>,
    session_id: QuerySessionId,
    first: u64,
)
    requires
        stamped(a, session_id, first),
        stamped(b, session_id, rev_plus(first, a.len() as int)),
    ensures
        stamped(a + b, session_id, first),
{
    assert forall|j: int| 0 <= j < (a + b).len() implies {
        &&& (#[trigger] (a + b)[j]).session_id_spec() == session_id
        &&& (a + b)[j].revision_spec() == Some(Revision::from_raw(rev_plus(first, j)))
    } by {
        if j >= a.len() {
            assert((a + b)[j] == b[j - a.len()]);
            assert(rev_plus(rev_plus(first, a.len() as int), j - a.len()) == rev_plus(first, j));
        }
    }
}

/// One source session inside a coordinated session.
#[verifier::reject_recursive_types(SourceId)]
#[verifier::reject_recursive_types(S)]
#[verifier::reject_recursive_types(A)]
#[verifier::reject_recursive_types(E)]
#[verifier::reject_recursive_types(Progress)]
#[verifier::reject_recursive_types(Detail)]
pub struct ActiveSession<SourceId, S: SubjectRef, A, E, Progress, Detail> {
    /// Slot assigned by the coordinator.
    pub source_slot: SourceSlot,
    /// Caller-provided source identifier.
    pub source: SourceId,
    /// Stage of the source.
    pub stage: RouteStage,
    /// Capabilities the session declared when it was opened.
    pub capabilities: SourceCapabilities,
    /// The live session itself.
    pub session: BoxedLiveSession<S, A, E, Progress, Detail>,
    /// Protocol bookkeeping for the session.
    pub protocol: SourceProtocolState<S, Detail>,
}

/// Coordinator for multi-source live sessions. A coordinator made with `new`
/// assigns session ids from 1 up; one made with `Default` starts at 0.
#[derive(Debug)]
pub struct LiveCoordinator {
    next_session_id: u64,
}

/// One coordinated live query session. Callers poll it until the outcome is
/// terminal.
#[verifier::reject_recursive_types(SourceId)]
#[verifier::reject_recursive_types(S)]
#[verifier::reject_recursive_types(A)]
#[verifier::reject_recursive_types(E)]
#[verifier::reject_recursive_types(Progress)]
#[verifier::reject_recursive_types(Detail)]
pub struct LiveCoordinatorSession<SourceId, S: SubjectRef, A, E, Progress, Detail> {
    session_id: QuerySessionId,
    next_revision: u64,
    session_started: bool,
    session_finished: bool,
    active: Vec<ActiveSession<SourceId, S, A, E, Progress, Detail>>,
}

impl<SourceId: Clone, S: SubjectRef, A, E, Progress, Detail> LiveCoordinatorSession<
    SourceId,
    S,
    A,
    E,
    Progress,
    Detail,
> {
    /// Session id, as used in contracts.
    pub closed spec fn session_id_spec(&self) -> QuerySessionId {
        self.session_id
    }

    /// Revision the next coordinated event will carry.
    pub closed spec fn next_revision_spec(&self) -> u64 {
        self.next_revision
    }

    /// Whether `SessionStarted` was emitted.
    pub closed spec fn started_spec(&self) -> bool {
        self.session_started
    }

    /// Whether `SessionFinished` was emitted.
    pub closed spec fn finished_spec(&self) -> bool {
        self.session_finished
    }

    /// The source sessions, in slot order.
    pub closed spec fn active_spec(&self) -> Seq<ActiveSession<SourceId, S, A, E, Progress, Detail>> {
        self.active@
    }

    /// Well-formedness: every protocol state is well formed, and the session
    /// only finished after it started and once every source was terminal.
    pub open spec fn wf(&self) -> bool {
        &&& forall|k: int|
            0 <= k < self.active_spec().len() ==> (#[trigger] self.active_spec()[k]).protocol.wf()
        &&& forall|k: int|
            0 <= k < self.active_spec().len() ==> ((#[trigger] self.active_spec()[k]).protocol.pending_status matches Some(st)
                ==> st.state.is_terminal_spec())
        &&& self.finished_spec() ==> self.started_spec() && self.all_terminal()
    }

    /// Whether every source session is terminal.
    pub open spec fn all_terminal(&self) -> bool {
        forall|k: int|
            0 <= k < self.active_spec().len() ==> (#[trigger] self.active_spec()[k]).protocol.terminal
    }

    /// Session id for this coordinated pass.
    pub fn session_id(&self) -> (r: QuerySessionId)
        ensures
            r == self.session_id_spec(),
    {
        self.session_id
    }

    fn bump_revision(&mut self) -> (r: Revision)
        ensures
            r == Revision::from_raw(old(self).next_revision),
            final(self).next_revision == rev_plus(old(self).next_revision, 1),
            final(self).session_id == old(self).session_id,
            final(self).session_started == old(self).session_started,
            final(self).session_finished == old(self).session_finished,
            final(self).active@ == old(self).active@,
    {
        let revision = Revision::new(self.next_revision);
        self.next_revision = self.next_revision.saturating_add(1);
        revision
    }
}

/// Once one event breaks the protocol, every longer prefix is broken too.
proof fn lemma_broken_stays_broken<S: SubjectRef, A, E, Progress, Detail>(
    start: (bool, bool, Option<Revision>, Seq<KnownResult<S>>, bool),
    caps: SourceCapabilities,
    session_id: QuerySessionId,
    events: Seq<SourceSearchEvent<S, A, E, Progress, Detail>>,
    i: nat,
    n: nat,
)
    requires
        i <= n,
        protocol_after(start, caps, session_id, events, i) is None,
    ensures
        protocol_after(start, caps, session_id, events, n) is None,
    decreases n - i,
{
    if i < n {
        lemma_broken_stays_broken(start, caps, session_id, events, i, (n - 1) as nat);
    }
}

/// The accepted prefix ends where the first event breaks the protocol.
proof fn lemma_accepted_count<S: SubjectRef, A, E, Progress, Detail>(
    start: (bool, bool, Option<Revision>, Seq<KnownResult<S>>, bool),
    caps: SourceCapabilities,
    session_id: QuerySessionId,
    events: Seq<SourceSearchEvent<S, A, E, Progress, Detail>>,
    i: nat,
    n: nat,
)
    requires
        i <= n,
        protocol_after(start, caps, session_id, events, i) is Some,
        forall|k: nat| i < k <= n ==> protocol_after(start, caps, session_id, events, k) is None,
    ensures
        accepted_count(start, caps, session_id, events, n) == i,
    decreases n,
{
    if n > i {
        lemma_accepted_count(start, caps, session_id, events, i, (n - 1) as nat);
    } else if n > 0 {
    }
}

/// Whether the first `n` events end with a terminal status.
pub open spec fn ends_with_terminal_status<S: SubjectRef, A, E, Progress, Detail>(
    events: Seq<SourceSearchEvent<S, A, E, Progress, Detail>>,
    n: int,
) -> bool {
    n > 0 && (events[n - 1] matches SourceSearchEvent::StatusChanged { status, .. } && status.state.is_terminal_spec())
}

/// The shape of what one coordinated poll of one source produces when the
/// coordinator accepted its first `n` events: their coordinated forms in
/// order; then, if an event was refused or the session reported itself
/// terminal without a terminal status, one `Failed` status for the source,
/// which becomes terminal; nothing else.
pub open spec fn source_step_shape_at<SourceId, S: SubjectRef, A, E, Progress, Detail>(
    session_id: QuerySessionId,
    source_slot: SourceSlot,
    source: SourceId,
    stage: RouteStage,
    first_revision: u64,
    events: Seq<SourceSearchEvent<S, A, E, Progress, Detail>>,
    poll_terminal: bool,
    outs: Seq<SearchEvent<SourceId, S, A, E, Progress, Detail>>,
    fin: SourceProtocolState<S, Detail>,
    n: int,
) -> bool {
    &&& 0 <= n <= events.len()
    &&& forall|j: int|
        0 <= j < n ==> translated(
            session_id,
            Revision::from_raw(rev_plus(first_revision, j)),
            source_slot,
            source,
            stage,
            events[j],
            #[trigger] outs[j],
        )
    &&& if n < events.len() || (poll_terminal && !ends_with_terminal_status(events, n)) {
        &&& outs.len() == n + 1
        &&& outs[n] == failed_event::<SourceId, S, A, E, Progress, Detail>(
            session_id,
            rev_plus(first_revision, n),
            source,
            stage,
        )
        &&& fin.terminal
    } else {
        &&& outs.len() == n
        &&& fin.terminal == ends_with_terminal_status(events, n)
    }
}

/// The shape of what one coordinated poll of one source produces, for every
/// subject type: [`source_step_shape_at`] for some number of accepted events.
pub open spec fn source_step_shape<SourceId, S: SubjectRef, A, E, Progress, Detail>(
    session_id: QuerySessionId,
    source_slot: SourceSlot,
    source: SourceId,
    stage: RouteStage,
    first_revision: u64,
    events: Seq<SourceSearchEvent<S, A, E, Progress, Detail>>,
    poll_terminal: bool,
    outs: Seq<SearchEvent<SourceId, S, A, E, Progress, Detail>>,
    fin: SourceProtocolState<S, Detail>,
) -> bool {
    exists|n: int|
        #[trigger] source_step_shape_at(
            session_id,
            source_slot,
            source,
            stage,
            first_revision,
            events,
            poll_terminal,
            outs,
            fin,
            n,
        )
}

/// What one coordinated poll of one source must produce: the coordinated form
/// of every event up to the first that breaks the protocol, then a `Failed`
/// status if an event broke it, or if the session reported itself terminal
/// without a terminal status.
pub open spec fn source_step_ok<SourceId, S: SubjectRef, A, E, Progress, Detail>(
    session_id: QuerySessionId,
    source_slot: SourceSlot,
    source: SourceId,
    stage: RouteStage,
    caps: SourceCapabilities,
    start: (bool, bool, Option<Revision>, Seq<KnownResult<S>>, bool),
    announced_before: bool,
    first_revision: u64,
    events: Seq<SourceSearchEvent<S, A, E, Progress, Detail>>,
    poll_terminal: bool,
    outs: Seq<SearchEvent<SourceId, S, A, E, Progress, Detail>>,
    fin: SourceProtocolState<S, Detail>,
) -> bool {
    let n = accepted_count(start, caps, session_id, events, events.len());
    let p = protocol_after(start, caps, session_id, events, n).unwrap();
    &&& forall|j: int|
        0 <= j < n ==> translated(
            session_id,
            Revision::from_raw(rev_plus(first_revision, j)),
            source_slot,
            source,
            stage,
            events[j],
            #[trigger] outs[j],
        )
    &&& fin.announced_started == (announced_before || (p.0 && !start.0))
    &&& if n < events.len() || (poll_terminal && !p.1) {
        &&& outs.len() == n + 1
        &&& outs[n as int] == failed_event::<SourceId, S, A, E, Progress, Detail>(session_id, rev_plus(first_revision, n as int), source, stage)
        &&& fin.terminal
    } else {
        &&& outs.len() == n
        &&& fin.terminal == p.1
    }
    &&& n == events.len() ==> {
        &&& fin.started == p.0
        &&& fin.last_revision == p.2
        &&& known_match(fin.known_results@, p.3)
        &&& fin.patched == p.4
    }
}

impl<SourceId: Clone, S: SubjectRef, A, E, Progress, Detail> LiveCoordinatorSession<
    SourceId,
    S,
    A,
    E,
    Progress,
    Detail,
> {
    /// Validate and translate the events one source session returned from one
    /// poll, appending the coordinated events to `out`; returns how many.
    ///
    /// A source whose event breaks the protocol, or whose session reports a
    /// terminal poll without having sent a terminal status, is failed.
    pub fn apply_source_events(
        &mut self,
        index: usize,
        events: Vec<SourceSearchEvent<S, A, E, Progress, Detail>>,
        poll_terminal: bool,
        out: &mut SearchEventBuffer<SourceId, S, A, E, Progress, Detail>,
    ) -> (r: usize)
        requires
            old(self).wf(),
            index < old(self).active_spec().len(),
            !old(self).active_spec()[index as int].protocol.terminal,
        ensures
            final(self).wf(),
            final(self).session_id_spec() == old(self).session_id_spec(),
            final(self).started_spec() == old(self).started_spec(),
            final(self).finished_spec() == old(self).finished_spec(),
            final(self).active_spec().len() == old(self).active_spec().len(),
            forall|k: int|
                0 <= k < old(self).active_spec().len() && k != index ==> final(self).active_spec()[k]
                    == old(self).active_spec()[k],
            final(self).active_spec()[index as int].source_slot == old(self).active_spec()[index as int].source_slot,
            final(self).active_spec()[index as int].source == old(self).active_spec()[index as int].source,
            final(self).active_spec()[index as int].stage == old(self).active_spec()[index as int].stage,
            final(self).active_spec()[index as int].capabilities == old(self).active_spec()[index as int].capabilities,
            final(self).active_spec()[index as int].session == old(self).active_spec()[index as int].session,
            final(self).active_spec()[index as int].protocol.pending_status == old(self).active_spec()[index as int].protocol.pending_status,
            final(out)@.len() == old(out)@.len() + r,
            final(out)@.subrange(0, old(out)@.len() as int) == old(out)@,
            stamped(final(out)@.skip(old(out)@.len() as int), old(self).session_id_spec(), old(self).next_revision_spec()),
            source_events_only(final(out)@.skip(old(out)@.len() as int)),
            final(self).next_revision_spec() == rev_plus(old(self).next_revision_spec(), r as int),
            r <= events@.len() + 1,
            clone_faithful::<SourceId>() ==> {
                let a = old(self).active_spec()[index as int];
                source_step_shape(
                    old(self).session_id_spec(),
                    a.source_slot,
                    a.source,
                    a.stage,
                    old(self).next_revision_spec(),
                    events@,
                    poll_terminal,
                    final(out)@.skip(old(out)@.len() as int),
                    final(self).active_spec()[index as int].protocol,
                )
            },
            verdicts_known(events@) && clone_faithful::<SourceId>() ==> {
                let a = old(self).active_spec()[index as int];
                source_step_ok(
                    old(self).session_id_spec(),
                    a.source_slot,
                    a.source,
                    a.stage,
                    a.capabilities,
                    (a.protocol.started, a.protocol.terminal, a.protocol.last_revision, a.protocol.known_results@, a.protocol.patched),
                    a.protocol.announced_started,
                    old(self).next_revision_spec(),
                    events@,
                    poll_terminal,
                    final(out)@.skip(old(out)@.len() as int),
                    final(self).active_spec()[index as int].protocol,
                )
            },
    {
        let start_out = out.len();
        proof {
            assert(!old(self).all_terminal());
        }
        let ghost a0 = self.active@[index as int];
        let ghost p0 = (a0.protocol.started, a0.protocol.terminal, a0.protocol.last_revision, a0.protocol.known_results@, a0.protocol.patched);
        let ghost rev0 = self.next_revision;
        let session_id = self.session_id;
        let capabilities = self.active[index].capabilities;
        let source_slot = self.active[index].source_slot;
        let stage = self.active[index].stage;

        let mut accepted: usize = 0;
        let mut failed = false;
        while accepted < events.len() && !failed
            invariant
                self.wf(),
                index < self.active@.len(),
                accepted <= events@.len(),
                self.active@.len() == old(self).active@.len(),
                self.session_id == session_id,
                session_id == old(self).session_id,
                self.session_started == old(self).session_started,
                self.session_finished == old(self).session_finished,
                !old(self).session_finished,
                self.next_revision == old(self).next_revision,
                *out == *old(out),
                a0 == old(self).active@[index as int],
                capabilities == a0.capabilities,
                forall|k: int| 0 <= k < self.active@.len() && k != index ==> self.active@[k] == old(self).active@[k],
                self.active@[index as int].source_slot == a0.source_slot,
                self.active@[index as int].source == a0.source,
                self.active@[index as int].stage == a0.stage,
                self.active@[index as int].capabilities == a0.capabilities,
                self.active@[index as int].session == a0.session,
                self.active@[index as int].protocol.pending_status == a0.protocol.pending_status,
                p0.0 ==> self.active@[index as int].protocol.started,
                self.active@[index as int].protocol.announced_started == (a0.protocol.announced_started || (self.active@[index as int].protocol.started && !p0.0)),
                p0 == (a0.protocol.started, a0.protocol.terminal, a0.protocol.last_revision, a0.protocol.known_results@, a0.protocol.patched),
                verdicts_known(events@) && failed ==> protocol_after(p0, capabilities, session_id, events@, accepted as nat).unwrap().0 == self.active@[index as int].protocol.started,
                verdicts_known(events@) ==> protocol_after(p0, capabilities, session_id, events@, accepted as nat) is Some,
                verdicts_known(events@) && !failed ==> {
                    let p = protocol_after(p0, capabilities, session_id, events@, accepted as nat).unwrap();
                    let q = self.active@[index as int].protocol;
                    &&& p.0 == q.started
                    &&& p.1 == q.terminal
                    &&& p.2 == q.last_revision
                    &&& known_match(q.known_results@, p.3)
                    &&& p.4 == q.patched
                },
                failed ==> accepted < events@.len(),
                !failed ==> self.active@[index as int].protocol.terminal == ends_with_terminal_status(events@, accepted as int),
                verdicts_known(events@) && failed ==> accepted < events@.len() && protocol_after(p0, capabilities, session_id, events@, (accepted + 1) as nat) is None,
            decreases events@.len() - accepted + (if failed { 0int } else { 1int }),
        {
            let ghost before = self.active@[index as int].protocol;
            let verdict = validate_source_event(
                &mut self.active[index].protocol,
                capabilities,
                session_id,
                &events[accepted],
            );
            proof {
                if verdicts_known(events@) && !subject_laws::<S>() {
                    let p = protocol_after(p0, capabilities, session_id, events@, accepted as nat).unwrap();
                    assert(subject_free(events@[accepted as int]));
                    lemma_validate_spec_same_ids(
                        p.0,
                        p.1,
                        p.2,
                        p.3,
                        before.known_results@,
                        p.4,
                        capabilities,
                        session_id,
                        events@[accepted as int],
                    );
                    let vp = validate_spec(p.0, p.1, p.2, p.3, p.4, capabilities, session_id, events@[accepted as int]);
                    if vp is Some {
                        let after = self.active@[index as int].protocol.known_results@;
                        let vb = validate_spec(p.0, p.1, p.2, before.known_results@, p.4, capabilities, session_id, events@[accepted as int]);
                        assert(same_ids(after, vb.unwrap().3));
                        assert(same_ids(vp.unwrap().3, vb.unwrap().3));
                        assert(same_ids(after, vp.unwrap().3)) by {
                            assert forall|i: int| 0 <= i < after.len() implies (#[trigger] after[i]).id == vp.unwrap().3[i].id by {
                                assert(after[i].id == vb.unwrap().3[i].id);
                                assert(vp.unwrap().3[i].id == vb.unwrap().3[i].id);
                            }
                        }
                    }
                }
            }
            match verdict {
                Ok(()) => {
                    if let SourceSearchEvent::Begin { .. } = &events[accepted] {
                        self.active[index].protocol.announced_started = true;
                    }
                    accepted = accepted + 1;
                },
                Err(()) => {
                    failed = true;
                },
            }
        }
        let ghost n = accepted as nat;
        proof {
            if verdicts_known(events@) {
                if failed {
                    assert forall|k: nat| n < k <= events@.len() implies protocol_after(p0, capabilities, session_id, events@, k) is None by {
                        lemma_broken_stays_broken(p0, capabilities, session_id, events@, n + 1, k);
                    }
                } else {
                    assert(n == events@.len());
                }
                lemma_accepted_count(p0, capabilities, session_id, events@, n, events@.len());
            }
        }

        let ghost source_events = events@;
        let ghost mid = self.active@;
        let ghost mut position: int = 0;
        let mut pushed: usize = 0;
        for event in it: events.into_iter()
            invariant
                it.seq() == source_events,
                position == it.index(),
                pushed == (if position < accepted { position } else { accepted as int }),
                self.active@ == mid,
                self.session_started == old(self).session_started,
                self.session_finished == old(self).session_finished,
                accepted <= source_events.len(),
                index < self.active@.len(),
                self.session_id == session_id,
                session_id == old(self).session_id,
                rev0 == old(self).next_revision,
                self.active@[index as int].source == a0.source,
                self.active@[index as int].stage == stage,
                self.active@[index as int].source_slot == source_slot,
                stage == a0.stage,
                source_slot == a0.source_slot,
                out@.len() == start_out + pushed,
                out@.subrange(0, start_out as int) == old(out)@,
                self.next_revision == rev_plus(rev0, (out@.len() - start_out) as int),
                stamped(out@.skip(start_out as int), session_id, rev0),
                source_events_only(out@.skip(start_out as int)),
                clone_faithful::<SourceId>() ==> forall|j: int|
                    0 <= j < out@.len() - start_out ==> translated(
                        session_id,
                        Revision::from_raw(rev_plus(rev0, j)),
                        source_slot,
                        a0.source,
                        stage,
                        source_events[j],
                        #[trigger] out@[start_out + j],
                    ),
        {
            if pushed < accepted {
                let ghost prev = out@;
                let revision = self.bump_revision();
                let source = self.active[index].source.clone();
                proof {
                    assert(vstd::pervasive::strictly_cloned(a0.source, source));
                    assert(event == source_events[position]);
                }
                let translated_event = translate_event(session_id, revision, source_slot, source, stage, event);
                out.push_event(translated_event);
                proof {
                    assert(out@.skip(start_out as int) =~= prev.skip(start_out as int).push(translated_event));
                    assert(out@.subrange(0, start_out as int) =~= prev.subrange(0, start_out as int));
                }
                pushed = pushed + 1;
            }
            proof {
                position = position + 1;
            }
        }

        let protocol_terminal = self.active[index].protocol.terminal;
        if failed || (poll_terminal && !protocol_terminal) {
            let ghost prev = out@;
            let revision = self.bump_revision();
            let source = self.active[index].source.clone();
            proof {
                assert(vstd::pervasive::strictly_cloned(a0.source, source));
            }
            self.active[index].protocol.terminal = true;
            out.push_event(SearchEvent::StatusChanged {
                session_id,
                revision,
                source,
                stage,
                status: StatusUpdate::new(SourceState::Failed),
            });
            proof {
                assert(out@.skip(start_out as int) =~= prev.skip(start_out as int).push(out@.last()));
                assert(out@.subrange(0, start_out as int) =~= prev.subrange(0, start_out as int));
            }
        }
        proof {
            if verdicts_known(source_events) && clone_faithful::<SourceId>() {
                let outs = out@.skip(start_out as int);
                let n = accepted_count(p0, capabilities, session_id, source_events, source_events.len());
                assert(n == accepted);
                assert forall|j: int| 0 <= j < n implies translated(
                    session_id,
                    Revision::from_raw(rev_plus(rev0, j)),
                    source_slot,
                    a0.source,
                    stage,
                    source_events[j],
                    #[trigger] outs[j],
                ) by {
                    assert(outs[j] == out@[start_out + j]);
                }
            }
            if clone_faithful::<SourceId>() {
                let outs = out@.skip(start_out as int);
                let n = accepted as int;
                assert(ends_with_terminal_status(source_events, n) == ends_with_terminal_status(source_events, n));
                assert forall|j: int| 0 <= j < n implies translated(
                    session_id,
                    Revision::from_raw(rev_plus(rev0, j)),
                    source_slot,
                    a0.source,
                    stage,
                    source_events[j],
                    #[trigger] outs[j],
                ) by {
                    assert(outs[j] == out@[start_out + j]);
                }
                assert(self.active@[index as int].protocol.terminal == (protocol_terminal || failed || poll_terminal));
                if failed || (poll_terminal && !protocol_terminal) {
                    assert(outs[n] == out@[start_out + n]);
                    assert(outs.len() == n + 1);
                    assert(outs[n] == failed_event::<SourceId, S, A, E, Progress, Detail>(
                        session_id,
                        rev_plus(rev0, n),
                        a0.source,
                        stage,
                    ));
                } else {
                    assert(protocol_terminal == ends_with_terminal_status(source_events, n));
                    assert(outs.len() == n);
                }
                assert(source_step_shape_at(
                    session_id,
                    source_slot,
                    a0.source,
                    stage,
                    rev0,
                    source_events,
                    poll_terminal,
                    outs,
                    self.active@[index as int].protocol,
                    n,
                ));
                assert(source_step_shape(
                    session_id,
                    source_slot,
                    a0.source,
                    stage,
                    rev0,
                    source_events,
                    poll_terminal,
                    outs,
                    self.active@[index as int].protocol,
                ));
            }
        }
        out.len() - start_out
    }
}

/// What emitting a held status for one source produces: the source is
/// announced first if it never was, then its held status is emitted; the
/// source records the status and nothing else changes.
pub open spec fn pending_step_ok<SourceId: Clone, S: SubjectRef, A, E, Progress, Detail>(
    session_id: QuerySessionId,
    first_revision: u64,
    a: ActiveSession<SourceId, S, A, E, Progress, Detail>,
    outs: Seq<SearchEvent<SourceId, S, A, E, Progress, Detail>>,
    f: ActiveSession<SourceId, S, A, E, Progress, Detail>,
) -> bool {
    let status = a.protocol.pending_status.unwrap();
    let n = if a.protocol.announced_started { 1int } else { 2int };
    &&& f.source_slot == a.source_slot
    &&& f.source == a.source
    &&& f.stage == a.stage
    &&& f.capabilities == a.capabilities
    &&& f.session == a.session
    &&& f.protocol.started == a.protocol.started
    &&& f.protocol.last_revision == a.protocol.last_revision
    &&& f.protocol.known_results@ == a.protocol.known_results@
    &&& f.protocol.announced_started
    &&& f.protocol.pending_status is None
    &&& f.protocol.terminal == status.state.is_terminal_spec()
    &&& outs.len() == n
    &&& clone_faithful::<SourceId>() && !a.protocol.announced_started ==> outs[0]
        == SearchEvent::<SourceId, S, A, E, Progress, Detail>::SourceStarted {
        session_id,
        revision: Revision::from_raw(first_revision),
        source: a.source,
        stage: a.stage,
        capabilities: a.capabilities,
    }
    &&& clone_faithful::<SourceId>() ==> outs[n - 1]
        == SearchEvent::<SourceId, S, A, E, Progress, Detail>::StatusChanged {
        session_id,
        revision: Revision::from_raw(rev_plus(first_revision, n - 1)),
        source: a.source,
        stage: a.stage,
        status,
    }
}

impl<SourceId: Clone, S: SubjectRef, A, E, Progress, Detail> LiveCoordinatorSession<
    SourceId,
    S,
    A,
    E,
    Progress,
    Detail,
> {
    /// Emit the status the coordinator holds for one source (after a
    /// cancellation), announcing the source first if it never started.
    pub fn emit_pending_status(
        &mut self,
        index: usize,
        out: &mut SearchEventBuffer<SourceId, S, A, E, Progress, Detail>,
    ) -> (r: usize)
        requires
            old(self).wf(),
            index < old(self).active_spec().len(),
            !old(self).active_spec()[index as int].protocol.terminal,
            old(self).active_spec()[index as int].protocol.pending_status is Some,
        ensures
            final(self).wf(),
            final(self).session_id_spec() == old(self).session_id_spec(),
            final(self).started_spec() == old(self).started_spec(),
            final(self).finished_spec() == old(self).finished_spec(),
            final(self).active_spec().len() == old(self).active_spec().len(),
            forall|k: int|
                0 <= k < old(self).active_spec().len() && k != index ==> final(self).active_spec()[k]
                    == old(self).active_spec()[k],
            pending_step_ok(
                old(self).session_id_spec(),
                old(self).next_revision_spec(),
                old(self).active_spec()[index as int],
                final(out)@.skip(old(out)@.len() as int),
                final(self).active_spec()[index as int],
            ),
            final(out)@.len() == old(out)@.len() + r,
            final(out)@.subrange(0, old(out)@.len() as int) == old(out)@,
            stamped(final(out)@.skip(old(out)@.len() as int), old(self).session_id_spec(), old(self).next_revision_spec()),
            source_events_only(final(out)@.skip(old(out)@.len() as int)),
            final(self).next_revision_spec() == rev_plus(old(self).next_revision_spec(), r as int),
    {
        let start_out = out.len();
        proof {
            assert(!old(self).all_terminal());
        }
        let ghost a0 = self.active@[index as int];
        let session_id = self.session_id;
        let stage = self.active[index].stage;
        let mut pending = None;
        std::mem::swap(&mut pending, &mut self.active[index].protocol.pending_status);
        let status = match pending {
            Some(status) => status,
            None => {
                proof {
                    assert(false);
                }
                StatusUpdate::new(SourceState::Failed)
            },
        };
        if !self.active[index].protocol.announced_started {
            let revision = self.bump_revision();
            self.active[index].protocol.announced_started = true;
            let source = self.active[index].source.clone();
            let capabilities = self.active[index].capabilities;
            proof {
                assert(vstd::pervasive::strictly_cloned(a0.source, source));
            }
            out.push_event(SearchEvent::SourceStarted { session_id, revision, source, stage, capabilities });
        }
        let revision = self.bump_revision();
        if status.state.is_terminal() {
            self.active[index].protocol.terminal = true;
        }
        let source = self.active[index].source.clone();
        proof {
            assert(vstd::pervasive::strictly_cloned(a0.source, source));
        }
        out.push_event(SearchEvent::StatusChanged { session_id, revision, source, stage, status });
        proof {
            let outs = out@.skip(start_out as int);
            assert forall|j: int| 0 <= j < outs.len() implies {
                &&& (#[trigger] outs[j]).session_id_spec() == session_id
                &&& outs[j].revision_spec() == Some(Revision::from_raw(rev_plus(old(self).next_revision, j)))
            } by {
                assert(outs[j] == out@[start_out + j]);
            }
            assert forall|j: int| 0 <= j < outs.len() implies !((#[trigger] outs[j]) is SessionStarted) && !(outs[j] is SessionFinished) by {
                assert(outs[j] == out@[start_out + j]);
            }
            assert(out@.subrange(0, start_out as int) =~= old(out)@);
        }
        out.len() - start_out
    }
}

/// The status a cancellation leaves for a source: `Canceled` for sources that
/// cooperate with cancellation, `Stale` for the others.
pub open spec fn cancel_status<Detail>(caps: SourceCapabilities) -> StatusUpdate<Detail> {
    StatusUpdate {
        state: if caps.can_cancel { SourceState::Canceled } else { SourceState::Stale },
        detail: None,
    }
}

impl<SourceId: Clone, S: SubjectRef, A, E, Progress, Detail> LiveCoordinatorSession<
    SourceId,
    S,
    A,
    E,
    Progress,
    Detail,
> {
    /// Cancel every still-running source session.
    ///
    /// Sources that cooperate with cancellation are asked to cancel and will
    /// be reported `Canceled`; the others will be reported `Stale`. Sources
    /// that are terminal or already have a pending status are left alone.
    pub fn cancel(&mut self)
        requires
            old(self).wf(),
        ensures
            final(self).wf(),
            final(self).session_id_spec() == old(self).session_id_spec(),
            final(self).next_revision_spec() == old(self).next_revision_spec(),
            final(self).started_spec() == old(self).started_spec(),
            final(self).finished_spec() == old(self).finished_spec(),
            final(self).active_spec().len() == old(self).active_spec().len(),
            forall|k: int|
                0 <= k < old(self).active_spec().len() ==> {
                    let a = #[trigger] old(self).active_spec()[k];
                    let f = final(self).active_spec()[k];
                    &&& f.source_slot == a.source_slot
                    &&& f.source == a.source
                    &&& f.stage == a.stage
                    &&& f.capabilities == a.capabilities
                    &&& f.protocol.started == a.protocol.started
                    &&& f.protocol.announced_started == a.protocol.announced_started
                    &&& f.protocol.terminal == a.protocol.terminal
                    &&& f.protocol.last_revision == a.protocol.last_revision
                    &&& f.protocol.known_results@ == a.protocol.known_results@
                    &&& if !a.protocol.terminal && a.protocol.pending_status is None {
                        f.protocol.pending_status == Some(cancel_status::<Detail>(a.capabilities))
                    } else {
                        f.protocol.pending_status == a.protocol.pending_status && f.session == a.session
                    }
                    &&& !a.capabilities.can_cancel ==> f.session == a.session
                    &&& a.capabilities.can_cancel && !a.protocol.terminal && a.protocol.pending_status is None ==> {
                        &&& f.session.cancels() == a.session.cancels() + 1
                        &&& f.session.polls() == a.session.polls()
                        &&& a.session.lifted() is Some ==> f.session.lifted() == lifted_cancel(
                            a.session.lifted().unwrap(),
                        )
                    }
                },
            forall|k: int|
                0 <= k < final(self).active_spec().len() ==> (#[trigger] final(self).active_spec()[k]).protocol.terminal
                    || final(self).active_spec()[k].protocol.pending_status is Some,
    {
        let mut index: usize = 0;
        while index < self.active.len()
            invariant
                index <= self.active@.len(),
                self.active@.len() == old(self).active@.len(),
                self.session_id == old(self).session_id,
                self.next_revision == old(self).next_revision,
                self.session_started == old(self).session_started,
                self.session_finished == old(self).session_finished,
                forall|k: int| index <= k < self.active@.len() ==> self.active@[k] == old(self).active@[k],
                forall|k: int|
                    0 <= k < index ==> {
                        let a = #[trigger] old(self).active@[k];
                        let f = self.active@[k];
                        &&& f.source_slot == a.source_slot
                        &&& f.source == a.source
                        &&& f.stage == a.stage
                        &&& f.capabilities == a.capabilities
                        &&& f.protocol.started == a.protocol.started
                        &&& f.protocol.announced_started == a.protocol.announced_started
                        &&& f.protocol.terminal == a.protocol.terminal
                        &&& f.protocol.last_revision == a.protocol.last_revision
                        &&& f.protocol.known_results@ == a.protocol.known_results@
                        &&& if !a.protocol.terminal && a.protocol.pending_status is None {
                            f.protocol.pending_status == Some(cancel_status::<Detail>(a.capabilities))
                        } else {
                            f.protocol.pending_status == a.protocol.pending_status && f.session == a.session
                        }
                        &&& !a.capabilities.can_cancel ==> f.session == a.session
                        &&& a.capabilities.can_cancel && !a.protocol.terminal && a.protocol.pending_status is None ==> {
                            &&& f.session.cancels() == a.session.cancels() + 1
                            &&& f.session.polls() == a.session.polls()
                            &&& a.session.lifted() is Some ==> f.session.lifted() == lifted_cancel(
                                a.session.lifted().unwrap(),
                            )
                        }
                    },
            decreases old(self).active@.len() - index,
        {
            if !self.active[index].protocol.terminal && self.active[index].protocol.pending_status.is_none() {
                if self.active[index].capabilities.can_cancel {
                    self.active[index].session.cancel();
                    self.active[index].protocol.pending_status = Some(StatusUpdate::new(SourceState::Canceled));
                } else {
                    self.active[index].protocol.pending_status = Some(StatusUpdate::new(SourceState::Stale));
                }
            }
            index = index + 1;
        }
        proof {
            assert forall|k: int| 0 <= k < self.active@.len() implies (#[trigger] self.active@[k]).protocol.wf() by {
                assert(old(self).active@[k].protocol.wf());
            }
            assert forall|k: int| 0 <= k < self.active@.len() implies ((#[trigger] self.active@[k]).protocol.pending_status matches Some(st)
                ==> st.state.is_terminal_spec()) by {
                assert(old(self).active@[k].protocol.pending_status matches Some(st) ==> st.state.is_terminal_spec());
            }
            assert forall|k: int| 0 <= k < self.active@.len() implies (#[trigger] self.active@[k]).protocol.terminal
                || self.active@[k].protocol.pending_status is Some by {
                let a = old(self).active@[k];
                let f = self.active@[k];
                assert(f.protocol.terminal == a.protocol.terminal);
                if !a.protocol.terminal && a.protocol.pending_status is None {
                    assert(f.protocol.pending_status == Some(cancel_status::<Detail>(a.capabilities)));
                } else {
                    assert(f.protocol.pending_status == a.protocol.pending_status);
                }
            }
            if self.session_finished {
                assert forall|k: int| 0 <= k < self.active@.len() implies (#[trigger] self.active@[k]).protocol.terminal by {
                    assert(old(self).active@[k].protocol.terminal);
                }
            }
        }
    }

    /// Poll every live source once, in slot order, and append the coordinated
    /// events to `out`.
    ///
    /// The first poll opens with `SessionStarted`. Terminal sources are not
    /// polled. A source with a pending status (after cancellation) has that
    /// status emitted instead of being polled. Every other source is polled
    /// and its events are validated and translated. Once every source is
    /// terminal, `SessionFinished` closes the stream, once.
    #[verifier::rlimit(50)]
    pub fn poll_events_into(
        &mut self,
        out: &mut SearchEventBuffer<SourceId, S, A, E, Progress, Detail>,
    ) -> (r: PollOutcome)
        requires
            old(self).wf(),
        ensures
            final(self).wf(),
            final(self).session_id_spec() == old(self).session_id_spec(),
            final(self).started_spec(),
            final(self).active_spec().len() == old(self).active_spec().len(),
            forall|k: int|
                0 <= k < old(self).active_spec().len() && (#[trigger] old(self).active_spec()[k]).protocol.terminal
                    ==> final(self).active_spec()[k] == old(self).active_spec()[k],
            forall|k: int|
                0 <= k < old(self).active_spec().len() ==> {
                    let a = #[trigger] old(self).active_spec()[k];
                    let f = final(self).active_spec()[k];
                    &&& f.source_slot == a.source_slot
                    &&& f.source == a.source
                    &&& f.stage == a.stage
                    &&& f.capabilities == a.capabilities
                },
            forall|k: int|
                0 <= k < old(self).active_spec().len() && (#[trigger] old(self).active_spec()[k]).protocol.pending_status is Some
                    ==> final(self).active_spec()[k].protocol.terminal,
            r.terminal == final(self).all_terminal(),
            old(self).started_spec() ==> forall|j: int|
                old(out)@.len() <= j < final(out)@.len() ==> !((#[trigger] final(out)@[j]) is SessionStarted),
            old(self).finished_spec() ==> r.terminal && final(out)@ == old(out)@ && final(self).active_spec()
                == old(self).active_spec(),
            (forall|k: int|
                0 <= k < old(self).active_spec().len() ==> (#[trigger] old(self).active_spec()[k]).protocol.terminal
                    || old(self).active_spec()[k].protocol.pending_status is Some) ==> r.terminal,
            final(self).finished_spec() == (old(self).finished_spec() || r.terminal),
            r.emitted_events as int == (if final(out)@.len() - old(out)@.len() <= u32::MAX {
                final(out)@.len() - old(out)@.len()
            } else {
                u32::MAX as int
            }),
            final(out)@.subrange(0, old(out)@.len() as int) == old(out)@,
            !old(self).started_spec() ==> final(out)@[old(out)@.len() as int]
                == (SearchEvent::<SourceId, S, A, E, Progress, Detail>::SessionStarted {
                session_id: old(self).session_id_spec(),
            }),
            ({
                let base = old(out)@.len() + (if old(self).started_spec() { 0int } else { 1int });
                let rest = final(out)@.skip(base);
                &&& base <= final(out)@.len()
                &&& stamped(rest, old(self).session_id_spec(), old(self).next_revision_spec())
                &&& final(self).next_revision_spec() == rev_plus(old(self).next_revision_spec(), rest.len() as int)
                &&& if r.terminal && !old(self).finished_spec() {
                    &&& rest.len() >= 1
                    &&& rest.last() is SessionFinished
                    &&& source_events_only(rest.drop_last())
                } else {
                    source_events_only(rest)
                }
            }),
            exists|parts: Seq<Seq<SearchEvent<SourceId, S, A, E, Progress, Detail>>>|
                #![trigger flatten_parts(parts)]
                {
                    let base = old(out)@.len() + (if old(self).started_spec() { 0int } else { 1int });
                    let rest = final(out)@.skip(base);
                    let body = if r.terminal && !old(self).finished_spec() {
                        rest.drop_last()
                    } else {
                        rest
                    };
                    &&& parts.len() == old(self).active_spec().len()
                    &&& body == flatten_parts(parts)
                    &&& forall|k: int|
                        0 <= k < parts.len() ==> poll_part_ok(
                            old(self).session_id_spec(),
                            rev_plus(old(self).next_revision_spec(), flatten_parts(parts.take(k)).len() as int),
                            old(self).active_spec()[k],
                            #[trigger] parts[k],
                            final(self).active_spec()[k],
                        )
                },
    {
        let start_out = out.len();
        let session_id = self.session_id;
        if !self.session_started {
            out.push_event(SearchEvent::SessionStarted { session_id });
            self.session_started = true;
        }
        let base = out.len();
        let ghost rev0 = self.next_revision;
        let ghost mut parts: Seq<Seq<SearchEvent<SourceId, S, A, E, Progress, Detail>>> = Seq::empty();

        let mut index: usize = 0;
        while index < self.active.len()
            invariant
                parts.len() == index,
                out@.skip(base as int) == flatten_parts(parts),
                forall|k: int|
                    0 <= k < index ==> poll_part_ok(
                        session_id,
                        rev_plus(rev0, flatten_parts(parts.take(k)).len() as int),
                        old(self).active@[k],
                        #[trigger] parts[k],
                        self.active@[k],
                    ),
                index <= self.active@.len(),
                self.active@.len() == old(self).active@.len(),
                forall|k: int| 0 <= k < self.active@.len() ==> (#[trigger] self.active@[k]).protocol.wf(),
                self.session_id == session_id,
                session_id == old(self).session_id,
                self.session_started,
                self.session_finished == old(self).session_finished,
                old(self).session_finished ==> old(self).all_terminal(),
                rev0 == old(self).next_revision,
                start_out == old(out)@.len(),
                base == start_out + (if old(self).session_started { 0int } else { 1int }),
                base <= out@.len(),
                out@.subrange(0, start_out as int) == old(out)@,
                !old(self).session_started ==> out@[start_out as int] == (SearchEvent::<SourceId, S, A, E, Progress, Detail>::SessionStarted {
                    session_id,
                }),
                stamped(out@.skip(base as int), session_id, rev0),
                source_events_only(out@.skip(base as int)),
                self.next_revision == rev_plus(rev0, out@.len() - base),
                forall|k: int|
                    index <= k < self.active@.len() ==> self.active@[k] == old(self).active@[k],
                forall|k: int|
                    0 <= k < self.active@.len() && (#[trigger] old(self).active@[k]).protocol.terminal
                        ==> self.active@[k] == old(self).active@[k],
                forall|k: int|
                    0 <= k < self.active@.len() ==> {
                        let a = #[trigger] old(self).active@[k];
                        let f = self.active@[k];
                        &&& f.source_slot == a.source_slot
                        &&& f.source == a.source
                        &&& f.stage == a.stage
                        &&& f.capabilities == a.capabilities
                    },
                forall|k: int|
                    0 <= k < self.active@.len() ==> ((#[trigger] self.active@[k]).protocol.pending_status matches Some(st)
                        ==> st.state.is_terminal_spec()),
                forall|k: int|
                    0 <= k < index && (#[trigger] old(self).active@[k]).protocol.pending_status is Some
                        ==> self.active@[k].protocol.terminal,
            decreases old(self).active@.len() - index,
        {
            let ghost parts_before = parts;
            if !self.active[index].protocol.terminal {
                let ghost prev = out@;
                let ghost prev_self = *self;
                if self.active[index].protocol.pending_status.is_some() {
                    proof {
                        assert(!self.session_finished);
                    }
                    self.emit_pending_status(index, out);
                } else {
                    let mut buffer = SourceEventBuffer::new();
                    let poll = self.active[index].session.poll_events_into(&mut buffer);
                    let ghost polled_session = self.active@[index as int].session;
                    let events = buffer.take();
                    proof {
                        assert(polled_session.polls().last().0 =~= events@);
                        assert(polled_session.polls().last().1 == poll);
                        assert(polled_session.polls().drop_last() =~= old(self).active@[index as int].session.polls());
                    }
                    proof {
                        assert(!self.session_finished);
                    }
                    self.apply_source_events(index, events, poll.terminal, out);
                    proof {
                        let a = old(self).active@[index as int];
                        if verdicts_known(events@) && clone_faithful::<SourceId>() {
                            assert(source_step_ok(
                                session_id,
                                a.source_slot,
                                a.source,
                                a.stage,
                                a.capabilities,
                                (a.protocol.started, a.protocol.terminal, a.protocol.last_revision, a.protocol.known_results@, a.protocol.patched),
                                a.protocol.announced_started,
                                prev_self.next_revision,
                                events@,
                                poll.terminal,
                                out@.skip(prev.len() as int),
                                self.active@[index as int].protocol,
                            ));
                        }
                        assert(self.active@[index as int].session == polled_session);
                        assert(poll_part_ok(
                            session_id,
                            prev_self.next_revision,
                            a,
                            out@.skip(prev.len() as int),
                            self.active@[index as int],
                        ));
                    }
                }
                proof {
                    parts = parts.push(out@.skip(prev.len() as int));
                    lemma_flatten_parts_push(parts_before, out@.skip(prev.len() as int));
                    let added = out@.skip(prev.len() as int);
                    assert(out@.skip(base as int) =~= prev.skip(base as int) + added);
                    lemma_stamped_append(prev.skip(base as int), added, session_id, rev0);
                    assert forall|j: int| 0 <= j < out@.skip(base as int).len() implies !((#[trigger] out@.skip(base as int)[j]) is SessionStarted) && !(out@.skip(base as int)[j] is SessionFinished) by {
                        if j < prev.skip(base as int).len() {
                            assert(out@.skip(base as int)[j] == prev.skip(base as int)[j]);
                        } else {
                            assert(out@.skip(base as int)[j] == added[j - prev.skip(base as int).len()]);
                        }
                    }
                    assert(out@.subrange(0, start_out as int) =~= prev.subrange(0, start_out as int));
                    if !old(self).session_started {
                        assert(out@[start_out as int] == prev[start_out as int]);
                    }
                    assert(rev_plus(rev_plus(rev0, prev.len() - base), added.len() as int) == rev_plus(rev0, out@.len() - base));
                }
            } else {
                proof {
                    parts = parts.push(Seq::empty());
                    lemma_flatten_parts_push(parts_before, Seq::<SearchEvent<SourceId, S, A, E, Progress, Detail>>::empty());
                    assert(out@.skip(base as int) =~= flatten_parts(parts));
                }
            }
            proof {
                assert forall|k: int| 0 <= k <= index implies poll_part_ok(
                    session_id,
                    rev_plus(rev0, flatten_parts(parts.take(k)).len() as int),
                    old(self).active@[k],
                    #[trigger] parts[k],
                    self.active@[k],
                ) by {
                    if k < index {
                        assert(parts.take(k) =~= parts_before.take(k));
                        assert(parts[k] == parts_before[k]);
                    } else {
                        assert(parts.take(k) =~= parts_before);
                    }
                }
            }
            index = index + 1;
        }

        let mut terminal = true;
        let mut k: usize = 0;
        while k < self.active.len()
            invariant
                k <= self.active@.len(),
                terminal == forall|j: int| 0 <= j < k ==> (#[trigger] self.active@[j]).protocol.terminal,
            decreases self.active@.len() - k,
        {
            if !self.active[k].protocol.terminal {
                terminal = false;
            }
            k = k + 1;
        }

        if terminal && !self.session_finished {
            let ghost prev = out@;
            let revision = self.bump_revision();
            out.push_event(SearchEvent::SessionFinished { session_id, revision });
            self.session_finished = true;
            proof {
                assert(out@.skip(base as int).drop_last() =~= prev.skip(base as int));
                assert(out@.skip(base as int) =~= prev.skip(base as int).push(out@.last()));
                lemma_stamped_append(prev.skip(base as int), seq![out@.last()], session_id, rev0);
                assert(out@.subrange(0, start_out as int) =~= prev.subrange(0, start_out as int));
                if !old(self).session_started {
                    assert(out@[start_out as int] == prev[start_out as int]);
                }
            }
        }
        proof {
            if old(self).session_finished {
                assert forall|j: int| 0 <= j < self.active@.len() implies (#[trigger] self.active@[j]).protocol.terminal by {
                    assert(old(self).active@[j].protocol.terminal);
                }
                assert forall|k: int| 0 <= k < parts.len() implies (#[trigger] parts[k]).len() == 0 by {
                    assert(old(self).active@[k].protocol.terminal);
                    assert(poll_part_ok(
                        session_id,
                        rev_plus(rev0, flatten_parts(parts.take(k)).len() as int),
                        old(self).active@[k],
                        parts[k],
                        self.active@[k],
                    ));
                }
                lemma_flatten_parts_empty(parts);
                assert(out@ =~= old(out)@) by {
                    assert(out@.subrange(0, start_out as int) == old(out)@);
                }
                assert(self.active@ =~= old(self).active@) by {
                    assert forall|j: int| 0 <= j < self.active@.len() implies self.active@[j] == old(self).active@[j] by {
                        assert(old(self).active@[j].protocol.terminal);
                    }
                }
            }
            if old(self).session_started {
                assert forall|j: int| start_out <= j < out@.len() implies !((#[trigger] out@[j]) is SessionStarted) by {
                    assert(out@[j] == out@.skip(base as int)[j - base]);
                    if terminal && !old(self).session_finished && j < out@.len() - 1 {
                        assert(out@.skip(base as int)[j - base] == out@.skip(base as int).drop_last()[j - base]);
                    }
                }
            }
            if forall|j: int|
                0 <= j < old(self).active@.len() ==> (#[trigger] old(self).active@[j]).protocol.terminal
                    || old(self).active@[j].protocol.pending_status is Some {
                assert forall|j: int| 0 <= j < self.active@.len() implies (#[trigger] self.active@[j]).protocol.terminal by {
                    assert(old(self).active@[j].protocol.terminal || old(self).active@[j].protocol.pending_status is Some);
                }
            }
        }

        let grown = out.len() - start_out;
        let emitted: usize = if grown <= 4294967295usize { grown } else { 4294967295usize };
        PollOutcome::with_event_count(emitted, terminal)
    }
}

/// The concatenation of `parts`, in order.
pub open spec fn flatten_parts<T>(parts: Seq<Seq<T>>) -> Seq<T>
    decreases parts.len(),
{
    if parts.len() == 0 {
        Seq::empty()
    } else {
        flatten_parts(parts.drop_last()) + parts.last()
    }
}

/// Parts that are all empty concatenate to nothing.
pub proof fn lemma_flatten_parts_empty<T>(parts: Seq<Seq<T>>)
    requires
        forall|k: int| 0 <= k < parts.len() ==> (#[trigger] parts[k]).len() == 0,
    ensures
        flatten_parts(parts).len() == 0,
    decreases parts.len(),
{
    if parts.len() > 0 {
        lemma_flatten_parts_empty(parts.drop_last());
    }
}

/// Saturating revision arithmetic adds up.
proof fn lemma_rev_plus_add(r: u64, a: int, b: int)
    requires
        a >= 0,
        b >= 0,
    ensures
        rev_plus(rev_plus(r, a), b) == rev_plus(r, a + b),
{
}

/// The events of any number of consecutive polls of one coordinated session
/// (each poll's events after its opening `SessionStarted`, if any) carry the
/// session id and revisions that count on without gap or reuse: when each
/// poll's events count up from where the previous poll stopped, all of them
/// together count up from the first poll's start.
pub proof fn law_polls_keep_revisions_consecutive<SourceId, S: SubjectRef, A, E, Progress, Detail>(
    polls: Seq<Seq<SearchEvent<SourceId, S, A, E, Progress, Detail>>>,
    revisions: Seq<u64>,
    session_id: QuerySessionId,
)
    requires
        revisions.len() == polls.len() + 1,
        forall|i: int| 0 <= i < polls.len() ==> stamped(#[trigger] polls[i], session_id, revisions[i]),
        forall|i: int|
            0 <= i < polls.len() ==> revisions[i + 1] == rev_plus(revisions[i], (#[trigger] polls[i]).len() as int),
    ensures
        stamped(flatten_parts(polls), session_id, revisions[0]),
        revisions.last() == rev_plus(revisions[0], flatten_parts(polls).len() as int),
    decreases polls.len(),
{
    if polls.len() == 0 {
        assert(flatten_parts(polls).len() == 0);
    } else {
        let prefix = polls.drop_last();
        let last = polls.last();
        let n = polls.len() - 1;
        assert forall|i: int| 0 <= i < prefix.len() implies stamped(#[trigger] prefix[i], session_id, revisions.drop_last()[i]) by {
            assert(prefix[i] == polls[i]);
        }
        assert forall|i: int| 0 <= i < prefix.len() implies revisions.drop_last()[i + 1] == rev_plus(
            revisions.drop_last()[i],
            (#[trigger] prefix[i]).len() as int,
        ) by {
            assert(prefix[i] == polls[i]);
        }
        law_polls_keep_revisions_consecutive(prefix, revisions.drop_last(), session_id);
        assert(polls[n] == last);
        assert(stamped(last, session_id, revisions[n]));
        lemma_stamped_append(flatten_parts(prefix), last, session_id, revisions[0]);
        lemma_rev_plus_add(revisions[0], flatten_parts(prefix).len() as int, last.len() as int);
    }
}

/// What one poll's events look like after its opening `SessionStarted`, if
/// any: source events only, or, for the poll that finishes the session,
/// source events followed by `SessionFinished`.
pub open spec fn poll_body<SourceId, S: SubjectRef, A, E, Progress, Detail>(
    events: Seq<SearchEvent<SourceId, S, A, E, Progress, Detail>>,
    finishes: bool,
) -> bool {
    if finishes {
        &&& events.len() >= 1
        &&& events.last() is SessionFinished
        &&& source_events_only(events.drop_last())
    } else {
        source_events_only(events)
    }
}

/// Over any number of consecutive polls of one coordinated session, the
/// session opens once and closes at most once: when the first poll starts
/// with `SessionStarted`, every poll's remaining events are source events
/// (followed by `SessionFinished` in the poll that finishes the session),
/// and polls after that one emit nothing, then `SessionStarted` stands only
/// at the front of the whole stream and `SessionFinished` only at its end.
pub proof fn law_session_opens_once_and_closes_last<SourceId, S: SubjectRef, A, E, Progress, Detail>(
    session_id: QuerySessionId,
    polls: Seq<Seq<SearchEvent<SourceId, S, A, E, Progress, Detail>>>,
    finishes: Seq<bool>,
)
    requires
        polls.len() >= 1,
        finishes.len() == polls.len(),
        polls[0].len() >= 1,
        polls[0][0] == (SearchEvent::<SourceId, S, A, E, Progress, Detail>::SessionStarted { session_id }),
        poll_body(polls[0].skip(1), finishes[0]),
        forall|i: int| 1 <= i < polls.len() ==> poll_body(#[trigger] polls[i], finishes[i]),
        forall|i: int, j: int| 0 <= i < j < polls.len() && #[trigger] finishes[i] ==> (#[trigger] polls[j]).len() == 0,
    ensures
        forall|k: int|
            0 <= k < flatten_parts(polls).len() ==> ((#[trigger] flatten_parts(polls)[k]) is SessionStarted <==> k == 0),
        forall|k: int|
            0 <= k < flatten_parts(polls).len() && (#[trigger] flatten_parts(polls)[k]) is SessionFinished ==> k
                == flatten_parts(polls).len() - 1,
        (forall|i: int| 0 <= i < polls.len() ==> !(#[trigger] finishes[i])) ==> forall|k: int|
            0 <= k < flatten_parts(polls).len() ==> !((#[trigger] flatten_parts(polls)[k]) is SessionFinished),
    decreases polls.len(),
{
    let all = flatten_parts(polls);
    if polls.len() == 1 {
        assert(polls.drop_last().len() == 0);
        assert(flatten_parts(polls.drop_last()).len() == 0);
        assert(all =~= polls[0]);
        let first = polls[0];
        assert forall|k: int| 0 <= k < all.len() implies ((#[trigger] all[k]) is SessionStarted <==> k == 0) && (all[k]
            is SessionFinished ==> (k == all.len() - 1 && finishes[0])) by {
            assert(all[k] == first[k]);
            if k >= 1 {
                assert(first.skip(1)[k - 1] == first[k]);
                if finishes[0] && k < all.len() - 1 {
                    assert(first.skip(1).drop_last()[k - 1] == first[k]);
                }
            }
        }
    } else {
        let prefix = polls.drop_last();
        let last = polls.last();
        let n = polls.len() - 1;
        let pf = finishes.drop_last();
        assert(prefix[0] == polls[0]);
        assert forall|i: int| 1 <= i < prefix.len() implies poll_body(#[trigger] prefix[i], pf[i]) by {
            assert(prefix[i] == polls[i]);
        }
        assert forall|i: int, j: int| 0 <= i < j < prefix.len() && #[trigger] pf[i] implies (#[trigger] prefix[j]).len()
            == 0 by {
            assert(prefix[j] == polls[j]);
        }
        law_session_opens_once_and_closes_last(session_id, prefix, pf);
        let head = flatten_parts(prefix);
        assert(all == head + last);
        assert(polls[n] == last);
        assert(poll_body(last, finishes[n]));
        if last.len() > 0 {
            assert forall|i: int| 0 <= i < pf.len() implies !(#[trigger] pf[i]) by {
                if finishes[i] {
                    assert(polls[n].len() == 0);
                }
            }
        }
        assert forall|k: int| 0 <= k < all.len() implies ((#[trigger] all[k]) is SessionStarted <==> k == 0) && (all[k]
            is SessionFinished ==> (k == all.len() - 1 && (exists|i: int| 0 <= i < finishes.len() && #[trigger] finishes[i]))) by {
            lemma_flatten_parts_len_first(prefix);
            if k < head.len() {
                assert(all[k] == head[k]);
                if head[k] is SessionFinished {
                    if forall|i: int| 0 <= i < pf.len() ==> !(#[trigger] pf[i]) {
                        assert(!(head[k] is SessionFinished));
                    }
                    let i = choose|i: int| 0 <= i < pf.len() && #[trigger] pf[i];
                    assert(finishes[i]);
                    assert(polls[n].len() == 0);
                }
            } else {
                let m = k - head.len();
                assert(all[k] == last[m]);
                if finishes[n] {
                    if m < last.len() - 1 {
                        assert(last.drop_last()[m] == last[m]);
                    } else {
                        assert(last[m] == last.last());
                    }
                } else {
                    assert(source_events_only(last));
                }
            }
        }
    }
}

/// The concatenation of parts is at least as long as the first part.
proof fn lemma_flatten_parts_len_first<T>(parts: Seq<Seq<T>>)
    requires
        parts.len() >= 1,
    ensures
        flatten_parts(parts).len() >= parts[0].len(),
    decreases parts.len(),
{
    if parts.len() > 1 {
        lemma_flatten_parts_len_first(parts.drop_last());
        assert(parts.drop_last()[0] == parts[0]);
    } else {
        assert(parts.drop_last().len() == 0);
        assert(flatten_parts(parts.drop_last()).len() == 0);
    }
}

/// Appending one part appends its events.
pub proof fn lemma_flatten_parts_push<T>(parts: Seq<Seq<T>>, part: Seq<T>)
    ensures
        flatten_parts(parts.push(part)) == flatten_parts(parts) + part,
{
    assert(parts.push(part).drop_last() =~= parts);
}

/// What one coordinated poll produces for one source, whose state goes from
/// `a` to `f`: nothing for a terminal source; the held status for a source
/// with a pending status; otherwise its session is polled once and the events
/// that poll appended are validated and translated.
pub open spec fn poll_part_ok<SourceId: Clone, S: SubjectRef, A, E, Progress, Detail>(
    session_id: QuerySessionId,
    first_revision: u64,
    a: ActiveSession<SourceId, S, A, E, Progress, Detail>,
    outs: Seq<SearchEvent<SourceId, S, A, E, Progress, Detail>>,
    f: ActiveSession<SourceId, S, A, E, Progress, Detail>,
) -> bool {
    if a.protocol.terminal {
        &&& outs.len() == 0
        &&& f == a
    } else if a.protocol.pending_status is Some {
        pending_step_ok(session_id, first_revision, a, outs, f)
    } else {
        let polled = f.session.polls().last();
        &&& f.protocol.pending_status is None
        &&& f.session.polls().len() == a.session.polls().len() + 1
        &&& f.session.polls().drop_last() == a.session.polls()
        &&& f.session.cancels() == a.session.cancels()
        &&& a.session.lifted() is Some ==> lifted_poll(a.session.lifted().unwrap(), polled.0, polled.1, f.session.lifted())
        &&& clone_faithful::<SourceId>() ==> source_step_shape(
            session_id,
            a.source_slot,
            a.source,
            a.stage,
            first_revision,
            polled.0,
            polled.1.terminal,
            outs,
            f.protocol,
        )
        &&& verdicts_known(polled.0) && clone_faithful::<SourceId>() ==> source_step_ok(
            session_id,
            a.source_slot,
            a.source,
            a.stage,
            a.capabilities,
            (a.protocol.started, a.protocol.terminal, a.protocol.last_revision, a.protocol.known_results@, a.protocol.patched),
            a.protocol.announced_started,
            first_revision,
            polled.0,
            polled.1.terminal,
            outs,
            f.protocol,
        )
    }
}

/// A canceled source is reported on the next poll with a terminal status:
/// `Canceled` when it cooperates with cancellation, `Stale` otherwise, and the
/// coordinator stops observing it.
pub proof fn law_cancel_reports_canceled_or_stale<SourceId: Clone, S: SubjectRef, A, E, Progress, Detail>(
    session_id: QuerySessionId,
    first_revision: u64,
    a: ActiveSession<SourceId, S, A, E, Progress, Detail>,
    outs: Seq<SearchEvent<SourceId, S, A, E, Progress, Detail>>,
    f: ActiveSession<SourceId, S, A, E, Progress, Detail>,
)
    requires
        clone_faithful::<SourceId>(),
        !a.protocol.terminal,
        a.protocol.pending_status == Some(cancel_status::<Detail>(a.capabilities)),
        poll_part_ok(session_id, first_revision, a, outs, f),
    ensures
        f.protocol.terminal,
        outs.len() >= 1,
        outs.last() matches SearchEvent::StatusChanged { status, source, .. } && source == a.source
            && status.state == (if a.capabilities.can_cancel {
            SourceState::Canceled
        } else {
            SourceState::Stale
        }),
{
}

/// A source whose session sends an event that breaks the protocol is failed:
/// the poll ends its part with one `Failed` status for that source, the source
/// is terminal, and no later poll polls it or emits anything for it.
pub proof fn law_protocol_breach_fails_source_for_good<SourceId: Clone, S: SubjectRef, A, E, Progress, Detail>(
    session_id: QuerySessionId,
    first_revision: u64,
    later_revision: u64,
    a: ActiveSession<SourceId, S, A, E, Progress, Detail>,
    outs: Seq<SearchEvent<SourceId, S, A, E, Progress, Detail>>,
    f: ActiveSession<SourceId, S, A, E, Progress, Detail>,
    later_outs: Seq<SearchEvent<SourceId, S, A, E, Progress, Detail>>,
    g: ActiveSession<SourceId, S, A, E, Progress, Detail>,
)
    requires
        verdicts_known(f.session.polls().last().0),
        clone_faithful::<SourceId>(),
        !a.protocol.terminal,
        a.protocol.pending_status is None,
        poll_part_ok(session_id, first_revision, a, outs, f),
        ({
            let polled = f.session.polls().last().0;
            let start = (
                a.protocol.started,
                a.protocol.terminal,
                a.protocol.last_revision,
                a.protocol.known_results@,
                a.protocol.patched,
            );
            accepted_count(start, a.capabilities, session_id, polled, polled.len()) < polled.len()
        }),
        poll_part_ok(session_id, later_revision, f, later_outs, g),
    ensures
        f.protocol.terminal,
        outs.len() >= 1,
        outs.last() == failed_event::<SourceId, S, A, E, Progress, Detail>(
            session_id,
            rev_plus(first_revision, outs.len() - 1),
            a.source,
            a.stage,
        ),
        later_outs.len() == 0,
        g == f,
{
}

/// For every subject type: when a poll ends a source's part with a `Failed`
/// status (the coordinator failing the source after its accepted prefix, or
/// the source failing itself), the source is terminal, and no later poll
/// polls it or emits anything for it.
pub proof fn law_failed_source_stays_silent<SourceId: Clone, S: SubjectRef, A, E, Progress, Detail>(
    session_id: QuerySessionId,
    first_revision: u64,
    later_revision: u64,
    a: ActiveSession<SourceId, S, A, E, Progress, Detail>,
    outs: Seq<SearchEvent<SourceId, S, A, E, Progress, Detail>>,
    f: ActiveSession<SourceId, S, A, E, Progress, Detail>,
    later_outs: Seq<SearchEvent<SourceId, S, A, E, Progress, Detail>>,
    g: ActiveSession<SourceId, S, A, E, Progress, Detail>,
)
    requires
        clone_faithful::<SourceId>(),
        !a.protocol.terminal,
        a.protocol.pending_status is None,
        poll_part_ok(session_id, first_revision, a, outs, f),
        outs.len() >= 1,
        outs.last() matches SearchEvent::StatusChanged { status, .. } && status.state == SourceState::Failed,
        poll_part_ok(session_id, later_revision, f, later_outs, g),
    ensures
        f.protocol.terminal,
        later_outs.len() == 0,
        g == f,
{
    let polled = f.session.polls().last();
    let n = choose|n: int|
        source_step_shape_at(
            session_id,
            a.source_slot,
            a.source,
            a.stage,
            first_revision,
            polled.0,
            polled.1.terminal,
            outs,
            f.protocol,
            n,
        );
    let events = polled.0;
    if !(n < events.len() || (polled.1.terminal && !ends_with_terminal_status(events, n))) {
        assert(outs.len() == n);
        assert(translated(
            session_id,
            Revision::from_raw(rev_plus(first_revision, n - 1)),
            a.source_slot,
            a.source,
            a.stage,
            events[n - 1],
            outs[n - 1],
        ));
        assert(outs.last() == outs[n - 1]);
        assert(ends_with_terminal_status(events, n));
    }
}

/// The counts two consecutive polls into one buffer report add up to the
/// events they appended together, while that number fits the count: the
/// buffer grows from `before` to `middle` in the first poll and to `after` in
/// the second.
pub proof fn law_poll_counts_add_up(before: nat, middle: nat, after: nat, first: PollOutcome, second: PollOutcome)
    requires
        before <= middle <= after,
        first.emitted_events as int == (if middle - before <= u32::MAX {
            middle - before
        } else {
            u32::MAX as int
        }),
        second.emitted_events as int == (if after - middle <= u32::MAX {
            after - middle
        } else {
            u32::MAX as int
        }),
    ensures
        after - before <= u32::MAX ==> first.emitted_events + second.emitted_events == after - before,
{
}

/// The stages labelled live sources declare.
pub open spec fn live_stages<SourceId, S: SubjectRef, Scope, Filter, Context, A, E, Progress, Detail>(
    sources: Seq<(SourceId, &dyn StagedLiveSource<S, Scope, Filter, Context, A, E, Progress, Detail>)>,
) -> Seq<RouteStage> {
    Seq::new(sources.len(), |j: int| sources[j].1.stage_spec())
}

/// Whether `p` is the protocol state of a source that has not emitted anything.
pub open spec fn fresh_protocol<S: SubjectRef, Detail>(p: SourceProtocolState<S, Detail>) -> bool {
    &&& !p.started
    &&& !p.announced_started
    &&& !p.terminal
    &&& p.last_revision is None
    &&& p.known_results@.len() == 0
    &&& p.pending_status is None
}

impl LiveCoordinator {
    /// Create one live coordinator with session ids starting at 1.
    pub fn new() -> (r: Self)
        ensures
            r.next_session_id_spec() == 1,
    {
        LiveCoordinator { next_session_id: 1 }
    }

    /// Session id the next coordinated session will get.
    pub closed spec fn next_session_id_spec(&self) -> u64 {
        self.next_session_id
    }

    /// Begin one coordinated live query session.
    ///
    /// Every source is opened exactly once, with the next session id, clones
    /// of the query and context and the budget (what the source promises of
    /// that session is its `opens`), in
    /// route-plan order (materialized, contextual, virtual; list order within
    /// a stage), and gets the next source slot.
    #[verifier::spinoff_prover]
    #[verifier::rlimit(40)]
    pub fn begin_session<SourceId: Clone, S: SubjectRef, Scope: Clone, Filter: Clone, Context: Clone, A, E, Progress, Detail>(
        &mut self,
        plan: RoutePlan,
        sources: &[(SourceId, &dyn StagedLiveSource<S, Scope, Filter, Context, A, E, Progress, Detail>)],
        query: PortolanQuery<Scope, Filter>,
        context: RetrievalContext<Context>,
        budget: RetrievalBudget,
    ) -> (r: LiveCoordinatorSession<SourceId, S, A, E, Progress, Detail>)
        requires
            old(self).next_session_id_spec() < u64::MAX,
            sources@.len() < 65536,
        ensures
            final(self).next_session_id_spec() == old(self).next_session_id_spec() + 1,
            r.session_id_spec() == QuerySessionId::from_raw(old(self).next_session_id_spec()),
            r.next_revision_spec() == 0,
            !r.started_spec(),
            !r.finished_spec(),
            r.wf(),
            r.active_spec().len() == sources@.len(),
            forall|k: int|
                0 <= k < r.active_spec().len() ==> {
                    &&& (#[trigger] r.active_spec()[k]).source_slot == SourceSlot::from_raw(k as u16)
                    &&& fresh_protocol(r.active_spec()[k].protocol)
                },
            forall|k: int|
                0 <= k < r.active_spec().len() ==> {
                    let i = #[trigger] route_schedule(live_stages(sources@))[k];
                    &&& r.active_spec()[k].stage == sources@[i].1.stage_spec()
                    &&& vstd::pervasive::cloned(sources@[i].0, r.active_spec()[k].source)
                    &&& r.active_spec()[k].capabilities == r.active_spec()[k].session.capabilities_spec()
                    &&& r.active_spec()[k].session.polls().len() == 0
                    &&& r.active_spec()[k].session.cancels() == 0
                    &&& exists|opened_query: PortolanQuery<Scope, Filter>, opened_context: RetrievalContext<Context>|
                        #![trigger sources@[i].1.opens(r.session_id_spec(), opened_query, opened_context, budget, r.active_spec()[k].session)]
                        vstd::pervasive::cloned(query, opened_query) && vstd::pervasive::cloned(context, opened_context)
                            && sources@[i].1.opens(r.session_id_spec(), opened_query, opened_context, budget, r.active_spec()[k].session)
                },
    {
        let session_id = QuerySessionId::new(self.next_session_id);
        self.next_session_id = self.next_session_id + 1;

        let mut stages: Vec<RouteStage> = Vec::new();
        let mut i: usize = 0;
        while i < sources.len()
            invariant
                i <= sources@.len(),
                stages@.len() == i,
                forall|t: int| 0 <= t < i ==> stages@[t] == (#[trigger] sources@[t]).1.stage_spec(),
            decreases sources@.len() - i,
        {
            stages.push(sources[i].1.stage());
            i = i + 1;
        }

        proof {
            assert(stages@ =~= live_stages(sources@));
        }
        let plan_stages = plan.stages();
        let mut active: Vec<ActiveSession<SourceId, S, A, E, Progress, Detail>> = Vec::new();
        let ghost mut order: Seq<int> = Seq::empty();
        let ghost n = sources@.len();
        let mut pass: usize = 0;
        while pass < 3
            invariant
                pass <= 3,
                stages@.len() == n,
                n == sources@.len(),
                n < 65536,
                plan_stages@ == seq![RouteStage::Materialized, RouteStage::Contextual, RouteStage::Virtual],
                stages@ == live_stages(sources@),
                order.len() == active@.len(),
                pass == 0 ==> order == Seq::<int>::empty(),
                pass == 1 ==> order == stage_indices(stages@, RouteStage::Materialized, n),
                pass == 2 ==> order == stage_indices(stages@, RouteStage::Materialized, n) + stage_indices(stages@, RouteStage::Contextual, n),
                pass == 3 ==> order == route_schedule(stages@),
                order.len() <= n,
                forall|k: int|
                    0 <= k < active@.len() ==> {
                        &&& 0 <= order[k] < n
                        &&& (#[trigger] active@[k]).source_slot == SourceSlot::from_raw(k as u16)
                        &&& fresh_protocol(active@[k].protocol)
                        &&& active@[k].stage == stages@[order[k]]
                        &&& vstd::pervasive::cloned(sources@[order[k]].0, active@[k].source)
                        &&& active@[k].capabilities == active@[k].session.capabilities_spec()
                        &&& active@[k].session.polls().len() == 0
                        &&& active@[k].session.cancels() == 0
                        &&& exists|opened_query: PortolanQuery<Scope, Filter>, opened_context: RetrievalContext<Context>|
                            #![trigger sources@[order[k]].1.opens(session_id, opened_query, opened_context, budget, active@[k].session)]
                            vstd::pervasive::cloned(query, opened_query) && vstd::pervasive::cloned(context, opened_context)
                                && sources@[order[k]].1.opens(session_id, opened_query, opened_context, budget, active@[k].session)
                    },
            decreases 3 - pass,
        {
            let stage = plan_stages[pass];
            let ghost before = order;
            proof {
                lemma_stage_indices_len(stages@, n);
            }
            let mut j: usize = 0;
            while j < sources.len()
                invariant
                    j <= n,
                    stages@.len() == n,
                    stages@ == live_stages(sources@),
                    n == sources@.len(),
                    n < 65536,
                    order.len() == active@.len(),
                    order == before + stage_indices(stages@, stage, j as nat),
                    before.len() + stage_indices(stages@, stage, n).len() <= n,
                    forall|k: int|
                        0 <= k < active@.len() ==> {
                            &&& 0 <= order[k] < n
                            &&& (#[trigger] active@[k]).source_slot == SourceSlot::from_raw(k as u16)
                            &&& fresh_protocol(active@[k].protocol)
                            &&& active@[k].stage == stages@[order[k]]
                            &&& vstd::pervasive::cloned(sources@[order[k]].0, active@[k].source)
                            &&& active@[k].capabilities == active@[k].session.capabilities_spec()
                            &&& active@[k].session.polls().len() == 0
                            &&& active@[k].session.cancels() == 0
                            &&& exists|opened_query: PortolanQuery<Scope, Filter>, opened_context: RetrievalContext<Context>|
                                #![trigger sources@[order[k]].1.opens(session_id, opened_query, opened_context, budget, active@[k].session)]
                                vstd::pervasive::cloned(query, opened_query) && vstd::pervasive::cloned(context, opened_context)
                                    && sources@[order[k]].1.opens(session_id, opened_query, opened_context, budget, active@[k].session)
                        },
                decreases n - j,
            {
                proof {
                    lemma_stage_indices_len_mono(stages@, stage, j as nat, n);
                }
                if stages[j] == stage {
                    let opened_query = query.clone();
                    let opened_context = context.clone();
                    proof {
                        assert(vstd::pervasive::strictly_cloned(query, opened_query));
                        assert(vstd::pervasive::strictly_cloned(context, opened_context));
                    }
                    let ghost witness = (opened_query, opened_context);
                    let session = sources[j].1.begin_session(session_id, opened_query, opened_context, budget);
                    proof {
                        assert(sources@[j as int].1.opens(session_id, witness.0, witness.1, budget, session));
                        assert(vstd::pervasive::cloned(query, witness.0));
                        assert(vstd::pervasive::cloned(context, witness.1));
                    }
                    let capabilities = session.capabilities();
                    let source = sources[j].0.clone();
                    let slot = SourceSlot::new(active.len() as u16);
                    active.push(ActiveSession {
                        source_slot: slot,
                        source,
                        stage,
                        capabilities,
                        session,
                        protocol: SourceProtocolState::new(),
                    });
                    proof {
                        order = order.push(j as int);
                        assert(vstd::pervasive::strictly_cloned(sources@[j as int].0, source));
                    }
                }
                proof {
                    assert(order =~= before + stage_indices(stages@, stage, (j + 1) as nat));
                }
                j = j + 1;
            }
            proof {
                if pass == 2 {
                    assert(order =~= route_schedule(stages@));
                }
            }
            pass = pass + 1;
        }
        proof {
            lemma_route_schedule_len(stages@);
            assert(route_schedule(stages@).len() == n);
        }
        let r = LiveCoordinatorSession {
            session_id,
            next_revision: 0,
            session_started: false,
            session_finished: false,
            active,
        };
        proof {
            assert forall|k: int| #![trigger route_schedule(live_stages(sources@))[k]]
                0 <= k < r.active_spec().len() implies exists|
                opened_query: PortolanQuery<Scope, Filter>,
                opened_context: RetrievalContext<Context>,
            |
                #![trigger sources@[route_schedule(live_stages(sources@))[k]].1.opens(
                    r.session_id_spec(),
                    opened_query,
                    opened_context,
                    budget,
                    r.active_spec()[k].session,
                )]
                vstd::pervasive::cloned(query, opened_query) && vstd::pervasive::cloned(context, opened_context)
                    && sources@[route_schedule(live_stages(sources@))[k]].1.opens(
                    r.session_id_spec(),
                    opened_query,
                    opened_context,
                    budget,
                    r.active_spec()[k].session,
                ) by {
                assert(r.active_spec()[k] == active@[k]);
                assert(route_schedule(live_stages(sources@))[k] == order[k]);
                let (q, c) = choose|
                    opened_query: PortolanQuery<Scope, Filter>,
                    opened_context: RetrievalContext<Context>,
                |
                    vstd::pervasive::cloned(query, opened_query) && vstd::pervasive::cloned(context, opened_context)
                        && sources@[order[k]].1.opens(session_id, opened_query, opened_context, budget, active@[k].session);
                assert(sources@[order[k]].1.opens(session_id, q, c, budget, active@[k].session));
                assert(r.session_id_spec() == session_id);
                assert(vstd::pervasive::cloned(query, q) && vstd::pervasive::cloned(context, c));
                assert(sources@[route_schedule(live_stages(sources@))[k]].1.opens(
                    r.session_id_spec(),
                    q,
                    c,
                    budget,
                    r.active_spec()[k].session,
                ));
            }
        }
        r
    }
}

/// Stage groups only grow as more sources are considered.
proof fn lemma_stage_indices_len_mono(stages: Seq<RouteStage>, stage: RouteStage, j: nat, n: nat)
    requires
        j <= n,
        n <= stages.len(),
    ensures
        stage_indices(stages, stage, j).len() <= stage_indices(stages, stage, n).len(),
        j < n && stages[j as int] == stage ==> stage_indices(stages, stage, j).len() < stage_indices(stages, stage, n).len(),
    decreases n - j,
{
    if j < n {
        lemma_stage_indices_len_mono(stages, stage, j, (n - 1) as nat);
        if j == n - 1 {
        }
    }
}

impl Default for LiveCoordinator {
    fn default() -> (r: Self)
        ensures
            r.next_session_id_spec() == 0,
    {
        LiveCoordinator { next_session_id: 0 }
    }
}

} // verus!
