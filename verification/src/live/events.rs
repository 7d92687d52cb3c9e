//! Source-local and coordinated live events, their buffers, and the live
//! source and session seams.

use vstd::prelude::*;

use crate::base::{PortolanHit, RetrievalBudget, RetrievalContext, StandardAffordance, SubjectRef};
use crate::live::ids::{
    LocalResultId, QuerySessionId, Revision, SessionResultId, SourceCapabilities, SourceSlot,
    StatusUpdate,
};
use crate::live::snapshot::{lifted_cancel, lifted_poll, LiftedSnapshot};
use crate::query::PortolanQuery;
use crate::route::RouteStage;

verus! {

/// One source-local result carried by patch operations.
#[derive(Clone, Debug, PartialEq)]
pub struct SourceResult<S: SubjectRef, A = StandardAffordance, E = ()> {
    /// Stable source-local result id.
    pub id: LocalResultId,
    /// Current hit payload for this result.
    pub hit: PortolanHit<S, A, E>,
}

impl<S: SubjectRef, A, E> SourceResult<S, A, E> {
    /// Create one source-local result.
    pub fn new(id: LocalResultId, hit: PortolanHit<S, A, E>) -> (r: Self)
        ensures
            r.id == id,
            r.hit == hit,
    {
        SourceResult { id, hit }
    }
}

/// Source-local patch operation for one live source session.
#[derive(Clone, Debug, PartialEq)]
pub enum SourcePatchOp<S: SubjectRef, A = StandardAffordance, E = ()> {
    /// Insert one newly visible result.
    Insert {
        /// New result payload.
        result: SourceResult<S, A, E>,
    },
    /// Replace the current payload for one existing result id. Replacement
    /// preserves the subject already associated with the id.
    Replace {
        /// Replacement result payload.
        result: SourceResult<S, A, E>,
    },
    /// Remove one previously visible result.
    Remove {
        /// Source-local result id to remove.
        result_id: LocalResultId,
    },
    /// Move one result before another result, or to the end when `anchor` is `None`.
    MoveBefore {
        /// Result to move.
        result_id: LocalResultId,
        /// Result that should follow the moved result.
        anchor: Option<LocalResultId>,
    },
}

/// Source-local live event emitted by one [`LiveSession`].
#[derive(Clone, Debug, PartialEq)]
pub enum SourceSearchEvent<S: SubjectRef, A = StandardAffordance, E = (), Progress = (), Detail = ()> {
    /// Session has started and declared its capabilities.
    Begin {
        /// Query session id.
        session_id: QuerySessionId,
        /// Source-local revision.
        revision: Revision,
        /// Source capabilities for this session.
        capabilities: SourceCapabilities,
    },
    /// Incremental patch against the source-local result list.
    ApplyPatch {
        /// Query session id.
        session_id: QuerySessionId,
        /// Source-local revision.
        revision: Revision,
        /// Patch operations to apply.
        ops: Vec<SourcePatchOp<S, A, E>>,
    },
    /// Source-local progress update.
    Progress {
        /// Query session id.
        session_id: QuerySessionId,
        /// Source-local revision.
        revision: Revision,
        /// Host-defined progress payload.
        progress: Progress,
    },
    /// Source-local lifecycle change.
    StatusChanged {
        /// Query session id.
        session_id: QuerySessionId,
        /// Source-local revision.
        revision: Revision,
        /// New source status.
        status: StatusUpdate<Detail>,
    },
}

impl<S: SubjectRef, A, E, Progress, Detail> SourceSearchEvent<S, A, E, Progress, Detail> {
    /// The session id every source event carries.
    pub open spec fn session_id_spec(&self) -> QuerySessionId {
        match self {
            SourceSearchEvent::Begin { session_id, .. } => *session_id,
            SourceSearchEvent::ApplyPatch { session_id, .. } => *session_id,
            SourceSearchEvent::Progress { session_id, .. } => *session_id,
            SourceSearchEvent::StatusChanged { session_id, .. } => *session_id,
        }
    }

    /// The revision every source event carries.
    pub open spec fn revision_spec(&self) -> Revision {
        match self {
            SourceSearchEvent::Begin { revision, .. } => *revision,
            SourceSearchEvent::ApplyPatch { revision, .. } => *revision,
            SourceSearchEvent::Progress { revision, .. } => *revision,
            SourceSearchEvent::StatusChanged { revision, .. } => *revision,
        }
    }
}

/// Sink for source-local live events.
pub trait SourceEventSink<S: SubjectRef, A = StandardAffordance, E = (), Progress = (), Detail = ()> {
    /// Push one source-local event into the sink.
    fn push(&mut self, event: SourceSearchEvent<S, A, E, Progress, Detail>);
}

/// Simple growable buffer for source-local live events, in push order.
#[derive(Clone, Debug, PartialEq)]
pub struct SourceEventBuffer<S: SubjectRef, A = StandardAffordance, E = (), Progress = (), Detail = ()> {
    events: Vec<SourceSearchEvent<S, A, E, Progress, Detail>>,
}

impl<S: SubjectRef, A, E, Progress, Detail> View for SourceEventBuffer<S, A, E, Progress, Detail> {
    type V = Seq<SourceSearchEvent<S, A, E, Progress, Detail>>;

    closed spec fn view(&self) -> Seq<SourceSearchEvent<S, A, E, Progress, Detail>> {
        self.events@
    }
}

impl<S: SubjectRef, A, E, Progress, Detail> Default for SourceEventBuffer<S, A, E, Progress, Detail> {
    fn default() -> (r: Self)
        ensures
            r@ == Seq::<SourceSearchEvent<S, A, E, Progress, Detail>>::empty(),
    {
        SourceEventBuffer { events: Vec::new() }
    }
}

impl<S: SubjectRef, A, E, Progress, Detail> SourceEventBuffer<S, A, E, Progress, Detail> {
    /// Create one empty source event buffer.
    pub fn new() -> (r: Self)
        ensures
            r@ == Seq::<SourceSearchEvent<S, A, E, Progress, Detail>>::empty(),
    {
        SourceEventBuffer { events: Vec::new() }
    }

    /// Borrow buffered events.
    pub fn as_slice(&self) -> (r: &[SourceSearchEvent<S, A, E, Progress, Detail>])
        ensures
            r@ == self@,
    {
        self.events.as_slice()
    }

    /// Whether the buffer is empty.
    pub fn is_empty(&self) -> (r: bool)
        ensures
            r == (self@.len() == 0),
    {
        self.events.len() == 0
    }

    /// Number of buffered events.
    pub fn len(&self) -> (r: usize)
        ensures
            r == self@.len(),
    {
        self.events.len()
    }

    /// Append one event.
    pub fn push_event(&mut self, event: SourceSearchEvent<S, A, E, Progress, Detail>)
        ensures
            final(self)@ == old(self)@.push(event),
    {
        self.events.push(event);
    }

    /// Remove and return the buffered events.
    pub fn take(&mut self) -> (r: Vec<SourceSearchEvent<S, A, E, Progress, Detail>>)
        ensures
            r@ == old(self)@,
            final(self)@ == Seq::<SourceSearchEvent<S, A, E, Progress, Detail>>::empty(),
    {
        let mut events = Vec::new();
        std::mem::swap(&mut events, &mut self.events);
        events
    }
}

impl<S: SubjectRef, A, E, Progress, Detail> SourceEventSink<S, A, E, Progress, Detail> for SourceEventBuffer<
    S,
    A,
    E,
    Progress,
    Detail,
> {
    fn push(&mut self, event: SourceSearchEvent<S, A, E, Progress, Detail>)
        ensures
            final(self)@ == old(self)@.push(event),
    {
        self.events.push(event);
    }
}

/// Outcome of polling a live session or coordinator.
#[derive(Clone, Copy, Debug, PartialEq, Eq, Structural)]
pub struct PollOutcome {
    /// Number of events emitted during this poll.
    pub emitted_events: u32,
    /// Whether the polled session is terminal.
    pub terminal: bool,
}

impl PollOutcome {
    /// Build an outcome from an event count that fits in `u32`.
    pub fn with_event_count(emitted_events: usize, terminal: bool) -> (r: Self)
        requires
            emitted_events <= u32::MAX,
        ensures
            r.emitted_events == emitted_events,
            r.terminal == terminal,
    {
        PollOutcome { emitted_events: emitted_events as u32, terminal }
    }
}

impl Default for PollOutcome {
    fn default() -> (r: Self)
        ensures
            r.emitted_events == 0,
            !r.terminal,
    {
        PollOutcome { emitted_events: 0, terminal: false }
    }
}

/// One live source session. Callers poll it until it reports a terminal
/// status.
pub trait LiveSession<S: SubjectRef, A = StandardAffordance, E = (), Progress = (), Detail = ()> {
    /// The capabilities the session declares. Outside verified code,
    /// implement it with the same body as `capabilities`.
    spec fn capabilities_spec(&self) -> SourceCapabilities;

    /// Declared capabilities for this live session.
    fn capabilities(&self) -> (r: SourceCapabilities)
        ensures
            r == self.capabilities_spec(),
    ;

    /// For a lifted snapshot session, what it is (see [`LiftedSnapshot`]);
    /// `None` for every other session. Implementations outside this library
    /// return `None`.
    spec fn lifted_spec(&self) -> Option<LiftedSnapshot<S, A, E>>;

    /// Poll the session and append any newly available source-local events.
    fn poll_events_into(&mut self, out: &mut SourceEventBuffer<S, A, E, Progress, Detail>) -> (r: PollOutcome)
        ensures
            old(self).lifted_spec() is Some ==> {
                &&& final(out)@.take(old(out)@.len() as int) == old(out)@
                &&& lifted_poll(
                    old(self).lifted_spec().unwrap(),
                    final(out)@.skip(old(out)@.len() as int),
                    r,
                    final(self).lifted_spec(),
                )
            },
    ;

    /// Cancel the session. Cancellation is cooperative.
    fn cancel(&mut self)
        ensures
            old(self).lifted_spec() is Some ==> final(self).lifted_spec() == lifted_cancel(
                old(self).lifted_spec().unwrap(),
            ),
    ;
}

/// An owned, type-erased live session, as returned by [`LiveSource::begin_session`].
#[verifier::reject_recursive_types(S)]
#[verifier::reject_recursive_types(A)]
#[verifier::reject_recursive_types(E)]
#[verifier::reject_recursive_types(Progress)]
#[verifier::reject_recursive_types(Detail)]
pub struct BoxedLiveSession<S: SubjectRef, A = StandardAffordance, E = (), Progress = (), Detail = ()> {
    pub(crate) session: Box<dyn LiveSession<S, A, E, Progress, Detail>>,
    pub(crate) polls: Ghost<Seq<(Seq<SourceSearchEvent<S, A, E, Progress, Detail>>, PollOutcome)>>,
    pub(crate) cancels: Ghost<nat>,
}

impl<S: SubjectRef, A, E, Progress, Detail> BoxedLiveSession<S, A, E, Progress, Detail> {
    /// Whether this handle wraps `session`.
    pub closed spec fn wraps(&self, session: Box<dyn LiveSession<S, A, E, Progress, Detail>>) -> bool {
        self.session == session
    }

    /// Wrap one live session.
    pub fn new(session: Box<dyn LiveSession<S, A, E, Progress, Detail>>) -> (r: Self)
        ensures
            r.wraps(session),
            r.polls().len() == 0,
            r.cancels() == 0,
    {
        BoxedLiveSession { session, polls: Ghost(Seq::empty()), cancels: Ghost(0) }
    }

    /// What the wrapped session is when it is a lifted snapshot session.
    pub closed spec fn lifted(&self) -> Option<LiftedSnapshot<S, A, E>> {
        self.session.lifted_spec()
    }

    /// What `lifted`, `polls` and `cancels` are, for code of this crate that
    /// builds a handle itself.
    pub(crate) proof fn lemma_handle_views(&self)
        ensures
            self.lifted() == self.session.lifted_spec(),
            self.polls() == self.polls@,
            self.cancels() == self.cancels@,
    {
    }

    /// What each poll of the session appended and reported, in order.
    pub closed spec fn polls(&self) -> Seq<(Seq<SourceSearchEvent<S, A, E, Progress, Detail>>, PollOutcome)> {
        self.polls@
    }

    /// How many times the session was asked to cancel.
    pub closed spec fn cancels(&self) -> nat {
        self.cancels@
    }

    /// The capabilities the wrapped session declares.
    pub closed spec fn capabilities_spec(&self) -> SourceCapabilities {
        self.session.capabilities_spec()
    }

    /// Unwrap the live session.
    pub fn into_inner(self) -> Box<dyn LiveSession<S, A, E, Progress, Detail>> {
        self.session
    }

    /// Declared capabilities of the wrapped session.
    pub fn capabilities(&self) -> (r: SourceCapabilities)
        ensures
            r == self.capabilities_spec(),
    {
        self.session.capabilities()
    }

    /// Poll the wrapped session once; the poll is recorded with the events
    /// it appended and the outcome it reported.
    pub fn poll_events_into(&mut self, out: &mut SourceEventBuffer<S, A, E, Progress, Detail>) -> (r:
        PollOutcome)
        ensures
            final(self).polls() == old(self).polls().push((final(out)@.skip(old(out)@.len() as int), r)),
            final(self).cancels() == old(self).cancels(),
            old(self).lifted() is Some ==> {
                &&& final(out)@.take(old(out)@.len() as int) == old(out)@
                &&& lifted_poll(old(self).lifted().unwrap(), final(out)@.skip(old(out)@.len() as int), r, final(self).lifted())
            },
    {
        let ghost before = out@;
        let r = self.session.poll_events_into(out);
        proof {
            self.polls@ = self.polls@.push((out@.skip(before.len() as int), r));
        }
        r
    }

    /// Ask the wrapped session to cancel; the request is counted.
    pub fn cancel(&mut self)
        ensures
            final(self).cancels() == old(self).cancels() + 1,
            final(self).polls() == old(self).polls(),
            old(self).lifted() is Some ==> final(self).lifted() == lifted_cancel(old(self).lifted().unwrap()),
    {
        self.session.cancel();
        proof {
            self.cancels@ = self.cancels@ + 1;
        }
    }
}

/// Source that can open live query sessions.
pub trait LiveSource<
    S: SubjectRef,
    Scope = (),
    Filter = (),
    Context = (),
    A = StandardAffordance,
    E = (),
    Progress = (),
    Detail = (),
> {
    /// Whether `r` is the session this source opens for `session_id`,
    /// `query`, `context` and `budget`. It describes what `begin_session`
    /// returns; an implementation outside verified code states its own word
    /// here, most simply `true`.
    spec fn opens(
        &self,
        session_id: QuerySessionId,
        query: PortolanQuery<Scope, Filter>,
        context: RetrievalContext<Context>,
        budget: RetrievalBudget,
        r: BoxedLiveSession<S, A, E, Progress, Detail>,
    ) -> bool;

    /// Open one live retrieval session; it has not been polled or canceled.
    fn begin_session(
        &self,
        session_id: QuerySessionId,
        query: PortolanQuery<Scope, Filter>,
        context: RetrievalContext<Context>,
        budget: RetrievalBudget,
    ) -> (r: BoxedLiveSession<S, A, E, Progress, Detail>)
        ensures
            self.opens(session_id, query, context, budget, r),
            r.polls().len() == 0,
            r.cancels() == 0,
    ;
}

/// Live source with an explicit route stage.
pub trait StagedLiveSource<
    S: SubjectRef,
    Scope = (),
    Filter = (),
    Context = (),
    A = StandardAffordance,
    E = (),
    Progress = (),
    Detail = (),
>: LiveSource<S, Scope, Filter, Context, A, E, Progress, Detail> {
    /// The stage the source declares. Outside verified code, implement it
    /// with the same body as `stage`.
    spec fn stage_spec(&self) -> RouteStage;

    /// Stage in which this source belongs.
    fn stage(&self) -> (r: RouteStage)
        ensures
            r == self.stage_spec(),
    ;
}

/// One result in the coordinator-level event stream.
#[derive(Clone, Debug, PartialEq)]
pub struct SessionResult<SourceId, S: SubjectRef, A = StandardAffordance, E = ()> {
    /// Stable session-global result id.
    pub id: SessionResultId,
    /// Caller-provided source identifier.
    pub source: SourceId,
    /// Stage that produced the result.
    pub stage: RouteStage,
    /// Current hit payload.
    pub hit: PortolanHit<S, A, E>,
}

impl<SourceId, S: SubjectRef, A, E> SessionResult<SourceId, S, A, E> {
    /// The coordinated form of one source-local result.
    pub(crate) fn from_source_result(
        source_slot: SourceSlot,
        source: SourceId,
        stage: RouteStage,
        result: SourceResult<S, A, E>,
    ) -> (r: Self)
        ensures
            r == (SessionResult {
                id: SessionResultId { source_slot, local: result.id },
                source,
                stage,
                hit: result.hit,
            }),
    {
        SessionResult { id: SessionResultId::new(source_slot, result.id), source, stage, hit: result.hit }
    }
}

/// Patch operation in the coordinator-level event stream.
#[derive(Clone, Debug, PartialEq)]
pub enum SessionPatchOp<SourceId, S: SubjectRef, A = StandardAffordance, E = ()> {
    /// Insert one newly visible result.
    Insert {
        /// New coordinated result payload.
        result: SessionResult<SourceId, S, A, E>,
    },
    /// Replace one previously visible result, keeping its subject.
    Replace {
        /// Replacement coordinated result payload.
        result: SessionResult<SourceId, S, A, E>,
    },
    /// Remove one previously visible result.
    Remove {
        /// Coordinated result id to remove.
        result_id: SessionResultId,
    },
    /// Move one result before another result, or to the end when `anchor` is `None`.
    MoveBefore {
        /// Result to move.
        result_id: SessionResultId,
        /// Result that should follow the moved result.
        anchor: Option<SessionResultId>,
    },
}

/// Coordinated live event emitted by a live coordinator session.
#[derive(Clone, Debug, PartialEq)]
pub enum SearchEvent<SourceId, S: SubjectRef, A = StandardAffordance, E = (), Progress = (), Detail = ()> {
    /// Coordinator opened one query session.
    SessionStarted {
        /// Query session id.
        session_id: QuerySessionId,
    },
    /// One source session started.
    SourceStarted {
        /// Query session id.
        session_id: QuerySessionId,
        /// Coordinator revision.
        revision: Revision,
        /// Caller-provided source identifier.
        source: SourceId,
        /// Stage associated with the source.
        stage: RouteStage,
        /// Declared capabilities for the source session.
        capabilities: SourceCapabilities,
    },
    /// Coordinator-level patch for one source.
    ApplyPatch {
        /// Query session id.
        session_id: QuerySessionId,
        /// Coordinator revision.
        revision: Revision,
        /// Caller-provided source identifier.
        source: SourceId,
        /// Stage associated with the source.
        stage: RouteStage,
        /// Patch operations to apply.
        ops: Vec<SessionPatchOp<SourceId, S, A, E>>,
    },
    /// Coordinator-level progress update.
    Progress {
        /// Query session id.
        session_id: QuerySessionId,
        /// Coordinator revision.
        revision: Revision,
        /// Caller-provided source identifier.
        source: SourceId,
        /// Stage associated with the source.
        stage: RouteStage,
        /// Host-defined progress payload.
        progress: Progress,
    },
    /// Coordinator-level lifecycle change for one source.
    StatusChanged {
        /// Query session id.
        session_id: QuerySessionId,
        /// Coordinator revision.
        revision: Revision,
        /// Caller-provided source identifier.
        source: SourceId,
        /// Stage associated with the source.
        stage: RouteStage,
        /// New status for the source.
        status: StatusUpdate<Detail>,
    },
    /// Coordinator observed all source sessions reach terminal states.
    SessionFinished {
        /// Query session id.
        session_id: QuerySessionId,
        /// Final coordinator revision.
        revision: Revision,
    },
}

impl<SourceId, S: SubjectRef, A, E, Progress, Detail> SearchEvent<SourceId, S, A, E, Progress, Detail> {
    /// The session id every coordinated event carries.
    pub open spec fn session_id_spec(&self) -> QuerySessionId {
        match self {
            SearchEvent::SessionStarted { session_id } => *session_id,
            SearchEvent::SourceStarted { session_id, .. } => *session_id,
            SearchEvent::ApplyPatch { session_id, .. } => *session_id,
            SearchEvent::Progress { session_id, .. } => *session_id,
            SearchEvent::StatusChanged { session_id, .. } => *session_id,
            SearchEvent::SessionFinished { session_id, .. } => *session_id,
        }
    }

    /// The coordinator revision of the event; `SessionStarted` carries none.
    pub open spec fn revision_spec(&self) -> Option<Revision> {
        match self {
            SearchEvent::SessionStarted { .. } => None,
            SearchEvent::SourceStarted { revision, .. } => Some(*revision),
            SearchEvent::ApplyPatch { revision, .. } => Some(*revision),
            SearchEvent::Progress { revision, .. } => Some(*revision),
            SearchEvent::StatusChanged { revision, .. } => Some(*revision),
            SearchEvent::SessionFinished { revision, .. } => Some(*revision),
        }
    }
}

/// Sink for coordinator-level live events.
pub trait SearchEventSink<SourceId, S: SubjectRef, A = StandardAffordance, E = (), Progress = (), Detail = ()> {
    /// Push one coordinated event into the sink.
    fn push(&mut self, event: SearchEvent<SourceId, S, A, E, Progress, Detail>);
}

/// Simple growable buffer for coordinator-level live events, in push order.
#[derive(Clone, Debug, PartialEq)]
pub struct SearchEventBuffer<SourceId, S: SubjectRef, A = StandardAffordance, E = (), Progress = (), Detail = ()> {
    events: Vec<SearchEvent<SourceId, S, A, E, Progress, Detail>>,
}

impl<SourceId, S: SubjectRef, A, E, Progress, Detail> View for SearchEventBuffer<
    SourceId,
    S,
    A,
    E,
    Progress,
    Detail,
> {
    type V = Seq<SearchEvent<SourceId, S, A, E, Progress, Detail>>;

    closed spec fn view(&self) -> Seq<SearchEvent<SourceId, S, A, E, Progress, Detail>> {
        self.events@
    }
}

impl<SourceId, S: SubjectRef, A, E, Progress, Detail> Default for SearchEventBuffer<
    SourceId,
    S,
    A,
    E,
    Progress,
    Detail,
> {
    fn default() -> (r: Self)
        ensures
            r@ == Seq::<SearchEvent<SourceId, S, A, E, Progress, Detail>>::empty(),
    {
        SearchEventBuffer { events: Vec::new() }
    }
}

impl<SourceId, S: SubjectRef, A, E, Progress, Detail> SearchEventBuffer<SourceId, S, A, E, Progress, Detail> {
    /// Create one empty event buffer.
    pub fn new() -> (r: Self)
        ensures
            r@ == Seq::<SearchEvent<SourceId, S, A, E, Progress, Detail>>::empty(),
    {
        SearchEventBuffer { events: Vec::new() }
    }

    /// Borrow buffered events.
    pub fn as_slice(&self) -> (r: &[SearchEvent<SourceId, S, A, E, Progress, Detail>])
        ensures
            r@ == self@,
    {
        self.events.as_slice()
    }

    /// Whether the buffer contains no events.
    pub fn is_empty(&self) -> (r: bool)
        ensures
            r == (self@.len() == 0),
    {
        self.events.len() == 0
    }

    /// Number of buffered events.
    pub fn len(&self) -> (r: usize)
        ensures
            r == self@.len(),
    {
        self.events.len()
    }

    /// Append one event.
    pub fn push_event(&mut self, event: SearchEvent<SourceId, S, A, E, Progress, Detail>)
        ensures
            final(self)@ == old(self)@.push(event),
    {
        self.events.push(event);
    }

    /// Remove and return all buffered events.
    pub fn take(&mut self) -> (r: Vec<SearchEvent<SourceId, S, A, E, Progress, Detail>>)
        ensures
            r@ == old(self)@,
            final(self)@ == Seq::<SearchEvent<SourceId, S, A, E, Progress, Detail>>::empty(),
    {
        let mut events = Vec::new();
        std::mem::swap(&mut events, &mut self.events);
        events
    }
}

impl<SourceId, S: SubjectRef, A, E, Progress, Detail> SearchEventSink<
    SourceId,
    S,
    A,
    E,
    Progress,
    Detail,
> for SearchEventBuffer<SourceId, S, A, E, Progress, Detail> {
    fn push(&mut self, event: SearchEvent<SourceId, S, A, E, Progress, Detail>)
        ensures
            final(self)@ == old(self)@.push(event),
    {
        self.events.push(event);
    }
}

} // verus!
