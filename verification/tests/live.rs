use portolan::base::{
    Affordance, PortolanHit, RetrievalBudget, RetrievalContext, RetrievalOrigin, Score,
    StandardAffordance,
};
use portolan::live::{
    BoxedLiveSession, LiftedSnapshot, LiveCoordinator, LiveSession, LiveSource, LocalResultId, PollOutcome,
    QuerySessionId, Revision, SearchEvent, SearchEventBuffer, SessionPatchOp, SessionResultId,
    SnapshotLiveSource, SourceCapabilities, SourceEventBuffer, SourceEventSink, SourcePatchOp,
    SourceResult, SourceSearchEvent, SourceSlot, SourceState, StagedLiveSource,
    StagedSnapshotSource, StatusUpdate,
};
use portolan::query::PortolanQuery;
use portolan::route::{RoutePlan, RouteStage};
use portolan::source::{CandidateBuffer, CandidateSink, RetrievalSource};

fn score(value: f32) -> Score {
    Score::from_bits(value.to_bits())
}

#[derive(Clone, Debug, PartialEq, Eq, Hash)]
struct DemoSubject(&'static str);

#[derive(Clone, Copy, Debug)]
struct DemoSnapshotSource;

impl RetrievalSource<DemoSubject> for DemoSnapshotSource {
    fn retrieved(
        &self,
        query: &PortolanQuery,
        context: &RetrievalContext,
        budget: RetrievalBudget,
    ) -> Vec<PortolanHit<DemoSubject>> {
        let mut out = CandidateBuffer::new();
        self.retrieve_into(query, context, budget, &mut out);
        out.into_hits()
    }

    fn retrieve_into(
        &self,
        _query: &PortolanQuery,
        _context: &RetrievalContext,
        _budget: RetrievalBudget,
        out: &mut CandidateBuffer<DemoSubject>,
    ) {
        out.push(PortolanHit::new(
            DemoSubject("camera.main"),
            score(1.0),
            RetrievalOrigin::MaterializedIndex,
        ));
    }
}

impl StagedSnapshotSource<DemoSubject> for DemoSnapshotSource {
    fn stage_spec(&self) -> RouteStage {
        self.stage()
    }

    fn stage(&self) -> RouteStage {
        RouteStage::Materialized
    }
}

struct ProgressiveSource;

struct MalformedPatchSource;

struct MalformedPatchSession {
    session_id: QuerySessionId,
}

struct StaleRevisionSource;

struct StaleRevisionSession {
    session_id: QuerySessionId,
}

struct UnknownReplaceSource;

struct UnknownReplaceSession {
    session_id: QuerySessionId,
}

struct WrongSessionIdSource;

struct WrongSessionIdSession {
    session_id: QuerySessionId,
}

struct InvalidMoveSource;

struct InvalidMoveSession {
    session_id: QuerySessionId,
}

struct ReplaceWithoutCapabilitySource;

struct ReplaceWithoutCapabilitySession {
    session_id: QuerySessionId,
}

struct RemoveWithoutCapabilitySource;

struct RemoveWithoutCapabilitySession {
    session_id: QuerySessionId,
}

struct ProgressWithoutCapabilitySource;

struct ProgressWithoutCapabilitySession {
    session_id: QuerySessionId,
}

struct SubjectChangingReplaceSource;

struct SubjectChangingReplaceSession {
    session_id: QuerySessionId,
}

struct NonCancelableSource;

struct NonCancelableSession {
    session_id: QuerySessionId,
}

struct IgnoringCancelSource;

struct IgnoringCancelSession {
    session_id: QuerySessionId,
    canceled: bool,
}

struct ProgressiveSession {
    session_id: QuerySessionId,
    step: u8,
    canceled: bool,
}

impl LiveSession<DemoSubject> for ProgressiveSession {
    fn lifted_spec(&self) -> Option<LiftedSnapshot<DemoSubject>> {
        None
    }

    fn capabilities_spec(&self) -> SourceCapabilities {
        self.capabilities()
    }

    fn capabilities(&self) -> SourceCapabilities {
        SourceCapabilities {
            streams_partial_results: true,
            revises_results: true,
            retracts_results: true,
            reports_progress: true,
            can_cancel: true,
        }
    }

    fn poll_events_into(
        &mut self,
        out: &mut SourceEventBuffer<DemoSubject>,
    ) -> PollOutcome {
        if self.canceled {
            out.push(SourceSearchEvent::StatusChanged {
                session_id: self.session_id,
                revision: Revision::new(99),
                status: StatusUpdate::new(SourceState::Canceled),
            });
            self.canceled = false;
            return PollOutcome::with_event_count(1, true);
        }

        match self.step {
            0 => {
                out.push(SourceSearchEvent::Begin {
                    session_id: self.session_id,
                    revision: Revision::new(0),
                    capabilities: self.capabilities(),
                });
                self.step = 1;
                PollOutcome::with_event_count(1, false)
            }
            1 => {
                out.push(SourceSearchEvent::ApplyPatch {
                    session_id: self.session_id,
                    revision: Revision::new(1),
                    ops: vec![SourcePatchOp::Insert {
                        result: SourceResult::new(
                            LocalResultId::new(4),
                            PortolanHit::new(
                                DemoSubject("camera.secondary"),
                                score(0.4),
                                RetrievalOrigin::VirtualScan,
                            ),
                        ),
                    }],
                });
                self.step = 2;
                PollOutcome::with_event_count(1, false)
            }
            2 => {
                out.push(SourceSearchEvent::ApplyPatch {
                    session_id: self.session_id,
                    revision: Revision::new(2),
                    ops: vec![SourcePatchOp::Replace {
                        result: SourceResult::new(
                            LocalResultId::new(4),
                            PortolanHit::new(
                                DemoSubject("camera.secondary"),
                                score(0.9),
                                RetrievalOrigin::VirtualScan,
                            )
                            .with_affordances(Vec::from([
                                Affordance::new(StandardAffordance::Inspect),
                            ])),
                        ),
                    }],
                });
                self.step = 3;
                PollOutcome::with_event_count(1, false)
            }
            3 => {
                out.push(SourceSearchEvent::StatusChanged {
                    session_id: self.session_id,
                    revision: Revision::new(3),
                    status: StatusUpdate::new(SourceState::Complete),
                });
                self.step = 4;
                PollOutcome::with_event_count(1, true)
            }
            _ => PollOutcome::with_event_count(0, true),
        }
    }

    fn cancel(&mut self) {
        self.canceled = true;
    }
}

impl LiveSource<DemoSubject> for ProgressiveSource {
    fn opens(
        &self,
        _session_id: QuerySessionId,
        _query: PortolanQuery,
        _context: RetrievalContext,
        _budget: RetrievalBudget,
        _session: BoxedLiveSession<DemoSubject>,
    ) -> bool {
        true
    }

    fn begin_session(
        &self,
        session_id: QuerySessionId,
        _query: PortolanQuery,
        _context: RetrievalContext,
        _budget: RetrievalBudget,
    ) -> BoxedLiveSession<DemoSubject> {
        BoxedLiveSession::new(Box::new(ProgressiveSession {
            session_id,
            step: 0,
            canceled: false,
        }))
    }
}

impl StagedLiveSource<DemoSubject> for ProgressiveSource {
    fn stage_spec(&self) -> RouteStage {
        self.stage()
    }

    fn stage(&self) -> RouteStage {
        RouteStage::Virtual
    }
}

impl LiveSession<DemoSubject> for MalformedPatchSession {
    fn lifted_spec(&self) -> Option<LiftedSnapshot<DemoSubject>> {
        None
    }

    fn capabilities_spec(&self) -> SourceCapabilities {
        self.capabilities()
    }

    fn capabilities(&self) -> SourceCapabilities {
        SourceCapabilities::snapshot()
    }

    fn poll_events_into(
        &mut self,
        out: &mut SourceEventBuffer<DemoSubject>,
    ) -> PollOutcome {
        out.push(SourceSearchEvent::ApplyPatch {
            session_id: self.session_id,
            revision: Revision::new(0),
            ops: vec![SourcePatchOp::Insert {
                result: SourceResult::new(
                    LocalResultId::new(0),
                    PortolanHit::new(
                        DemoSubject("camera.bad"),
                        score(0.1),
                        RetrievalOrigin::VirtualScan,
                    ),
                ),
            }],
        });
        PollOutcome::with_event_count(1, true)
    }

    fn cancel(&mut self) {}
}

impl LiveSource<DemoSubject> for MalformedPatchSource {
    fn opens(
        &self,
        _session_id: QuerySessionId,
        _query: PortolanQuery,
        _context: RetrievalContext,
        _budget: RetrievalBudget,
        _session: BoxedLiveSession<DemoSubject>,
    ) -> bool {
        true
    }

    fn begin_session(
        &self,
        session_id: QuerySessionId,
        _query: PortolanQuery,
        _context: RetrievalContext,
        _budget: RetrievalBudget,
    ) -> BoxedLiveSession<DemoSubject> {
        BoxedLiveSession::new(Box::new(MalformedPatchSession { session_id }))
    }
}

impl StagedLiveSource<DemoSubject> for MalformedPatchSource {
    fn stage_spec(&self) -> RouteStage {
        self.stage()
    }

    fn stage(&self) -> RouteStage {
        RouteStage::Virtual
    }
}

impl LiveSession<DemoSubject> for StaleRevisionSession {
    fn lifted_spec(&self) -> Option<LiftedSnapshot<DemoSubject>> {
        None
    }

    fn capabilities_spec(&self) -> SourceCapabilities {
        self.capabilities()
    }

    fn capabilities(&self) -> SourceCapabilities {
        SourceCapabilities {
            streams_partial_results: true,
            revises_results: true,
            retracts_results: false,
            reports_progress: false,
            can_cancel: true,
        }
    }

    fn poll_events_into(
        &mut self,
        out: &mut SourceEventBuffer<DemoSubject>,
    ) -> PollOutcome {
        out.push(SourceSearchEvent::Begin {
            session_id: self.session_id,
            revision: Revision::new(3),
            capabilities: self.capabilities(),
        });
        out.push(SourceSearchEvent::ApplyPatch {
            session_id: self.session_id,
            revision: Revision::new(2),
            ops: vec![SourcePatchOp::Insert {
                result: SourceResult::new(
                    LocalResultId::new(0),
                    PortolanHit::new(
                        DemoSubject("camera.stale"),
                        score(0.2),
                        RetrievalOrigin::VirtualScan,
                    ),
                ),
            }],
        });
        PollOutcome::with_event_count(2, true)
    }

    fn cancel(&mut self) {}
}

impl LiveSource<DemoSubject> for StaleRevisionSource {
    fn opens(
        &self,
        _session_id: QuerySessionId,
        _query: PortolanQuery,
        _context: RetrievalContext,
        _budget: RetrievalBudget,
        _session: BoxedLiveSession<DemoSubject>,
    ) -> bool {
        true
    }

    fn begin_session(
        &self,
        session_id: QuerySessionId,
        _query: PortolanQuery,
        _context: RetrievalContext,
        _budget: RetrievalBudget,
    ) -> BoxedLiveSession<DemoSubject> {
        BoxedLiveSession::new(Box::new(StaleRevisionSession { session_id }))
    }
}

impl StagedLiveSource<DemoSubject> for StaleRevisionSource {
    fn stage_spec(&self) -> RouteStage {
        self.stage()
    }

    fn stage(&self) -> RouteStage {
        RouteStage::Virtual
    }
}

impl LiveSession<DemoSubject> for UnknownReplaceSession {
    fn lifted_spec(&self) -> Option<LiftedSnapshot<DemoSubject>> {
        None
    }

    fn capabilities_spec(&self) -> SourceCapabilities {
        self.capabilities()
    }

    fn capabilities(&self) -> SourceCapabilities {
        SourceCapabilities {
            streams_partial_results: true,
            revises_results: true,
            retracts_results: false,
            reports_progress: false,
            can_cancel: true,
        }
    }

    fn poll_events_into(
        &mut self,
        out: &mut SourceEventBuffer<DemoSubject>,
    ) -> PollOutcome {
        out.push(SourceSearchEvent::Begin {
            session_id: self.session_id,
            revision: Revision::new(0),
            capabilities: self.capabilities(),
        });
        out.push(SourceSearchEvent::ApplyPatch {
            session_id: self.session_id,
            revision: Revision::new(1),
            ops: vec![SourcePatchOp::Replace {
                result: SourceResult::new(
                    LocalResultId::new(9),
                    PortolanHit::new(
                        DemoSubject("camera.unknown"),
                        score(0.7),
                        RetrievalOrigin::VirtualScan,
                    ),
                ),
            }],
        });
        PollOutcome::with_event_count(2, true)
    }

    fn cancel(&mut self) {}
}

impl LiveSource<DemoSubject> for UnknownReplaceSource {
    fn opens(
        &self,
        _session_id: QuerySessionId,
        _query: PortolanQuery,
        _context: RetrievalContext,
        _budget: RetrievalBudget,
        _session: BoxedLiveSession<DemoSubject>,
    ) -> bool {
        true
    }

    fn begin_session(
        &self,
        session_id: QuerySessionId,
        _query: PortolanQuery,
        _context: RetrievalContext,
        _budget: RetrievalBudget,
    ) -> BoxedLiveSession<DemoSubject> {
        BoxedLiveSession::new(Box::new(UnknownReplaceSession { session_id }))
    }
}

impl StagedLiveSource<DemoSubject> for UnknownReplaceSource {
    fn stage_spec(&self) -> RouteStage {
        self.stage()
    }

    fn stage(&self) -> RouteStage {
        RouteStage::Virtual
    }
}

impl LiveSession<DemoSubject> for WrongSessionIdSession {
    fn lifted_spec(&self) -> Option<LiftedSnapshot<DemoSubject>> {
        None
    }

    fn capabilities_spec(&self) -> SourceCapabilities {
        self.capabilities()
    }

    fn capabilities(&self) -> SourceCapabilities {
        SourceCapabilities::snapshot()
    }

    fn poll_events_into(
        &mut self,
        out: &mut SourceEventBuffer<DemoSubject>,
    ) -> PollOutcome {
        out.push(SourceSearchEvent::Begin {
            session_id: QuerySessionId::new(self.session_id.get().saturating_add(1)),
            revision: Revision::new(0),
            capabilities: self.capabilities(),
        });
        PollOutcome::with_event_count(1, true)
    }

    fn cancel(&mut self) {}
}

impl LiveSource<DemoSubject> for WrongSessionIdSource {
    fn opens(
        &self,
        _session_id: QuerySessionId,
        _query: PortolanQuery,
        _context: RetrievalContext,
        _budget: RetrievalBudget,
        _session: BoxedLiveSession<DemoSubject>,
    ) -> bool {
        true
    }

    fn begin_session(
        &self,
        session_id: QuerySessionId,
        _query: PortolanQuery,
        _context: RetrievalContext,
        _budget: RetrievalBudget,
    ) -> BoxedLiveSession<DemoSubject> {
        BoxedLiveSession::new(Box::new(WrongSessionIdSession { session_id }))
    }
}

impl StagedLiveSource<DemoSubject> for WrongSessionIdSource {
    fn stage_spec(&self) -> RouteStage {
        self.stage()
    }

    fn stage(&self) -> RouteStage {
        RouteStage::Virtual
    }
}

impl LiveSession<DemoSubject> for InvalidMoveSession {
    fn lifted_spec(&self) -> Option<LiftedSnapshot<DemoSubject>> {
        None
    }

    fn capabilities_spec(&self) -> SourceCapabilities {
        self.capabilities()
    }

    fn capabilities(&self) -> SourceCapabilities {
        SourceCapabilities {
            streams_partial_results: true,
            revises_results: true,
            retracts_results: false,
            reports_progress: false,
            can_cancel: true,
        }
    }

    fn poll_events_into(
        &mut self,
        out: &mut SourceEventBuffer<DemoSubject>,
    ) -> PollOutcome {
        out.push(SourceSearchEvent::Begin {
            session_id: self.session_id,
            revision: Revision::new(0),
            capabilities: self.capabilities(),
        });
        out.push(SourceSearchEvent::ApplyPatch {
            session_id: self.session_id,
            revision: Revision::new(1),
            ops: vec![SourcePatchOp::Insert {
                result: SourceResult::new(
                    LocalResultId::new(0),
                    PortolanHit::new(
                        DemoSubject("camera.movable"),
                        score(0.4),
                        RetrievalOrigin::VirtualScan,
                    ),
                ),
            }],
        });
        out.push(SourceSearchEvent::ApplyPatch {
            session_id: self.session_id,
            revision: Revision::new(2),
            ops: vec![SourcePatchOp::MoveBefore {
                result_id: LocalResultId::new(0),
                anchor: Some(LocalResultId::new(0)),
            }],
        });
        PollOutcome::with_event_count(3, true)
    }

    fn cancel(&mut self) {}
}

impl LiveSource<DemoSubject> for InvalidMoveSource {
    fn opens(
        &self,
        _session_id: QuerySessionId,
        _query: PortolanQuery,
        _context: RetrievalContext,
        _budget: RetrievalBudget,
        _session: BoxedLiveSession<DemoSubject>,
    ) -> bool {
        true
    }

    fn begin_session(
        &self,
        session_id: QuerySessionId,
        _query: PortolanQuery,
        _context: RetrievalContext,
        _budget: RetrievalBudget,
    ) -> BoxedLiveSession<DemoSubject> {
        BoxedLiveSession::new(Box::new(InvalidMoveSession { session_id }))
    }
}

impl StagedLiveSource<DemoSubject> for InvalidMoveSource {
    fn stage_spec(&self) -> RouteStage {
        self.stage()
    }

    fn stage(&self) -> RouteStage {
        RouteStage::Virtual
    }
}

impl LiveSession<DemoSubject> for ReplaceWithoutCapabilitySession {
    fn lifted_spec(&self) -> Option<LiftedSnapshot<DemoSubject>> {
        None
    }

    fn capabilities_spec(&self) -> SourceCapabilities {
        self.capabilities()
    }

    fn capabilities(&self) -> SourceCapabilities {
        SourceCapabilities {
            streams_partial_results: true,
            revises_results: false,
            retracts_results: false,
            reports_progress: false,
            can_cancel: true,
        }
    }

    fn poll_events_into(
        &mut self,
        out: &mut SourceEventBuffer<DemoSubject>,
    ) -> PollOutcome {
        out.push(SourceSearchEvent::Begin {
            session_id: self.session_id,
            revision: Revision::new(0),
            capabilities: self.capabilities(),
        });
        out.push(SourceSearchEvent::ApplyPatch {
            session_id: self.session_id,
            revision: Revision::new(1),
            ops: vec![SourcePatchOp::Insert {
                result: SourceResult::new(
                    LocalResultId::new(5),
                    PortolanHit::new(
                        DemoSubject("camera.replaceable"),
                        score(0.2),
                        RetrievalOrigin::VirtualScan,
                    ),
                ),
            }],
        });
        out.push(SourceSearchEvent::ApplyPatch {
            session_id: self.session_id,
            revision: Revision::new(2),
            ops: vec![SourcePatchOp::Replace {
                result: SourceResult::new(
                    LocalResultId::new(5),
                    PortolanHit::new(
                        DemoSubject("camera.replaceable"),
                        score(0.8),
                        RetrievalOrigin::VirtualScan,
                    ),
                ),
            }],
        });
        PollOutcome::with_event_count(3, true)
    }

    fn cancel(&mut self) {}
}

impl LiveSource<DemoSubject> for ReplaceWithoutCapabilitySource {
    fn opens(
        &self,
        _session_id: QuerySessionId,
        _query: PortolanQuery,
        _context: RetrievalContext,
        _budget: RetrievalBudget,
        _session: BoxedLiveSession<DemoSubject>,
    ) -> bool {
        true
    }

    fn begin_session(
        &self,
        session_id: QuerySessionId,
        _query: PortolanQuery,
        _context: RetrievalContext,
        _budget: RetrievalBudget,
    ) -> BoxedLiveSession<DemoSubject> {
        BoxedLiveSession::new(Box::new(ReplaceWithoutCapabilitySession { session_id }))
    }
}

impl StagedLiveSource<DemoSubject> for ReplaceWithoutCapabilitySource {
    fn stage_spec(&self) -> RouteStage {
        self.stage()
    }

    fn stage(&self) -> RouteStage {
        RouteStage::Virtual
    }
}

impl LiveSession<DemoSubject> for RemoveWithoutCapabilitySession {
    fn lifted_spec(&self) -> Option<LiftedSnapshot<DemoSubject>> {
        None
    }

    fn capabilities_spec(&self) -> SourceCapabilities {
        self.capabilities()
    }

    fn capabilities(&self) -> SourceCapabilities {
        SourceCapabilities {
            streams_partial_results: true,
            revises_results: false,
            retracts_results: false,
            reports_progress: false,
            can_cancel: true,
        }
    }

    fn poll_events_into(
        &mut self,
        out: &mut SourceEventBuffer<DemoSubject>,
    ) -> PollOutcome {
        out.push(SourceSearchEvent::Begin {
            session_id: self.session_id,
            revision: Revision::new(0),
            capabilities: self.capabilities(),
        });
        out.push(SourceSearchEvent::ApplyPatch {
            session_id: self.session_id,
            revision: Revision::new(1),
            ops: vec![SourcePatchOp::Insert {
                result: SourceResult::new(
                    LocalResultId::new(6),
                    PortolanHit::new(
                        DemoSubject("camera.removable"),
                        score(0.3),
                        RetrievalOrigin::VirtualScan,
                    ),
                ),
            }],
        });
        out.push(SourceSearchEvent::ApplyPatch {
            session_id: self.session_id,
            revision: Revision::new(2),
            ops: vec![SourcePatchOp::Remove {
                result_id: LocalResultId::new(6),
            }],
        });
        PollOutcome::with_event_count(3, true)
    }

    fn cancel(&mut self) {}
}

impl LiveSource<DemoSubject> for RemoveWithoutCapabilitySource {
    fn opens(
        &self,
        _session_id: QuerySessionId,
        _query: PortolanQuery,
        _context: RetrievalContext,
        _budget: RetrievalBudget,
        _session: BoxedLiveSession<DemoSubject>,
    ) -> bool {
        true
    }

    fn begin_session(
        &self,
        session_id: QuerySessionId,
        _query: PortolanQuery,
        _context: RetrievalContext,
        _budget: RetrievalBudget,
    ) -> BoxedLiveSession<DemoSubject> {
        BoxedLiveSession::new(Box::new(RemoveWithoutCapabilitySession { session_id }))
    }
}

impl StagedLiveSource<DemoSubject> for RemoveWithoutCapabilitySource {
    fn stage_spec(&self) -> RouteStage {
        self.stage()
    }

    fn stage(&self) -> RouteStage {
        RouteStage::Virtual
    }
}

impl LiveSession<DemoSubject> for ProgressWithoutCapabilitySession {
    fn lifted_spec(&self) -> Option<LiftedSnapshot<DemoSubject>> {
        None
    }

    fn capabilities_spec(&self) -> SourceCapabilities {
        self.capabilities()
    }

    fn capabilities(&self) -> SourceCapabilities {
        SourceCapabilities {
            streams_partial_results: true,
            revises_results: false,
            retracts_results: false,
            reports_progress: false,
            can_cancel: true,
        }
    }

    fn poll_events_into(
        &mut self,
        out: &mut SourceEventBuffer<DemoSubject>,
    ) -> PollOutcome {
        out.push(SourceSearchEvent::Begin {
            session_id: self.session_id,
            revision: Revision::new(0),
            capabilities: self.capabilities(),
        });
        out.push(SourceSearchEvent::Progress {
            session_id: self.session_id,
            revision: Revision::new(1),
            progress: (),
        });
        PollOutcome::with_event_count(2, true)
    }

    fn cancel(&mut self) {}
}

impl LiveSource<DemoSubject> for ProgressWithoutCapabilitySource {
    fn opens(
        &self,
        _session_id: QuerySessionId,
        _query: PortolanQuery,
        _context: RetrievalContext,
        _budget: RetrievalBudget,
        _session: BoxedLiveSession<DemoSubject>,
    ) -> bool {
        true
    }

    fn begin_session(
        &self,
        session_id: QuerySessionId,
        _query: PortolanQuery,
        _context: RetrievalContext,
        _budget: RetrievalBudget,
    ) -> BoxedLiveSession<DemoSubject> {
        BoxedLiveSession::new(Box::new(ProgressWithoutCapabilitySession { session_id }))
    }
}

impl StagedLiveSource<DemoSubject> for ProgressWithoutCapabilitySource {
    fn stage_spec(&self) -> RouteStage {
        self.stage()
    }

    fn stage(&self) -> RouteStage {
        RouteStage::Virtual
    }
}

impl LiveSession<DemoSubject> for SubjectChangingReplaceSession {
    fn lifted_spec(&self) -> Option<LiftedSnapshot<DemoSubject>> {
        None
    }

    fn capabilities_spec(&self) -> SourceCapabilities {
        self.capabilities()
    }

    fn capabilities(&self) -> SourceCapabilities {
        SourceCapabilities {
            streams_partial_results: true,
            revises_results: true,
            retracts_results: false,
            reports_progress: false,
            can_cancel: true,
        }
    }

    fn poll_events_into(
        &mut self,
        out: &mut SourceEventBuffer<DemoSubject>,
    ) -> PollOutcome {
        out.push(SourceSearchEvent::Begin {
            session_id: self.session_id,
            revision: Revision::new(0),
            capabilities: self.capabilities(),
        });
        out.push(SourceSearchEvent::ApplyPatch {
            session_id: self.session_id,
            revision: Revision::new(1),
            ops: vec![SourcePatchOp::Insert {
                result: SourceResult::new(
                    LocalResultId::new(2),
                    PortolanHit::new(
                        DemoSubject("camera.original"),
                        score(0.4),
                        RetrievalOrigin::VirtualScan,
                    ),
                ),
            }],
        });
        out.push(SourceSearchEvent::ApplyPatch {
            session_id: self.session_id,
            revision: Revision::new(2),
            ops: vec![SourcePatchOp::Replace {
                result: SourceResult::new(
                    LocalResultId::new(2),
                    PortolanHit::new(
                        DemoSubject("camera.changed"),
                        score(0.9),
                        RetrievalOrigin::VirtualScan,
                    ),
                ),
            }],
        });
        PollOutcome::with_event_count(3, true)
    }

    fn cancel(&mut self) {}
}

impl LiveSource<DemoSubject> for SubjectChangingReplaceSource {
    fn opens(
        &self,
        _session_id: QuerySessionId,
        _query: PortolanQuery,
        _context: RetrievalContext,
        _budget: RetrievalBudget,
        _session: BoxedLiveSession<DemoSubject>,
    ) -> bool {
        true
    }

    fn begin_session(
        &self,
        session_id: QuerySessionId,
        _query: PortolanQuery,
        _context: RetrievalContext,
        _budget: RetrievalBudget,
    ) -> BoxedLiveSession<DemoSubject> {
        BoxedLiveSession::new(Box::new(SubjectChangingReplaceSession { session_id }))
    }
}

impl StagedLiveSource<DemoSubject> for SubjectChangingReplaceSource {
    fn stage_spec(&self) -> RouteStage {
        self.stage()
    }

    fn stage(&self) -> RouteStage {
        RouteStage::Virtual
    }
}

impl LiveSession<DemoSubject> for NonCancelableSession {
    fn lifted_spec(&self) -> Option<LiftedSnapshot<DemoSubject>> {
        None
    }

    fn capabilities_spec(&self) -> SourceCapabilities {
        self.capabilities()
    }

    fn capabilities(&self) -> SourceCapabilities {
        SourceCapabilities {
            streams_partial_results: true,
            revises_results: false,
            retracts_results: false,
            reports_progress: false,
            can_cancel: false,
        }
    }

    fn poll_events_into(
        &mut self,
        out: &mut SourceEventBuffer<DemoSubject>,
    ) -> PollOutcome {
        out.push(SourceSearchEvent::Begin {
            session_id: self.session_id,
            revision: Revision::new(0),
            capabilities: self.capabilities(),
        });
        out.push(SourceSearchEvent::ApplyPatch {
            session_id: self.session_id,
            revision: Revision::new(1),
            ops: vec![SourcePatchOp::Insert {
                result: SourceResult::new(
                    LocalResultId::new(0),
                    PortolanHit::new(
                        DemoSubject("camera.non_cancelable"),
                        score(0.2),
                        RetrievalOrigin::VirtualScan,
                    ),
                ),
            }],
        });
        PollOutcome::with_event_count(2, false)
    }

    fn cancel(&mut self) {}
}

impl LiveSource<DemoSubject> for NonCancelableSource {
    fn opens(
        &self,
        _session_id: QuerySessionId,
        _query: PortolanQuery,
        _context: RetrievalContext,
        _budget: RetrievalBudget,
        _session: BoxedLiveSession<DemoSubject>,
    ) -> bool {
        true
    }

    fn begin_session(
        &self,
        session_id: QuerySessionId,
        _query: PortolanQuery,
        _context: RetrievalContext,
        _budget: RetrievalBudget,
    ) -> BoxedLiveSession<DemoSubject> {
        BoxedLiveSession::new(Box::new(NonCancelableSession { session_id }))
    }
}

impl StagedLiveSource<DemoSubject> for NonCancelableSource {
    fn stage_spec(&self) -> RouteStage {
        self.stage()
    }

    fn stage(&self) -> RouteStage {
        RouteStage::Virtual
    }
}

impl LiveSession<DemoSubject> for IgnoringCancelSession {
    fn lifted_spec(&self) -> Option<LiftedSnapshot<DemoSubject>> {
        None
    }

    fn capabilities_spec(&self) -> SourceCapabilities {
        self.capabilities()
    }

    fn capabilities(&self) -> SourceCapabilities {
        SourceCapabilities {
            streams_partial_results: true,
            revises_results: false,
            retracts_results: false,
            reports_progress: false,
            can_cancel: true,
        }
    }

    fn poll_events_into(
        &mut self,
        out: &mut SourceEventBuffer<DemoSubject>,
    ) -> PollOutcome {
        let subject = if self.canceled {
            DemoSubject("camera.after_cancel")
        } else {
            DemoSubject("camera.before_cancel")
        };
        out.push(SourceSearchEvent::Begin {
            session_id: self.session_id,
            revision: Revision::new(0),
            capabilities: self.capabilities(),
        });
        out.push(SourceSearchEvent::ApplyPatch {
            session_id: self.session_id,
            revision: Revision::new(1),
            ops: vec![SourcePatchOp::Insert {
                result: SourceResult::new(
                    LocalResultId::new(0),
                    PortolanHit::new(subject, score(0.3), RetrievalOrigin::VirtualScan),
                ),
            }],
        });
        PollOutcome::with_event_count(2, false)
    }

    fn cancel(&mut self) {
        self.canceled = true;
    }
}

impl LiveSource<DemoSubject> for IgnoringCancelSource {
    fn opens(
        &self,
        _session_id: QuerySessionId,
        _query: PortolanQuery,
        _context: RetrievalContext,
        _budget: RetrievalBudget,
        _session: BoxedLiveSession<DemoSubject>,
    ) -> bool {
        true
    }

    fn begin_session(
        &self,
        session_id: QuerySessionId,
        _query: PortolanQuery,
        _context: RetrievalContext,
        _budget: RetrievalBudget,
    ) -> BoxedLiveSession<DemoSubject> {
        BoxedLiveSession::new(Box::new(IgnoringCancelSession {
            session_id,
            canceled: false,
        }))
    }
}

impl StagedLiveSource<DemoSubject> for IgnoringCancelSource {
    fn stage_spec(&self) -> RouteStage {
        self.stage()
    }

    fn stage(&self) -> RouteStage {
        RouteStage::Virtual
    }
}

#[test]
fn snapshot_live_source_emits_begin_patch_and_complete() {
    let source = SnapshotLiveSource::new(DemoSnapshotSource);
    let mut session: BoxedLiveSession<DemoSubject> = source.begin_session(
        QuerySessionId::new(1),
        PortolanQuery::<(), ()>::text("camera"),
        RetrievalContext::default(),
        RetrievalBudget::interactive_default(),
    );
    let mut buffer = SourceEventBuffer::new();
    let outcome = session.poll_events_into(&mut buffer);

    assert_eq!(outcome.emitted_events, 3);
    assert!(outcome.terminal);
    assert!(matches!(
        &buffer.as_slice()[0],
        SourceSearchEvent::Begin {
            capabilities,
            ..
        } if *capabilities == SourceCapabilities::snapshot()
    ));
    assert!(matches!(
        &buffer.as_slice()[1],
        SourceSearchEvent::ApplyPatch { ops, .. }
            if matches!(
                &ops[0],
                SourcePatchOp::Insert { result }
                    if result.id == LocalResultId::new(0)
                    && result.hit.subject == DemoSubject("camera.main")
            )
    ));
    assert!(matches!(
        &buffer.as_slice()[2],
        SourceSearchEvent::StatusChanged { status, .. }
            if status.state == SourceState::Complete
    ));
}

#[test]
fn canceled_snapshot_live_source_emits_begin_then_canceled() {
    let source = SnapshotLiveSource::new(DemoSnapshotSource);
    let mut session: BoxedLiveSession<DemoSubject> = source.begin_session(
        QuerySessionId::new(1),
        PortolanQuery::<(), ()>::text("camera"),
        RetrievalContext::default(),
        RetrievalBudget::interactive_default(),
    );
    session.cancel();
    let mut buffer = SourceEventBuffer::new();
    let outcome = session.poll_events_into(&mut buffer);

    assert_eq!(outcome.emitted_events, 2);
    assert!(outcome.terminal);
    assert!(matches!(
        buffer.as_slice()[0],
        SourceSearchEvent::Begin { .. }
    ));
    assert!(matches!(
        &buffer.as_slice()[1],
        SourceSearchEvent::StatusChanged { status, .. }
            if status.state == SourceState::Canceled
    ));
}

#[test]
fn coordinator_translates_source_local_ids_into_session_ids() {
    let snapshot = SnapshotLiveSource::new(DemoSnapshotSource);
    let progressive = ProgressiveSource;
    let sources = [
        (
            "materialized",
            &snapshot as &dyn StagedLiveSource<DemoSubject>,
        ),
        (
            "virtual",
            &progressive as &dyn StagedLiveSource<DemoSubject>,
        ),
    ];
    let mut coordinator = LiveCoordinator::new();
    let mut session = coordinator.begin_session(
        RoutePlan::standard(),
        &sources,
        PortolanQuery::<(), ()>::text("camera"),
        RetrievalContext::default(),
        RetrievalBudget::interactive_default(),
    );
    let mut buffer = SearchEventBuffer::new();

    let first = session.poll_events_into(&mut buffer);
    assert!(!first.terminal);

    let second = session.poll_events_into(&mut buffer);
    assert!(!second.terminal);

    let third = session.poll_events_into(&mut buffer);
    assert!(!third.terminal);

    let fourth = session.poll_events_into(&mut buffer);
    assert!(fourth.terminal);

    let events = buffer.take();
    assert!(matches!(
        &events[0],
        SearchEvent::SessionStarted { session_id }
            if *session_id == QuerySessionId::new(1)
    ));
    assert!(matches!(
        &events[1],
        SearchEvent::SourceStarted { source, stage, .. }
            if *source == "materialized" && *stage == RouteStage::Materialized
    ));
    assert!(matches!(
        &events[2],
        SearchEvent::ApplyPatch { source, ops, .. }
            if *source == "materialized"
                && matches!(
                    &ops[0],
                    SessionPatchOp::Insert { result }
                        if result.id
                            == SessionResultId::new(
                                SourceSlot::new(0),
                                LocalResultId::new(0)
                            )
                )
    ));
    assert!(matches!(
        events.last(),
        Some(SearchEvent::SessionFinished { session_id, .. })
            if *session_id == QuerySessionId::new(1)
    ));
}

#[test]
fn coordinator_fails_source_that_patches_before_begin() {
    let malformed = MalformedPatchSource;
    let sources = [("virtual", &malformed as &dyn StagedLiveSource<DemoSubject>)];
    let mut coordinator = LiveCoordinator::new();
    let mut session = coordinator.begin_session(
        RoutePlan::standard(),
        &sources,
        PortolanQuery::<(), ()>::text("camera"),
        RetrievalContext::default(),
        RetrievalBudget::interactive_default(),
    );
    let mut buffer = SearchEventBuffer::new();

    let poll = session.poll_events_into(&mut buffer);
    assert!(poll.terminal);

    let events = buffer.take();
    assert!(matches!(events[0], SearchEvent::SessionStarted { .. }));
    assert!(matches!(
        &events[1],
        SearchEvent::StatusChanged { source, status, .. }
            if *source == "virtual" && status.state == SourceState::Failed
    ));
    assert!(matches!(events[2], SearchEvent::SessionFinished { .. }));
}

#[test]
fn coordinator_fails_source_on_stale_revision() {
    let malformed = StaleRevisionSource;
    let sources = [("virtual", &malformed as &dyn StagedLiveSource<DemoSubject>)];
    let mut coordinator = LiveCoordinator::new();
    let mut session = coordinator.begin_session(
        RoutePlan::standard(),
        &sources,
        PortolanQuery::<(), ()>::text("camera"),
        RetrievalContext::default(),
        RetrievalBudget::interactive_default(),
    );
    let mut buffer = SearchEventBuffer::new();

    let poll = session.poll_events_into(&mut buffer);
    assert!(poll.terminal);

    let events = buffer.take();
    assert!(matches!(
        &events[1],
        SearchEvent::SourceStarted { source, .. } if *source == "virtual"
    ));
    assert!(matches!(
        &events[2],
        SearchEvent::StatusChanged { source, status, .. }
            if *source == "virtual" && status.state == SourceState::Failed
    ));
}

#[test]
fn coordinator_fails_source_on_unknown_replace_id() {
    let malformed = UnknownReplaceSource;
    let sources = [("virtual", &malformed as &dyn StagedLiveSource<DemoSubject>)];
    let mut coordinator = LiveCoordinator::new();
    let mut session = coordinator.begin_session(
        RoutePlan::standard(),
        &sources,
        PortolanQuery::<(), ()>::text("camera"),
        RetrievalContext::default(),
        RetrievalBudget::interactive_default(),
    );
    let mut buffer = SearchEventBuffer::new();

    let poll = session.poll_events_into(&mut buffer);
    assert!(poll.terminal);

    let events = buffer.take();
    assert!(matches!(
        &events[1],
        SearchEvent::SourceStarted { source, .. } if *source == "virtual"
    ));
    assert!(matches!(
        &events[2],
        SearchEvent::StatusChanged { source, status, .. }
            if *source == "virtual" && status.state == SourceState::Failed
    ));
}

#[test]
fn coordinator_fails_source_on_mismatched_session_id() {
    let malformed = WrongSessionIdSource;
    let sources = [("virtual", &malformed as &dyn StagedLiveSource<DemoSubject>)];
    let mut coordinator = LiveCoordinator::new();
    let mut session = coordinator.begin_session(
        RoutePlan::standard(),
        &sources,
        PortolanQuery::<(), ()>::text("camera"),
        RetrievalContext::default(),
        RetrievalBudget::interactive_default(),
    );
    let mut buffer = SearchEventBuffer::new();

    let poll = session.poll_events_into(&mut buffer);
    assert!(poll.terminal);

    let events = buffer.take();
    assert!(matches!(
        &events[1],
        SearchEvent::StatusChanged { source, status, .. }
            if *source == "virtual" && status.state == SourceState::Failed
    ));
}

#[test]
fn coordinator_fails_source_on_invalid_move_anchor() {
    let malformed = InvalidMoveSource;
    let sources = [("virtual", &malformed as &dyn StagedLiveSource<DemoSubject>)];
    let mut coordinator = LiveCoordinator::new();
    let mut session = coordinator.begin_session(
        RoutePlan::standard(),
        &sources,
        PortolanQuery::<(), ()>::text("camera"),
        RetrievalContext::default(),
        RetrievalBudget::interactive_default(),
    );
    let mut buffer = SearchEventBuffer::new();

    let poll = session.poll_events_into(&mut buffer);
    assert!(poll.terminal);

    let events = buffer.take();
    assert!(matches!(
        &events[1],
        SearchEvent::SourceStarted { source, .. } if *source == "virtual"
    ));
    assert!(matches!(
        &events[3],
        SearchEvent::StatusChanged { source, status, .. }
            if *source == "virtual" && status.state == SourceState::Failed
    ));
}

#[test]
fn coordinator_fails_source_on_subject_changing_replace() {
    let malformed = SubjectChangingReplaceSource;
    let sources = [("virtual", &malformed as &dyn StagedLiveSource<DemoSubject>)];
    let mut coordinator = LiveCoordinator::new();
    let mut session = coordinator.begin_session(
        RoutePlan::standard(),
        &sources,
        PortolanQuery::<(), ()>::text("camera"),
        RetrievalContext::default(),
        RetrievalBudget::interactive_default(),
    );
    let mut buffer = SearchEventBuffer::new();

    let poll = session.poll_events_into(&mut buffer);
    assert!(poll.terminal);

    let events = buffer.take();
    assert!(matches!(
        &events[1],
        SearchEvent::SourceStarted { source, .. } if *source == "virtual"
    ));
    assert!(matches!(
        &events[3],
        SearchEvent::StatusChanged { source, status, .. }
            if *source == "virtual" && status.state == SourceState::Failed
    ));
}

#[test]
fn coordinator_fails_source_when_replace_violates_capabilities() {
    let malformed = ReplaceWithoutCapabilitySource;
    let sources = [("virtual", &malformed as &dyn StagedLiveSource<DemoSubject>)];
    let mut coordinator = LiveCoordinator::new();
    let mut session = coordinator.begin_session(
        RoutePlan::standard(),
        &sources,
        PortolanQuery::<(), ()>::text("camera"),
        RetrievalContext::default(),
        RetrievalBudget::interactive_default(),
    );
    let mut buffer = SearchEventBuffer::new();

    let poll = session.poll_events_into(&mut buffer);
    assert!(poll.terminal);

    let events = buffer.take();
    assert!(matches!(
        &events[1],
        SearchEvent::SourceStarted { source, .. } if *source == "virtual"
    ));
    assert!(matches!(
        &events[3],
        SearchEvent::StatusChanged { source, status, .. }
            if *source == "virtual" && status.state == SourceState::Failed
    ));
}

#[test]
fn coordinator_fails_source_when_remove_violates_capabilities() {
    let malformed = RemoveWithoutCapabilitySource;
    let sources = [("virtual", &malformed as &dyn StagedLiveSource<DemoSubject>)];
    let mut coordinator = LiveCoordinator::new();
    let mut session = coordinator.begin_session(
        RoutePlan::standard(),
        &sources,
        PortolanQuery::<(), ()>::text("camera"),
        RetrievalContext::default(),
        RetrievalBudget::interactive_default(),
    );
    let mut buffer = SearchEventBuffer::new();

    let poll = session.poll_events_into(&mut buffer);
    assert!(poll.terminal);

    let events = buffer.take();
    assert!(matches!(
        &events[1],
        SearchEvent::SourceStarted { source, .. } if *source == "virtual"
    ));
    assert!(matches!(
        &events[3],
        SearchEvent::StatusChanged { source, status, .. }
            if *source == "virtual" && status.state == SourceState::Failed
    ));
}

#[test]
fn coordinator_fails_source_when_progress_violates_capabilities() {
    let malformed = ProgressWithoutCapabilitySource;
    let sources = [("virtual", &malformed as &dyn StagedLiveSource<DemoSubject>)];
    let mut coordinator = LiveCoordinator::new();
    let mut session = coordinator.begin_session(
        RoutePlan::standard(),
        &sources,
        PortolanQuery::<(), ()>::text("camera"),
        RetrievalContext::default(),
        RetrievalBudget::interactive_default(),
    );
    let mut buffer = SearchEventBuffer::new();

    let poll = session.poll_events_into(&mut buffer);
    assert!(poll.terminal);

    let events = buffer.take();
    assert!(matches!(
        &events[1],
        SearchEvent::SourceStarted { source, .. } if *source == "virtual"
    ));
    assert!(matches!(
        &events[2],
        SearchEvent::StatusChanged { source, status, .. }
            if *source == "virtual" && status.state == SourceState::Failed
    ));
}

#[test]
fn cancel_marks_non_cooperative_source_canceled() {
    let source = IgnoringCancelSource;
    let sources = [("virtual", &source as &dyn StagedLiveSource<DemoSubject>)];
    let mut coordinator = LiveCoordinator::new();
    let mut session = coordinator.begin_session(
        RoutePlan::standard(),
        &sources,
        PortolanQuery::<(), ()>::text("camera"),
        RetrievalContext::default(),
        RetrievalBudget::interactive_default(),
    );
    let mut buffer = SearchEventBuffer::new();

    let first = session.poll_events_into(&mut buffer);
    assert!(!first.terminal);
    session.cancel();

    let second = session.poll_events_into(&mut buffer);
    assert!(second.terminal);

    let events = buffer.take();
    assert!(events.iter().any(|event| {
        matches!(
            event,
            SearchEvent::StatusChanged { source, status, .. }
                if *source == "virtual" && status.state == SourceState::Canceled
        )
    }));
    assert!(
        events
            .iter()
            .any(|event| matches!(event, SearchEvent::SessionFinished { .. }))
    );
}

#[test]
fn cancel_before_first_poll_emits_source_started_then_canceled() {
    let source = IgnoringCancelSource;
    let sources = [("virtual", &source as &dyn StagedLiveSource<DemoSubject>)];
    let mut coordinator = LiveCoordinator::new();
    let mut session = coordinator.begin_session(
        RoutePlan::standard(),
        &sources,
        PortolanQuery::<(), ()>::text("camera"),
        RetrievalContext::default(),
        RetrievalBudget::interactive_default(),
    );
    let mut buffer = SearchEventBuffer::new();

    session.cancel();
    let poll = session.poll_events_into(&mut buffer);
    assert!(poll.terminal);

    let events = buffer.take();
    assert!(matches!(events[0], SearchEvent::SessionStarted { .. }));
    assert!(matches!(
        &events[1],
        SearchEvent::SourceStarted { source, .. } if *source == "virtual"
    ));
    assert!(matches!(
        &events[2],
        SearchEvent::StatusChanged { source, status, .. }
            if *source == "virtual" && status.state == SourceState::Canceled
    ));
    assert!(matches!(events[3], SearchEvent::SessionFinished { .. }));
}

#[test]
fn cancel_marks_non_cancelable_source_stale() {
    let source = NonCancelableSource;
    let sources = [("virtual", &source as &dyn StagedLiveSource<DemoSubject>)];
    let mut coordinator = LiveCoordinator::new();
    let mut session = coordinator.begin_session(
        RoutePlan::standard(),
        &sources,
        PortolanQuery::<(), ()>::text("camera"),
        RetrievalContext::default(),
        RetrievalBudget::interactive_default(),
    );
    let mut buffer = SearchEventBuffer::new();

    let first = session.poll_events_into(&mut buffer);
    assert!(!first.terminal);
    session.cancel();

    let second = session.poll_events_into(&mut buffer);
    assert!(second.terminal);

    let events = buffer.take();
    assert!(events.iter().any(|event| {
        matches!(
            event,
            SearchEvent::StatusChanged { source, status, .. }
                if *source == "virtual" && status.state == SourceState::Stale
        )
    }));
}

#[test]
fn cancel_before_first_poll_emits_source_started_then_stale() {
    let source = NonCancelableSource;
    let sources = [("virtual", &source as &dyn StagedLiveSource<DemoSubject>)];
    let mut coordinator = LiveCoordinator::new();
    let mut session = coordinator.begin_session(
        RoutePlan::standard(),
        &sources,
        PortolanQuery::<(), ()>::text("camera"),
        RetrievalContext::default(),
        RetrievalBudget::interactive_default(),
    );
    let mut buffer = SearchEventBuffer::new();

    session.cancel();
    let poll = session.poll_events_into(&mut buffer);
    assert!(poll.terminal);

    let events = buffer.take();
    assert!(matches!(events[0], SearchEvent::SessionStarted { .. }));
    assert!(matches!(
        &events[1],
        SearchEvent::SourceStarted { source, .. } if *source == "virtual"
    ));
    assert!(matches!(
        &events[2],
        SearchEvent::StatusChanged { source, status, .. }
            if *source == "virtual" && status.state == SourceState::Stale
    ));
    assert!(matches!(events[3], SearchEvent::SessionFinished { .. }));
}

#[test]
fn snapshot_session_settles_after_one_poll() {
    let source = SnapshotLiveSource::new(DemoSnapshotSource);
    let mut session: BoxedLiveSession<DemoSubject> = source.begin_session(
        QuerySessionId::new(7),
        PortolanQuery::<(), ()>::text("camera"),
        RetrievalContext::default(),
        RetrievalBudget::interactive_default(),
    );
    let mut buffer = SourceEventBuffer::new();
    let first = session.poll_events_into(&mut buffer);
    assert_eq!(first.emitted_events, 3);
    let second = session.poll_events_into(&mut buffer);
    assert_eq!(second, PollOutcome::with_event_count(0, true));
    session.cancel();
    let third = session.poll_events_into(&mut buffer);
    assert_eq!(third, PollOutcome::with_event_count(0, true));
    assert_eq!(buffer.len(), 3);

    let events = buffer.take();
    assert!(buffer.is_empty());
    let revisions: Vec<u64> = events
        .iter()
        .map(|event| match event {
            SourceSearchEvent::Begin { revision, .. }
            | SourceSearchEvent::ApplyPatch { revision, .. }
            | SourceSearchEvent::Progress { revision, .. }
            | SourceSearchEvent::StatusChanged { revision, .. } => revision.get(),
        })
        .collect();
    assert_eq!(revisions, vec![0, 1, 2]);
    assert!(events.iter().all(|event| match event {
        SourceSearchEvent::Begin { session_id, .. }
        | SourceSearchEvent::ApplyPatch { session_id, .. }
        | SourceSearchEvent::Progress { session_id, .. }
        | SourceSearchEvent::StatusChanged { session_id, .. } => session_id.get() == 7,
    }));
}

#[derive(Clone, Copy, Debug)]
struct ManyHitsSource;

impl RetrievalSource<DemoSubject> for ManyHitsSource {
    fn retrieved(
        &self,
        query: &PortolanQuery,
        context: &RetrievalContext,
        budget: RetrievalBudget,
    ) -> Vec<PortolanHit<DemoSubject>> {
        let mut out = CandidateBuffer::new();
        self.retrieve_into(query, context, budget, &mut out);
        out.into_hits()
    }

    fn retrieve_into(
        &self,
        _query: &PortolanQuery,
        _context: &RetrievalContext,
        _budget: RetrievalBudget,
        out: &mut CandidateBuffer<DemoSubject>,
    ) {
        for name in ["a", "b", "c"] {
            out.push(PortolanHit::new(DemoSubject(name), score(0.5), RetrievalOrigin::Derived));
        }
    }
}

impl StagedSnapshotSource<DemoSubject> for ManyHitsSource {
    fn stage_spec(&self) -> RouteStage {
        self.stage()
    }

    fn stage(&self) -> RouteStage {
        RouteStage::Contextual
    }
}

#[test]
fn snapshot_patch_numbers_hits_in_order() {
    let source = SnapshotLiveSource::new(ManyHitsSource);
    assert_eq!(
        StagedLiveSource::<DemoSubject>::stage(&source),
        RouteStage::Contextual
    );
    let mut session: BoxedLiveSession<DemoSubject> = source.begin_session(
        QuerySessionId::new(2),
        PortolanQuery::<(), ()>::text("x"),
        RetrievalContext::default(),
        RetrievalBudget::interactive_default(),
    );
    assert_eq!(session.capabilities(), SourceCapabilities::snapshot());
    let mut buffer = SourceEventBuffer::new();
    session.poll_events_into(&mut buffer);
    match &buffer.as_slice()[1] {
        SourceSearchEvent::ApplyPatch { ops, revision, .. } => {
            assert_eq!(*revision, Revision::new(1));
            let numbered: Vec<(u64, DemoSubject)> = ops
                .iter()
                .map(|op| match op {
                    SourcePatchOp::Insert { result } => (result.id.get(), result.hit.subject.clone()),
                    _ => panic!("snapshot patches only insert"),
                })
                .collect();
            assert_eq!(
                numbered,
                vec![(0, DemoSubject("a")), (1, DemoSubject("b")), (2, DemoSubject("c"))]
            );
        }
        _ => panic!("second event is the patch"),
    }
    let inner = source.into_inner();
    let mut direct = CandidateBuffer::new();
    inner.retrieve_into(
        &PortolanQuery::<(), ()>::text("x"),
        &RetrievalContext::default(),
        RetrievalBudget::interactive_default(),
        &mut direct,
    );
    assert_eq!(direct.len(), 3);
}

#[test]
fn coordinator_assigns_fresh_session_ids_and_stamps_revisions() {
    let snapshot = SnapshotLiveSource::new(DemoSnapshotSource);
    let sources = [("materialized", &snapshot as &dyn StagedLiveSource<DemoSubject>)];
    let mut coordinator = LiveCoordinator::new();
    let first = coordinator.begin_session(
        RoutePlan::standard(),
        &sources,
        PortolanQuery::<(), ()>::text("camera"),
        RetrievalContext::default(),
        RetrievalBudget::interactive_default(),
    );
    let mut second = coordinator.begin_session(
        RoutePlan::standard(),
        &sources,
        PortolanQuery::<(), ()>::text("camera"),
        RetrievalContext::default(),
        RetrievalBudget::interactive_default(),
    );
    assert_eq!(first.session_id(), QuerySessionId::new(1));
    assert_eq!(second.session_id(), QuerySessionId::new(2));

    let mut buffer = SearchEventBuffer::new();
    let poll = second.poll_events_into(&mut buffer);
    assert!(poll.terminal);
    assert_eq!(poll.emitted_events as usize, buffer.len());
    let events = buffer.take();
    assert!(matches!(
        events[0],
        SearchEvent::SessionStarted { session_id } if session_id == QuerySessionId::new(2)
    ));
    let revisions: Vec<u64> = events[1..]
        .iter()
        .map(|event| match event {
            SearchEvent::SourceStarted { revision, .. }
            | SearchEvent::ApplyPatch { revision, .. }
            | SearchEvent::Progress { revision, .. }
            | SearchEvent::StatusChanged { revision, .. }
            | SearchEvent::SessionFinished { revision, .. } => revision.get(),
            SearchEvent::SessionStarted { .. } => panic!("started only once"),
        })
        .collect();
    assert_eq!(revisions, vec![0, 1, 2, 3]);

    let again = second.poll_events_into(&mut buffer);
    assert!(again.terminal);
    assert_eq!(again.emitted_events, 0);
    assert!(buffer.is_empty());
}

#[test]
fn coordinator_opens_sources_in_stage_order() {
    let progressive = ProgressiveSource;
    let snapshot = SnapshotLiveSource::new(DemoSnapshotSource);
    let sources = [
        ("virtual", &progressive as &dyn StagedLiveSource<DemoSubject>),
        ("materialized", &snapshot as &dyn StagedLiveSource<DemoSubject>),
    ];
    let mut coordinator = LiveCoordinator::default();
    let mut session = coordinator.begin_session(
        RoutePlan::standard(),
        &sources,
        PortolanQuery::<(), ()>::text("camera"),
        RetrievalContext::default(),
        RetrievalBudget::interactive_default(),
    );
    let mut buffer = SearchEventBuffer::new();
    session.poll_events_into(&mut buffer);
    let started: Vec<&str> = buffer
        .as_slice()
        .iter()
        .filter_map(|event| match event {
            SearchEvent::SourceStarted { source, .. } => Some(*source),
            _ => None,
        })
        .collect();
    assert_eq!(started, vec!["materialized", "virtual"]);
    let slots: Vec<u16> = buffer
        .as_slice()
        .iter()
        .filter_map(|event| match event {
            SearchEvent::ApplyPatch { ops, .. } => match &ops[0] {
                SessionPatchOp::Insert { result } => Some(result.id.source_slot.get()),
                _ => None,
            },
            _ => None,
        })
        .collect();
    assert_eq!(slots, vec![0]);
}

#[test]
fn status_and_id_helpers() {
    assert!(SourceState::Complete.is_terminal());
    assert!(SourceState::Failed.is_terminal());
    assert!(SourceState::Canceled.is_terminal());
    assert!(SourceState::Stale.is_terminal());
    assert!(!SourceState::Running.is_terminal());
    assert!(!SourceState::Partial.is_terminal());

    let status = StatusUpdate::new(SourceState::Partial).with_detail("half");
    assert_eq!(status.state, SourceState::Partial);
    assert_eq!(status.detail, Some("half"));

    let caps = SourceCapabilities::default();
    assert!(!caps.can_cancel && !caps.streams_partial_results);
    let snapshot = SourceCapabilities::snapshot();
    assert!(snapshot.can_cancel && !snapshot.revises_results && !snapshot.retracts_results);

    let id = SessionResultId::new(SourceSlot::new(3), LocalResultId::new(9));
    assert_eq!(id.source_slot.get(), 3);
    assert_eq!(id.local.get(), 9);
    assert_ne!(id, SessionResultId::new(SourceSlot::new(4), LocalResultId::new(9)));
    assert_eq!(QuerySessionId::new(11).get(), 11);
    assert_eq!(Revision::new(12).get(), 12);

    let outcome = PollOutcome::with_event_count(4, false);
    assert_eq!(outcome.emitted_events, 4);
    assert!(!outcome.terminal);
    assert_eq!(PollOutcome::default(), PollOutcome::with_event_count(0, false));
}

#[test]
fn failed_source_stays_silent_in_later_polls() {
    let malformed = MalformedPatchSource;
    let progressive = ProgressiveSource;
    let sources = [
        ("broken", &malformed as &dyn StagedLiveSource<DemoSubject>),
        ("progressive", &progressive as &dyn StagedLiveSource<DemoSubject>),
    ];
    let mut coordinator = LiveCoordinator::new();
    let mut session = coordinator.begin_session(
        RoutePlan::standard(),
        &sources,
        PortolanQuery::<(), ()>::text("camera"),
        RetrievalContext::default(),
        RetrievalBudget::interactive_default(),
    );
    let mut buffer = SearchEventBuffer::new();

    let first = session.poll_events_into(&mut buffer);
    assert!(!first.terminal);
    let after_first = buffer.len();
    assert_eq!(first.emitted_events as usize, after_first);
    let failed: Vec<usize> = (0..after_first)
        .filter(|&j| {
            matches!(
                &buffer.as_slice()[j],
                SearchEvent::StatusChanged { source, status, .. }
                    if *source == "broken" && status.state == SourceState::Failed
            )
        })
        .collect();
    assert_eq!(failed.len(), 1);

    let mut total = first.emitted_events as usize;
    let mut terminal = false;
    for _ in 0..8 {
        let poll = session.poll_events_into(&mut buffer);
        total += poll.emitted_events as usize;
        if poll.terminal {
            terminal = true;
            break;
        }
    }
    assert!(terminal);
    assert_eq!(total, buffer.len());

    let events = buffer.take();
    assert!(events[after_first..].iter().all(|event| !matches!(
        event,
        SearchEvent::SourceStarted { source, .. }
            | SearchEvent::ApplyPatch { source, .. }
            | SearchEvent::Progress { source, .. }
            | SearchEvent::StatusChanged { source, .. } if *source == "broken"
    )));
    let started = events
        .iter()
        .filter(|event| matches!(event, SearchEvent::SessionStarted { .. }))
        .count();
    assert_eq!(started, 1);
    assert!(matches!(events[0], SearchEvent::SessionStarted { .. }));
    let finished: Vec<usize> = (0..events.len())
        .filter(|&j| matches!(events[j], SearchEvent::SessionFinished { .. }))
        .collect();
    assert_eq!(finished, vec![events.len() - 1]);
}

#[derive(Clone)]
struct CountingSnapshotSource {
    runs: std::rc::Rc<std::cell::Cell<u32>>,
}

impl RetrievalSource<DemoSubject> for CountingSnapshotSource {
    fn retrieved(
        &self,
        query: &PortolanQuery,
        context: &RetrievalContext,
        budget: RetrievalBudget,
    ) -> Vec<PortolanHit<DemoSubject>> {
        let mut out = CandidateBuffer::new();
        DemoSnapshotSource.retrieve_into(query, context, budget, &mut out);
        out.into_hits()
    }

    fn retrieve_into(
        &self,
        query: &PortolanQuery,
        context: &RetrievalContext,
        budget: RetrievalBudget,
        out: &mut CandidateBuffer<DemoSubject>,
    ) {
        self.runs.set(self.runs.get() + 1);
        DemoSnapshotSource.retrieve_into(query, context, budget, out);
    }
}

#[test]
fn snapshot_session_runs_its_source_at_most_once() {
    let runs = std::rc::Rc::new(std::cell::Cell::new(0));
    let source = SnapshotLiveSource::new(CountingSnapshotSource { runs: runs.clone() });

    let mut canceled: BoxedLiveSession<DemoSubject> = source.begin_session(
        QuerySessionId::new(1),
        PortolanQuery::<(), ()>::text("camera"),
        RetrievalContext::default(),
        RetrievalBudget::interactive_default(),
    );
    canceled.cancel();
    let mut buffer = SourceEventBuffer::new();
    for _ in 0..3 {
        canceled.poll_events_into(&mut buffer);
    }
    assert_eq!(runs.get(), 0);

    let mut live: BoxedLiveSession<DemoSubject> = source.begin_session(
        QuerySessionId::new(2),
        PortolanQuery::<(), ()>::text("camera"),
        RetrievalContext::default(),
        RetrievalBudget::interactive_default(),
    );
    for _ in 0..3 {
        live.poll_events_into(&mut buffer);
    }
    assert_eq!(runs.get(), 1);
}

#[test]
fn revisions_order_by_value() {
    assert!(Revision::new(3) < Revision::new(5));
    assert!(Revision::new(5) > Revision::new(3));
    assert!(Revision::new(4) <= Revision::new(4));
    assert_eq!(
        Revision::new(7).partial_cmp(&Revision::new(2)),
        Some(std::cmp::Ordering::Greater)
    );
    assert_eq!(Revision::new(1).max(Revision::new(9)), Revision::new(9));
}
