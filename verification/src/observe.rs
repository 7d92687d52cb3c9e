//! Retrieval trace records.

use vstd::prelude::*;
use crate::query::converts_to;

use crate::base::RetrievalBudget;

verus! {

/// One source visit during retrieval execution.
#[derive(Clone, Debug, PartialEq, Eq)]
pub struct SourceVisit<Stage> {
    /// Stage in which the source ran.
    pub stage: Stage,
    /// Human-readable source label.
    pub source: String,
}

/// Why a retrieval pass stopped before exhausting its plan.
#[derive(Clone, Copy, Debug, PartialEq, Eq, Hash, Structural)]
pub enum StopReason<Stage> {
    /// One stage emitted at least the per-stage hit limit.
    StageHitLimitReached {
        /// Stage that reached the limit.
        stage: Stage,
        /// Hits emitted by that stage.
        hits_emitted: u32,
    },
    /// The pass emitted at least the total hit limit.
    TotalHitLimitReached {
        /// Stage after which the limit was reached.
        stage: Stage,
        /// Hits emitted by the whole pass so far.
        hits_emitted: u32,
    },
}

/// Trace of one retrieval pass.
#[derive(Clone, Debug, PartialEq, Eq)]
pub struct RetrievalTrace<Stage> {
    /// Raw query text.
    pub query: String,
    /// Budget used for this pass.
    pub budget: RetrievalBudget,
    /// Ordered list of source visits.
    pub visits: Vec<SourceVisit<Stage>>,
    /// Number of sources visited.
    pub sources_visited: u32,
    /// Number of stages entered.
    pub stages_visited: u32,
    /// Reason the pass stopped early, when it did.
    pub stop_reason: Option<StopReason<Stage>>,
}

impl<Stage> RetrievalTrace<Stage> {
    /// Create an empty trace for one retrieval pass.
    pub fn new<Q: Into<String>>(query: Q, budget: RetrievalBudget) -> (t: Self)
        ensures
            converts_to(query, t.query),
            t.budget == budget,
            t.visits@.len() == 0,
            t.sources_visited == 0,
            t.stages_visited == 0,
            t.stop_reason is None,
    {
        RetrievalTrace {
            query: query.into(),
            budget,
            visits: Vec::new(),
            sources_visited: 0,
            stages_visited: 0,
            stop_reason: None,
        }
    }

    /// Record one source visit.
    pub fn record_visit<L: Into<String>>(&mut self, stage: Stage, source: L)
        requires
            old(self).sources_visited < u32::MAX,
        ensures
            final(self).sources_visited == old(self).sources_visited + 1,
            final(self).visits@.len() == old(self).visits@.len() + 1,
            final(self).visits@.drop_last() == old(self).visits@,
            final(self).visits@.last().stage == stage,
            converts_to(source, final(self).visits@.last().source),
            final(self).query == old(self).query,
            final(self).budget == old(self).budget,
            final(self).stages_visited == old(self).stages_visited,
            final(self).stop_reason == old(self).stop_reason,
    {
        self.push_visit(stage, source.into());
    }

    /// Record one source visit under an owned label.
    pub(crate) fn push_visit(&mut self, stage: Stage, source: String)
        requires
            old(self).sources_visited < u32::MAX,
        ensures
            final(self).sources_visited == old(self).sources_visited + 1,
            final(self).visits@ == old(self).visits@.push((SourceVisit { stage, source })),
            final(self).query == old(self).query,
            final(self).budget == old(self).budget,
            final(self).stages_visited == old(self).stages_visited,
            final(self).stop_reason == old(self).stop_reason,
    {
        self.sources_visited = self.sources_visited + 1;
        self.visits.push(SourceVisit { stage, source });
    }

    /// Record that one stage was entered.
    pub fn record_stage(&mut self)
        requires
            old(self).stages_visited < u32::MAX,
        ensures
            final(self).stages_visited == old(self).stages_visited + 1,
            final(self).query == old(self).query,
            final(self).budget == old(self).budget,
            final(self).visits@ == old(self).visits@,
            final(self).sources_visited == old(self).sources_visited,
            final(self).stop_reason == old(self).stop_reason,
    {
        self.stages_visited = self.stages_visited + 1;
    }

    /// Record why the pass stopped early.
    pub fn record_stop_reason(&mut self, reason: StopReason<Stage>)
        ensures
            final(self).stop_reason == Some(reason),
            final(self).query == old(self).query,
            final(self).budget == old(self).budget,
            final(self).visits@ == old(self).visits@,
            final(self).sources_visited == old(self).sources_visited,
            final(self).stages_visited == old(self).stages_visited,
    {
        self.stop_reason = Some(reason);
    }
}

} // verus!
