//! Staged multi-source routing.
//!
//! Sources declare a stage; a route plan fixes the stage order; the router
//! runs the sources stage by stage into the caller's buffer and may stop
//! after a stage according to an explicit policy.

use vstd::prelude::*;

use crate::base::{RetrievalBudget, RetrievalContext, StandardAffordance, SubjectRef};
use crate::observe::{RetrievalTrace, SourceVisit, StopReason};
use crate::query::PortolanQuery;
use crate::base::PortolanHit;
use crate::source::{CandidateBuffer, RetrievalSource};

verus! {

/// Retrieval stage used for route planning.
#[derive(Clone, Copy, Debug, PartialEq, Eq, Hash, PartialOrd, Ord, Structural)]
pub enum RouteStage {
    /// Materialized indexed retrieval.
    Materialized,
    /// Contextual cached or visible-workset retrieval.
    Contextual,
    /// On-demand or virtual expansion.
    Virtual,
}

/// Statistics collected during staged routing.
#[derive(Clone, Debug, PartialEq, Eq)]
pub struct RouteStats {
    /// Number of sources invoked.
    pub sources_visited: u32,
    /// Number of stages entered.
    pub stages_visited: u32,
    /// Number of emitted hits.
    pub hits_emitted: u32,
    /// Reason retrieval stopped early, when applicable.
    pub stop_reason: Option<StopReason<RouteStage>>,
}

impl Default for RouteStats {
    fn default() -> (r: Self)
        ensures
            r == (RouteStats { sources_visited: 0, stages_visited: 0, hits_emitted: 0, stop_reason: None }),
    {
        RouteStats { sources_visited: 0, stages_visited: 0, hits_emitted: 0, stop_reason: None }
    }
}

/// Explicit policy controlling when routing may stop before exhausting the plan.
#[derive(Clone, Copy, Debug, PartialEq, Eq, Structural)]
pub struct RoutePolicy {
    /// Stop after any stage emits at least this many hits.
    pub stop_after_stage_hits: Option<u32>,
    /// Stop after total emitted hits reach at least this many hits.
    pub stop_after_total_hits: Option<u32>,
}

impl RoutePolicy {
    /// The policy that never stops early, as used in contracts.
    pub open spec fn exhaustive_spec() -> Self {
        RoutePolicy { stop_after_stage_hits: None, stop_after_total_hits: None }
    }

    /// Policy that always exhausts the route plan.
    pub fn exhaustive() -> (r: Self)
        ensures
            r == Self::exhaustive_spec(),
    {
        RoutePolicy { stop_after_stage_hits: None, stop_after_total_hits: None }
    }
}

impl Default for RoutePolicy {
    fn default() -> (r: Self)
        ensures
            r.stop_after_stage_hits is None,
            r.stop_after_total_hits is None,
    {
        RoutePolicy::exhaustive()
    }
}

/// Object-safe retrieval source with an explicit route stage.
pub trait StagedRetrievalSource<
    S: SubjectRef,
    Scope = (),
    Filter = (),
    Context = (),
    A = StandardAffordance,
    E = (),
>: RetrievalSource<S, Scope, Filter, Context, A, E> {
    /// The stage the source declares. Outside verified code, implement it
    /// with the same body as `stage`.
    spec fn stage_spec(&self) -> RouteStage;

    /// Stage in which this source should run.
    fn stage(&self) -> (r: RouteStage)
        ensures
            r == self.stage_spec(),
    ;
}

/// The stage order of the standard plan: materialized, contextual, virtual.
pub open spec fn standard_stages() -> Seq<RouteStage> {
    seq![RouteStage::Materialized, RouteStage::Contextual, RouteStage::Virtual]
}

/// Indices `j < n` whose source runs in `stage`, in increasing order.
pub open spec fn stage_indices(stages: Seq<RouteStage>, stage: RouteStage, n: nat) -> Seq<int>
    decreases n,
{
    if n == 0 {
        Seq::empty()
    } else {
        let earlier = stage_indices(stages, stage, (n - 1) as nat);
        if stages[n - 1] == stage {
            earlier.push(n - 1)
        } else {
            earlier
        }
    }
}

/// The order in which sources with the given stages run under the standard
/// plan: materialized sources first, then contextual, then virtual, each
/// group in list order.
pub open spec fn route_schedule(stages: Seq<RouteStage>) -> Seq<int> {
    stage_indices(stages, RouteStage::Materialized, stages.len())
        + stage_indices(stages, RouteStage::Contextual, stages.len())
        + stage_indices(stages, RouteStage::Virtual, stages.len())
}

/// Every index below `n` lands in exactly one stage group.
pub proof fn lemma_stage_indices_len(stages: Seq<RouteStage>, n: nat)
    requires
        n <= stages.len(),
    ensures
        stage_indices(stages, RouteStage::Materialized, n).len() + stage_indices(
            stages,
            RouteStage::Contextual,
            n,
        ).len() + stage_indices(stages, RouteStage::Virtual, n).len() == n,
    decreases n,
{
    if n > 0 {
        lemma_stage_indices_len(stages, (n - 1) as nat);
    }
}

/// Entries of a stage group are in range, run in that stage, and increase.
pub proof fn lemma_stage_indices_shape(stages: Seq<RouteStage>, stage: RouteStage, n: nat)
    requires
        n <= stages.len(),
    ensures
        forall|k: int|
            0 <= k < stage_indices(stages, stage, n).len() ==> {
                &&& 0 <= #[trigger] stage_indices(stages, stage, n)[k] < n
                &&& stages[stage_indices(stages, stage, n)[k]] == stage
            },
        forall|k: int, l: int|
            0 <= k < l < stage_indices(stages, stage, n).len() ==> stage_indices(stages, stage, n)[k]
                < stage_indices(stages, stage, n)[l],
    decreases n,
{
    if n > 0 {
        lemma_stage_indices_shape(stages, stage, (n - 1) as nat);
    }
}

/// The schedule visits every source exactly once.
pub proof fn lemma_route_schedule_len(stages: Seq<RouteStage>)
    ensures
        route_schedule(stages).len() == stages.len(),
{
    lemma_stage_indices_len(stages, stages.len());
}

/// Stage order for one retrieval pass.
#[derive(Clone, Copy, Debug, PartialEq, Eq)]
pub struct RoutePlan {
    stages: [RouteStage; 3],
}

impl RoutePlan {
    /// Every plan runs the standard stage order.
    #[verifier::type_invariant]
    spec fn inv(self) -> bool {
        self.stages@ == standard_stages()
    }

    /// Plan that prefers cheap materialized retrieval before more expensive work.
    pub fn standard() -> (r: Self)
        ensures
            r.stages_spec() == standard_stages(),
    {
        RoutePlan { stages: [RouteStage::Materialized, RouteStage::Contextual, RouteStage::Virtual] }
    }

    /// The stage order, as used in contracts.
    pub closed spec fn stages_spec(self) -> Seq<RouteStage> {
        self.stages@
    }

    /// Access the stage order.
    pub fn stages(&self) -> (r: &[RouteStage; 3])
        ensures
            r@ == self.stages_spec(),
            r@ == standard_stages(),
    {
        proof {
            use_type_invariant(self);
        }
        &self.stages
    }
}

impl Default for RoutePlan {
    fn default() -> (r: Self)
        ensures
            r.stages_spec() == standard_stages(),
    {
        RoutePlan::standard()
    }
}

/// A route plan is its stage order: two plans with the same order are the
/// same plan, so `RoutePlan::default()` and `RoutePlan::standard()` agree.
pub proof fn law_route_plan_is_its_stage_order(a: RoutePlan, b: RoutePlan)
    requires
        a.stages_spec() == b.stages_spec(),
    ensures
        a == b,
{
    assert(a.stages =~= b.stages);
}

/// The stop decision taken after one stage, given the hits that stage emitted
/// and the hits the whole pass emitted so far.
pub open spec fn stop_reason_spec(
    policy: RoutePolicy,
    stage: RouteStage,
    stage_hits_emitted: u32,
    total_hits_emitted: u32,
) -> Option<StopReason<RouteStage>> {
    if policy.stop_after_stage_hits matches Some(limit) && stage_hits_emitted >= limit {
        Some(StopReason::StageHitLimitReached { stage, hits_emitted: stage_hits_emitted })
    } else if policy.stop_after_total_hits matches Some(limit) && total_hits_emitted >= limit {
        Some(StopReason::TotalHitLimitReached { stage, hits_emitted: total_hits_emitted })
    } else {
        None
    }
}

/// Decide whether routing stops after `stage`.
pub fn stop_reason_for_stage(
    policy: RoutePolicy,
    stage: RouteStage,
    stage_hits_emitted: u32,
    total_hits_emitted: u32,
) -> (r: Option<StopReason<RouteStage>>)
    ensures
        r == stop_reason_spec(policy, stage, stage_hits_emitted, total_hits_emitted),
{
    if let Some(limit) = policy.stop_after_stage_hits {
        if stage_hits_emitted >= limit {
            return Some(
                StopReason::StageHitLimitReached { stage, hits_emitted: stage_hits_emitted },
            );
        }
    }
    if let Some(limit) = policy.stop_after_total_hits {
        if total_hits_emitted >= limit {
            return Some(
                StopReason::TotalHitLimitReached { stage, hits_emitted: total_hits_emitted },
            );
        }
    }
    None
}

/// Position of a stage in the standard plan.
pub open spec fn stage_rank(stage: RouteStage) -> int {
    match stage {
        RouteStage::Materialized => 0,
        RouteStage::Contextual => 1,
        RouteStage::Virtual => 2,
    }
}

/// What the sources at `idx` emitted, concatenated in order.
pub open spec fn group_output<H>(idx: Seq<int>, outputs: Seq<Seq<H>>) -> Seq<H>
    decreases idx.len(),
{
    if idx.len() == 0 {
        Seq::empty()
    } else {
        group_output(idx.drop_last(), outputs) + outputs[idx.last()]
    }
}

/// `total + more`, saturated at `u32::MAX`.
pub open spec fn saturating_total(total: u32, more: nat) -> u32 {
    if total + more > u32::MAX {
        u32::MAX
    } else {
        (total + more) as u32
    }
}

/// The statistics of an empty pass.
pub open spec fn empty_route_stats() -> RouteStats {
    RouteStats { sources_visited: 0, stages_visited: 0, hits_emitted: 0, stop_reason: None }
}

/// Statistics after running every source of `stage`, given the statistics
/// before it. A stage without sources leaves the statistics unchanged and
/// takes no stop decision.
pub open spec fn stage_step<H>(
    policy: RoutePolicy,
    stages: Seq<RouteStage>,
    outputs: Seq<Seq<H>>,
    stage: RouteStage,
    prev: RouteStats,
) -> RouteStats {
    let idx = stage_indices(stages, stage, stages.len());
    if idx.len() == 0 {
        prev
    } else {
        let total = saturating_total(prev.hits_emitted, group_output(idx, outputs).len());
        RouteStats {
            sources_visited: (prev.sources_visited + idx.len()) as u32,
            stages_visited: (prev.stages_visited + 1) as u32,
            hits_emitted: total,
            stop_reason: stop_reason_spec(
                policy,
                stage,
                (total - prev.hits_emitted) as u32,
                total,
            ),
        }
    }
}

/// Statistics of a pass after the first `k` stages of the standard plan,
/// where source `j` reports stage `stages[j]` and emits `outputs[j]`.
pub open spec fn route_stats_after<H>(
    policy: RoutePolicy,
    stages: Seq<RouteStage>,
    outputs: Seq<Seq<H>>,
    k: nat,
) -> RouteStats
    decreases k,
{
    if k == 0 {
        empty_route_stats()
    } else {
        let prev = route_stats_after(policy, stages, outputs, (k - 1) as nat);
        if prev.stop_reason is Some {
            prev
        } else {
            stage_step(policy, stages, outputs, standard_stages()[k - 1], prev)
        }
    }
}

/// Indices of the sources run in the first `k` stages of the standard plan,
/// in the order they ran.
pub open spec fn route_visits_after<H>(
    policy: RoutePolicy,
    stages: Seq<RouteStage>,
    outputs: Seq<Seq<H>>,
    k: nat,
) -> Seq<int>
    decreases k,
{
    if k == 0 {
        Seq::empty()
    } else {
        let prev = route_visits_after(policy, stages, outputs, (k - 1) as nat);
        if route_stats_after(policy, stages, outputs, (k - 1) as nat).stop_reason is Some {
            prev
        } else {
            prev + stage_indices(stages, standard_stages()[k - 1], stages.len())
        }
    }
}

/// Statistics of a whole pass.
pub open spec fn route_stats<H>(
    policy: RoutePolicy,
    stages: Seq<RouteStage>,
    outputs: Seq<Seq<H>>,
) -> RouteStats {
    route_stats_after(policy, stages, outputs, 3)
}

/// Indices of the sources run by a whole pass, in the order they ran.
pub open spec fn route_visits<H>(
    policy: RoutePolicy,
    stages: Seq<RouteStage>,
    outputs: Seq<Seq<H>>,
) -> Seq<int> {
    route_visits_after(policy, stages, outputs, 3)
}

/// The first `k` stage groups of the schedule, concatenated.
pub open spec fn schedule_prefix(stages: Seq<RouteStage>, k: nat) -> Seq<int>
    decreases k,
{
    if k == 0 {
        Seq::empty()
    } else {
        schedule_prefix(stages, (k - 1) as nat) + stage_indices(
            stages,
            standard_stages()[k - 1],
            stages.len(),
        )
    }
}

/// Concatenating the outputs of two index lists.
pub proof fn lemma_group_output_concat<H>(a: Seq<int>, b: Seq<int>, outputs: Seq<Seq<H>>)
    ensures
        group_output(a + b, outputs) == group_output(a, outputs) + group_output(b, outputs),
    decreases b.len(),
{
    if b.len() == 0 {
        assert(a + b =~= a);
        assert(group_output(a, outputs) + group_output(b, outputs) =~= group_output(a, outputs));
    } else {
        lemma_group_output_concat(a, b.drop_last(), outputs);
        assert((a + b).drop_last() =~= a + b.drop_last());
        assert((a + b).last() == b.last());
    }
}

/// The plan's stage at position `rank` has that rank.
pub proof fn lemma_standard_stage_rank(k: int)
    requires
        0 <= k < 3,
    ensures
        stage_rank(standard_stages()[k]) == k,
{
}

/// A pass runs whole stage groups of the schedule, from the first on.
pub proof fn lemma_route_visits_prefix<H>(
    policy: RoutePolicy,
    stages: Seq<RouteStage>,
    outputs: Seq<Seq<H>>,
    k: nat,
) -> (depth: nat)
    requires
        k <= 3,
    ensures
        depth <= k,
        route_visits_after(policy, stages, outputs, k) == schedule_prefix(stages, depth),
    decreases k,
{
    if k == 0 {
        0
    } else {
        let km = (k - 1) as nat;
        let d = lemma_route_visits_prefix(policy, stages, outputs, km);
        if route_stats_after(policy, stages, outputs, km).stop_reason is Some {
            d
        } else {
            lemma_route_unstopped_visits(policy, stages, outputs, km);
            k
        }
    }
}

/// Until a pass stops, it has run every stage group so far.
pub proof fn lemma_route_unstopped_visits<H>(
    policy: RoutePolicy,
    stages: Seq<RouteStage>,
    outputs: Seq<Seq<H>>,
    k: nat,
)
    requires
        k <= 3,
        route_stats_after(policy, stages, outputs, k).stop_reason is None,
    ensures
        route_visits_after(policy, stages, outputs, k) == schedule_prefix(stages, k),
    decreases k,
{
    if k > 0 {
        let km = (k - 1) as nat;
        assert(route_stats_after(policy, stages, outputs, km).stop_reason is None);
        lemma_route_unstopped_visits(policy, stages, outputs, km);
    }
}

/// Earlier schedule prefixes are prefixes of later ones.
pub proof fn lemma_schedule_prefix_grows(stages: Seq<RouteStage>, a: nat, b: nat)
    requires
        a <= b <= 3,
    ensures
        schedule_prefix(stages, a).len() <= schedule_prefix(stages, b).len(),
        schedule_prefix(stages, a) == schedule_prefix(stages, b).take(
            schedule_prefix(stages, a).len() as int,
        ),
    decreases b,
{
    if a < b {
        let bm = (b - 1) as nat;
        lemma_schedule_prefix_grows(stages, a, bm);
        let pa = schedule_prefix(stages, a);
        let pm = schedule_prefix(stages, bm);
        let pb = schedule_prefix(stages, b);
        assert(pb.take(pm.len() as int) =~= pm);
        assert(pb.take(pa.len() as int) =~= pm.take(pa.len() as int));
    } else {
        assert(schedule_prefix(stages, b).take(schedule_prefix(stages, b).len() as int)
            =~= schedule_prefix(stages, b));
    }
}

/// The whole schedule is the concatenation of the three stage groups.
pub proof fn lemma_schedule_prefix_full(stages: Seq<RouteStage>)
    ensures
        schedule_prefix(stages, 3) == route_schedule(stages),
        schedule_prefix(stages, 3).len() == stages.len(),
{
    reveal_with_fuel(schedule_prefix, 4);
    assert(schedule_prefix(stages, 3) =~= route_schedule(stages));
    lemma_route_schedule_len(stages);
}

/// A pass never visits more sources than there are.
pub proof fn lemma_route_visits_len<H>(
    policy: RoutePolicy,
    stages: Seq<RouteStage>,
    outputs: Seq<Seq<H>>,
    k: nat,
)
    requires
        k <= 3,
    ensures
        route_visits_after(policy, stages, outputs, k).len() <= stages.len(),
        route_visits_after(policy, stages, outputs, k) == route_schedule(stages).take(
            route_visits_after(policy, stages, outputs, k).len() as int,
        ),
{
    let d = lemma_route_visits_prefix(policy, stages, outputs, k);
    lemma_schedule_prefix_grows(stages, d, 3);
    lemma_schedule_prefix_full(stages);
}

/// The counters of a pass agree with what it visited and emitted: one per
/// visited source, at most one per stage, and the emitted hits saturated at
/// `u32::MAX`.
pub proof fn lemma_route_counts<H>(
    policy: RoutePolicy,
    stages: Seq<RouteStage>,
    outputs: Seq<Seq<H>>,
    k: nat,
)
    requires
        k <= 3,
        stages.len() <= u32::MAX,
    ensures
        route_stats_after(policy, stages, outputs, k).sources_visited == route_visits_after(
            policy,
            stages,
            outputs,
            k,
        ).len(),
        route_stats_after(policy, stages, outputs, k).stages_visited <= k,
        route_stats_after(policy, stages, outputs, k).hits_emitted == saturating_total(
            0,
            group_output(route_visits_after(policy, stages, outputs, k), outputs).len(),
        ),
    decreases k,
{
    if k > 0 {
        let km = (k - 1) as nat;
        lemma_route_counts(policy, stages, outputs, km);
        lemma_route_visits_len(policy, stages, outputs, k);
        let stage = standard_stages()[km as int];
        let idx = stage_indices(stages, stage, stages.len());
        lemma_group_output_concat(route_visits_after(policy, stages, outputs, km), idx, outputs);
    }
}

/// Stage groups only grow as more sources are looked at.
pub proof fn lemma_stage_indices_monotone(stages: Seq<RouteStage>, stage: RouteStage, a: nat, b: nat)
    requires
        a <= b <= stages.len(),
    ensures
        stage_indices(stages, stage, a).len() <= stage_indices(stages, stage, b).len(),
    decreases b,
{
    if a < b {
        lemma_stage_indices_monotone(stages, stage, a, (b - 1) as nat);
    }
}

/// Once a pass has stopped, later stages change nothing.
pub proof fn lemma_route_stopped_stable<H>(
    policy: RoutePolicy,
    stages: Seq<RouteStage>,
    outputs: Seq<Seq<H>>,
    k: nat,
    k2: nat,
)
    requires
        k <= k2 <= 3,
        route_stats_after(policy, stages, outputs, k).stop_reason is Some,
    ensures
        route_stats_after(policy, stages, outputs, k2) == route_stats_after(policy, stages, outputs, k),
        route_visits_after(policy, stages, outputs, k2) == route_visits_after(policy, stages, outputs, k),
    decreases k2,
{
    if k < k2 {
        lemma_route_stopped_stable(policy, stages, outputs, k, (k2 - 1) as nat);
    }
}

/// The labelled visits of a trace are those of `order`, each with the stage
/// and label of its source.
pub open spec fn trace_visits_match(
    visits: Seq<SourceVisit<RouteStage>>,
    order: Seq<int>,
    stages: Seq<RouteStage>,
    labels: Seq<Seq<char>>,
) -> bool {
    &&& visits.len() == order.len()
    &&& forall|t: int|
        0 <= t < order.len() ==> {
            &&& (#[trigger] visits[t]).stage == stages[order[t]]
            &&& visits[t].source@ == labels[order[t]]
        }
}

/// A pass over `n` sources that reported `stages` and emitted `outputs`
/// turned the caller's buffer from `before` into `after` and returned `stats`.
pub open spec fn routed<H>(
    policy: RoutePolicy,
    stages: Seq<RouteStage>,
    outputs: Seq<Seq<H>>,
    n: nat,
    before: Seq<H>,
    after: Seq<H>,
    stats: RouteStats,
) -> bool {
    &&& stages.len() == n
    &&& outputs.len() == n
    &&& stats == route_stats(policy, stages, outputs)
    &&& after == before + group_output(route_visits(policy, stages, outputs), outputs)
}

/// A trace records the visits, counters and stop reason of a pass.
pub open spec fn traced_as(
    trace: RetrievalTrace<RouteStage>,
    stats: RouteStats,
    order: Seq<int>,
    stages: Seq<RouteStage>,
    labels: Seq<Seq<char>>,
) -> bool {
    &&& trace.sources_visited == stats.sources_visited
    &&& trace.stages_visited == stats.stages_visited
    &&& trace.stop_reason == stats.stop_reason
    &&& trace_visits_match(trace.visits@, order, stages, labels)
}

/// One entry of the source list handed to the router: a staged source,
/// possibly with a label.
pub trait RouteEntry<S: SubjectRef, Scope, Filter, Context, A, E> {
    /// The entry's label, as text.
    spec fn label_spec(&self) -> Seq<char>;

    /// The stage the entry's source declares.
    spec fn entry_stage_spec(&self) -> RouteStage;

    /// What the entry's source retrieves for a query, a context and a budget.
    spec fn entry_hits(
        &self,
        query: &PortolanQuery<Scope, Filter>,
        context: &RetrievalContext<Context>,
        budget: RetrievalBudget,
    ) -> Seq<PortolanHit<S, A, E>>;

    /// Stage in which the entry's source runs.
    fn entry_stage(&self) -> (r: RouteStage)
        ensures
            r == self.entry_stage_spec(),
    ;

    /// Run the entry's source into `out`.
    fn entry_retrieve(
        &self,
        query: &PortolanQuery<Scope, Filter>,
        context: &RetrievalContext<Context>,
        budget: RetrievalBudget,
        out: &mut CandidateBuffer<S, A, E>,
    )
        ensures
            final(out)@ == old(out)@ + self.entry_hits(query, context, budget),
    ;

    /// The entry's label.
    fn entry_label(&self) -> (r: &str)
        ensures
            r@ == self.label_spec(),
    ;
}

impl<'a, S: SubjectRef, Scope, Filter, Context, A, E> RouteEntry<
    S,
    Scope,
    Filter,
    Context,
    A,
    E,
> for &'a dyn StagedRetrievalSource<S, Scope, Filter, Context, A, E> {
    open spec fn label_spec(&self) -> Seq<char> {
        Seq::empty()
    }

    open spec fn entry_stage_spec(&self) -> RouteStage {
        (**self).stage_spec()
    }

    open spec fn entry_hits(
        &self,
        query: &PortolanQuery<Scope, Filter>,
        context: &RetrievalContext<Context>,
        budget: RetrievalBudget,
    ) -> Seq<PortolanHit<S, A, E>> {
        (**self).retrieved(query, context, budget)@
    }

    fn entry_stage(&self) -> RouteStage {
        (**self).stage()
    }

    fn entry_retrieve(
        &self,
        query: &PortolanQuery<Scope, Filter>,
        context: &RetrievalContext<Context>,
        budget: RetrievalBudget,
        out: &mut CandidateBuffer<S, A, E>,
    ) {
        (**self).retrieve_into(query, context, budget, out)
    }

    fn entry_label(&self) -> (r: &str) {
        let r = "";
        proof {
            reveal_strlit("");
        }
        r
    }
}

impl<'a, S: SubjectRef, Scope, Filter, Context, A, E> RouteEntry<
    S,
    Scope,
    Filter,
    Context,
    A,
    E,
> for (&'a str, &'a dyn StagedRetrievalSource<S, Scope, Filter, Context, A, E>) {
    open spec fn label_spec(&self) -> Seq<char> {
        self.0@
    }

    open spec fn entry_stage_spec(&self) -> RouteStage {
        self.1.stage_spec()
    }

    open spec fn entry_hits(
        &self,
        query: &PortolanQuery<Scope, Filter>,
        context: &RetrievalContext<Context>,
        budget: RetrievalBudget,
    ) -> Seq<PortolanHit<S, A, E>> {
        self.1.retrieved(query, context, budget)@
    }

    fn entry_stage(&self) -> RouteStage {
        self.1.stage()
    }

    fn entry_retrieve(
        &self,
        query: &PortolanQuery<Scope, Filter>,
        context: &RetrievalContext<Context>,
        budget: RetrievalBudget,
        out: &mut CandidateBuffer<S, A, E>,
    ) {
        self.1.retrieve_into(query, context, budget, out)
    }

    fn entry_label(&self) -> (r: &str) {
        self.0
    }
}

/// The labels of a source list, as text.
pub open spec fn entry_labels<S: SubjectRef, Scope, Filter, Context, A, E, T: RouteEntry<
    S,
    Scope,
    Filter,
    Context,
    A,
    E,
>>(entries: Seq<T>) -> Seq<Seq<char>> {
    Seq::new(entries.len(), |j: int| entries[j].label_spec())
}

/// The stages the entries of a source list declare.
pub open spec fn entry_stages<S: SubjectRef, Scope, Filter, Context, A, E, T: RouteEntry<
    S,
    Scope,
    Filter,
    Context,
    A,
    E,
>>(entries: Seq<T>) -> Seq<RouteStage> {
    Seq::new(entries.len(), |j: int| entries[j].entry_stage_spec())
}

/// What the entries of a source list retrieve for one query, context and budget.
pub open spec fn entry_outputs<S: SubjectRef, Scope, Filter, Context, A, E, T: RouteEntry<
    S,
    Scope,
    Filter,
    Context,
    A,
    E,
>>(
    entries: Seq<T>,
    query: &PortolanQuery<Scope, Filter>,
    context: &RetrievalContext<Context>,
    budget: RetrievalBudget,
) -> Seq<Seq<PortolanHit<S, A, E>>> {
    Seq::new(entries.len(), |j: int| entries[j].entry_hits(query, context, budget))
}

/// The stages staged sources declare.
pub open spec fn source_stages<S: SubjectRef, Scope, Filter, Context, A, E>(
    sources: Seq<&dyn StagedRetrievalSource<S, Scope, Filter, Context, A, E>>,
) -> Seq<RouteStage> {
    Seq::new(sources.len(), |j: int| sources[j].stage_spec())
}

/// What staged sources retrieve for one query, context and budget.
pub open spec fn source_outputs<S: SubjectRef, Scope, Filter, Context, A, E>(
    sources: Seq<&dyn StagedRetrievalSource<S, Scope, Filter, Context, A, E>>,
    query: &PortolanQuery<Scope, Filter>,
    context: &RetrievalContext<Context>,
    budget: RetrievalBudget,
) -> Seq<Seq<PortolanHit<S, A, E>>> {
    Seq::new(sources.len(), |j: int| sources[j].retrieved(query, context, budget)@)
}

/// The stages labelled staged sources declare.
pub open spec fn labelled_stages<S: SubjectRef, Scope, Filter, Context, A, E>(
    sources: Seq<(&str, &dyn StagedRetrievalSource<S, Scope, Filter, Context, A, E>)>,
) -> Seq<RouteStage> {
    Seq::new(sources.len(), |j: int| sources[j].1.stage_spec())
}

/// What labelled staged sources retrieve for one query, context and budget.
pub open spec fn labelled_outputs<S: SubjectRef, Scope, Filter, Context, A, E>(
    sources: Seq<(&str, &dyn StagedRetrievalSource<S, Scope, Filter, Context, A, E>)>,
    query: &PortolanQuery<Scope, Filter>,
    context: &RetrievalContext<Context>,
    budget: RetrievalBudget,
) -> Seq<Seq<PortolanHit<S, A, E>>> {
    Seq::new(sources.len(), |j: int| sources[j].1.retrieved(query, context, budget)@)
}

/// Under the exhaustive policy no stage ends a pass early.
pub proof fn lemma_exhaustive_never_stops<H>(stages: Seq<RouteStage>, outputs: Seq<Seq<H>>, k: nat)
    requires
        k <= 3,
    ensures
        route_stats_after(RoutePolicy::exhaustive_spec(), stages, outputs, k).stop_reason is None,
    decreases k,
{
    if k > 0 {
        lemma_exhaustive_never_stops(stages, outputs, (k - 1) as nat);
    }
}

/// An exhaustive pass runs every source exactly once, stage by stage in plan
/// order and in list order within a stage, and counts each of them.
pub proof fn law_exhaustive_route_runs_every_source<H>(stages: Seq<RouteStage>, outputs: Seq<Seq<H>>)
    requires
        stages.len() <= u32::MAX,
    ensures
        route_visits(RoutePolicy::exhaustive_spec(), stages, outputs) == route_schedule(stages),
        route_stats(RoutePolicy::exhaustive_spec(), stages, outputs).stop_reason is None,
        route_stats(RoutePolicy::exhaustive_spec(), stages, outputs).sources_visited
            == stages.len(),
{
    lemma_exhaustive_never_stops(stages, outputs, 3);
    lemma_route_unstopped_visits(RoutePolicy::exhaustive_spec(), stages, outputs, 3);
    lemma_schedule_prefix_full(stages);
    lemma_route_counts(RoutePolicy::exhaustive_spec(), stages, outputs, 3);
}

/// Whatever the policy, a pass runs a prefix of the schedule made of whole
/// stage groups: it stops only between stages, and never runs a source of a
/// later stage before one of an earlier stage.
pub proof fn law_route_runs_schedule_prefix<H>(
    policy: RoutePolicy,
    stages: Seq<RouteStage>,
    outputs: Seq<Seq<H>>,
) -> (depth: nat)
    ensures
        depth <= 3,
        route_visits(policy, stages, outputs) == schedule_prefix(stages, depth),
        route_visits(policy, stages, outputs) == route_schedule(stages).take(
            route_visits(policy, stages, outputs).len() as int,
        ),
        route_stats(policy, stages, outputs).stop_reason is None ==> route_visits(
            policy,
            stages,
            outputs,
        ) == route_schedule(stages),
{
    let d = lemma_route_visits_prefix(policy, stages, outputs, 3);
    lemma_route_visits_len(policy, stages, outputs, 3);
    if route_stats(policy, stages, outputs).stop_reason is None {
        lemma_route_unstopped_visits(policy, stages, outputs, 3);
        lemma_schedule_prefix_full(stages);
    }
    d
}

/// The statistics of a pass count what it did: one per source run, at most
/// one per plan stage, and every hit appended to the caller's buffer,
/// saturated at `u32::MAX`.
pub proof fn law_route_stats_count_work<H>(
    policy: RoutePolicy,
    stages: Seq<RouteStage>,
    outputs: Seq<Seq<H>>,
)
    requires
        stages.len() <= u32::MAX,
    ensures
        route_stats(policy, stages, outputs).sources_visited == route_visits(
            policy,
            stages,
            outputs,
        ).len(),
        route_stats(policy, stages, outputs).stages_visited <= 3,
        route_stats(policy, stages, outputs).hits_emitted == saturating_total(
            0,
            group_output(route_visits(policy, stages, outputs), outputs).len(),
        ),
{
    lemma_route_counts(policy, stages, outputs, 3);
}

/// A policy without limits never stops a pass early.
pub proof fn law_route_stop_needs_a_limit<H>(
    policy: RoutePolicy,
    stages: Seq<RouteStage>,
    outputs: Seq<Seq<H>>,
)
    requires
        policy.stop_after_stage_hits is None,
        policy.stop_after_total_hits is None,
    ensures
        route_stats(policy, stages, outputs).stop_reason is None,
{
    assert(policy == RoutePolicy::exhaustive_spec());
    lemma_exhaustive_never_stops(stages, outputs, 3);
}

/// Router that executes staged retrieval sources in order.
#[derive(Clone, Copy, Debug, Default)]
pub struct RetrievalRouter;

impl RetrievalRouter {
    /// Create a new retrieval router.
    pub fn new() -> (r: Self)
        ensures
            r == RetrievalRouter,
    {
        RetrievalRouter
    }

    /// Execute all matching sources in route-plan order.
    ///
    /// Each source is asked for its stage once; the sources of a stage run in
    /// list order and each appends what it emits to `out`.
    pub fn retrieve_into<S: SubjectRef, Scope, Filter, Context, A, E>(
        &self,
        plan: RoutePlan,
        sources: &[&dyn StagedRetrievalSource<S, Scope, Filter, Context, A, E>],
        query: &PortolanQuery<Scope, Filter>,
        context: &RetrievalContext<Context>,
        budget: RetrievalBudget,
        out: &mut CandidateBuffer<S, A, E>,
    ) -> (stats: RouteStats)
        requires
            sources@.len() <= u32::MAX,
        ensures
            routed(
                RoutePolicy::exhaustive_spec(),
                source_stages(sources@),
                source_outputs(sources@, query, context, budget),
                sources@.len(),
                old(out)@,
                final(out)@,
                stats,
            ),
    {
        self.retrieve_with_policy(
            plan,
            RoutePolicy::exhaustive(),
            sources,
            query,
            context,
            budget,
            out,
        )
    }

    /// Execute all matching sources in route-plan order with an explicit stop policy.
    ///
    /// After each stage that ran at least one source, the policy decides
    /// whether the pass stops there.
    pub fn retrieve_with_policy<S: SubjectRef, Scope, Filter, Context, A, E>(
        &self,
        plan: RoutePlan,
        policy: RoutePolicy,
        sources: &[&dyn StagedRetrievalSource<S, Scope, Filter, Context, A, E>],
        query: &PortolanQuery<Scope, Filter>,
        context: &RetrievalContext<Context>,
        budget: RetrievalBudget,
        out: &mut CandidateBuffer<S, A, E>,
    ) -> (stats: RouteStats)
        requires
            sources@.len() <= u32::MAX,
        ensures
            routed(
                policy,
                source_stages(sources@),
                source_outputs(sources@, query, context, budget),
                sources@.len(),
                old(out)@,
                final(out)@,
                stats,
            ),
    {
        let mut scratch: RetrievalTrace<RouteStage> = RetrievalTrace {
            query: String::new(),
            budget,
            visits: Vec::new(),
            sources_visited: 0,
            stages_visited: 0,
            stop_reason: None,
        };
        let stats = Self::route(
            plan,
            policy,
            sources,
            false,
            query,
            context,
            budget,
            out,
            &mut scratch,
        );
        proof {
            assert(entry_stages(sources@) =~= source_stages(sources@));
            assert(entry_outputs(sources@, query, context, budget) =~= source_outputs(
                sources@,
                query,
                context,
                budget,
            ));
        }
        stats
    }

    /// Execute labeled sources and capture a retrieval trace.
    pub fn retrieve_traced<S: SubjectRef, Scope, Filter, Context, A, E>(
        &self,
        plan: RoutePlan,
        sources: &[(&str, &dyn StagedRetrievalSource<S, Scope, Filter, Context, A, E>)],
        query: &PortolanQuery<Scope, Filter>,
        context: &RetrievalContext<Context>,
        budget: RetrievalBudget,
        out: &mut CandidateBuffer<S, A, E>,
    ) -> (trace: RetrievalTrace<RouteStage>)
        requires
            sources@.len() <= u32::MAX,
        ensures
            trace.query@ == query.raw@,
            trace.budget == budget,
            ({
                    let stages = labelled_stages(sources@);
                    let outputs = labelled_outputs(sources@, query, context, budget);
                    let stats = route_stats(RoutePolicy::exhaustive_spec(), stages, outputs);
                    &&& routed(
                        RoutePolicy::exhaustive_spec(),
                        stages,
                        outputs,
                        sources@.len(),
                        old(out)@,
                        final(out)@,
                        stats,
                    )
                    &&& traced_as(
                        trace,
                        stats,
                        route_visits(RoutePolicy::exhaustive_spec(), stages, outputs),
                        stages,
                        Seq::new(sources@.len(), |j: int| sources@[j].0@),
                    )
                }),
    {
        self.retrieve_traced_with_policy(
            plan,
            RoutePolicy::exhaustive(),
            sources,
            query,
            context,
            budget,
            out,
        )
    }

    /// Execute labeled sources with an explicit stop policy and capture a retrieval trace.
    pub fn retrieve_traced_with_policy<S: SubjectRef, Scope, Filter, Context, A, E>(
        &self,
        plan: RoutePlan,
        policy: RoutePolicy,
        sources: &[(&str, &dyn StagedRetrievalSource<S, Scope, Filter, Context, A, E>)],
        query: &PortolanQuery<Scope, Filter>,
        context: &RetrievalContext<Context>,
        budget: RetrievalBudget,
        out: &mut CandidateBuffer<S, A, E>,
    ) -> (trace: RetrievalTrace<RouteStage>)
        requires
            sources@.len() <= u32::MAX,
        ensures
            trace.query@ == query.raw@,
            trace.budget == budget,
            ({
                    let stages = labelled_stages(sources@);
                    let outputs = labelled_outputs(sources@, query, context, budget);
                    let stats = route_stats(policy, stages, outputs);
                    &&& routed(
                        policy,
                        stages,
                        outputs,
                        sources@.len(),
                        old(out)@,
                        final(out)@,
                        stats,
                    )
                    &&& traced_as(
                        trace,
                        stats,
                        route_visits(policy, stages, outputs),
                        stages,
                        Seq::new(sources@.len(), |j: int| sources@[j].0@),
                    )
                }),
    {
        let mut trace: RetrievalTrace<RouteStage> = RetrievalTrace {
            query: query.raw.clone(),
            budget,
            visits: Vec::new(),
            sources_visited: 0,
            stages_visited: 0,
            stop_reason: None,
        };
        let _stats = Self::route(
            plan,
            policy,
            sources,
            true,
            query,
            context,
            budget,
            out,
            &mut trace,
        );
        proof {
            assert(entry_labels(sources@) =~= Seq::new(sources@.len(), |t: int| sources@[t].0@));
            assert(entry_stages(sources@) =~= labelled_stages(sources@));
            assert(entry_outputs(sources@, query, context, budget) =~= labelled_outputs(
                sources@,
                query,
                context,
                budget,
            ));
        }
        trace
    }

    /// Run one pass. When `traced`, every visit, every entered stage and the
    /// stop reason are also recorded in `trace`, under the source's label.
    fn route<S: SubjectRef, Scope, Filter, Context, A, E, T: RouteEntry<
        S,
        Scope,
        Filter,
        Context,
        A,
        E,
    >>(
        plan: RoutePlan,
        policy: RoutePolicy,
        sources: &[T],
        traced: bool,
        query: &PortolanQuery<Scope, Filter>,
        context: &RetrievalContext<Context>,
        budget: RetrievalBudget,
        out: &mut CandidateBuffer<S, A, E>,
        trace: &mut RetrievalTrace<RouteStage>,
    ) -> (stats: RouteStats)
        requires
            sources@.len() <= u32::MAX,
            traced ==> old(trace).visits@.len() == 0,
            traced ==> old(trace).sources_visited == 0,
            traced ==> old(trace).stages_visited == 0,
            traced ==> old(trace).stop_reason is None,
        ensures
            final(trace).query == old(trace).query,
            final(trace).budget == old(trace).budget,
            ({
                let stages = entry_stages(sources@);
                let outputs = entry_outputs(sources@, query, context, budget);
                &&& routed(policy, stages, outputs, sources@.len(), old(out)@, final(out)@, stats)
                &&& traced ==> traced_as(
                    *final(trace),
                    stats,
                    route_visits(policy, stages, outputs),
                    stages,
                    entry_labels(sources@),
                )
            }),
    {
        let n = sources.len();
        let mut stages: Vec<RouteStage> = Vec::new();
        let mut j: usize = 0;
        while j < n
            invariant
                n == sources@.len(),
                j <= n,
                stages@.len() == j,
                forall|t: int| 0 <= t < j ==> stages@[t] == (#[trigger] sources@[t]).entry_stage_spec(),
            decreases n - j,
        {
            stages.push(sources[j].entry_stage());
            j = j + 1;
        }
        let ghost labels_view = entry_labels(sources@);
        let ghost out0 = out@;
        let ghost full = entry_outputs(sources@, query, context, budget);
        let ghost outputs: Seq<Seq<PortolanHit<S, A, E>>> = full;
        proof {
            assert(stages@ =~= entry_stages(sources@));
        }
        let plan_stages = plan.stages();
        let mut stats = RouteStats {
            sources_visited: 0,
            stages_visited: 0,
            hits_emitted: 0,
            stop_reason: None,
        };
        let mut stopped = false;
        let mut k: usize = 0;
        while k < 3 && !stopped
            invariant
                n == sources@.len(),
                n <= u32::MAX,
                stages@.len() == n,
                outputs.len() == n,
                outputs == full,
                full == entry_outputs(sources@, query, context, budget),
                stages@ == entry_stages(sources@),
                k <= 3,
                plan_stages@ == standard_stages(),
                labels_view == entry_labels(sources@),
                stats == route_stats_after(policy, stages@, outputs, k as nat),
                stopped == stats.stop_reason is Some,
                out@ == out0 + group_output(
                    route_visits_after(policy, stages@, outputs, k as nat),
                    outputs,
                ),
                trace.query == old(trace).query,
                trace.budget == old(trace).budget,
                traced ==> traced_as(
                    *trace,
                    stats,
                    route_visits_after(policy, stages@, outputs, k as nat),
                    stages@,
                    labels_view,
                ),
            decreases 3 - k,
        {
            let stage = plan_stages[k];
            proof {
                lemma_standard_stage_rank(k as int);
                lemma_route_counts(policy, stages@, outputs, k as nat);
                lemma_route_unstopped_visits(policy, stages@, outputs, k as nat);
                lemma_schedule_prefix_grows(stages@, (k + 1) as nat, 3);
                lemma_schedule_prefix_full(stages@);
                lemma_stage_indices_shape(stages@, stage, n as nat);
            }
            let ghost out_k = out@;
            let ghost visits_k = route_visits_after(policy, stages@, outputs, k as nat);
            let base_total = stats.hits_emitted;
            let mut total: u32 = base_total;
            let mut stage_sources: u32 = 0;
            let mut i: usize = 0;
            while i < n
                invariant
                    n == sources@.len(),
                    n <= u32::MAX,
                    stages@.len() == n,
                    outputs.len() == n,
                    outputs == full,
                    full == entry_outputs(sources@, query, context, budget),
                    i <= n,
                    k < 3,
                    stage == standard_stages()[k as int],
                    stage_rank(stage) == k,
                    labels_view == entry_labels(sources@),
                    stage_sources == stage_indices(stages@, stage, i as nat).len(),
                    visits_k.len() + stage_indices(stages@, stage, n as nat).len() <= n,
                    stats.sources_visited == visits_k.len(),
                    total == saturating_total(
                        base_total,
                        group_output(stage_indices(stages@, stage, i as nat), outputs).len(),
                    ),
                    out@ == out_k + group_output(stage_indices(stages@, stage, i as nat), outputs),
                    trace.query == old(trace).query,
                    trace.budget == old(trace).budget,
                    traced ==> trace.sources_visited == visits_k.len() + stage_sources,
                    traced ==> trace.stages_visited == stats.stages_visited,
                    traced ==> trace.stop_reason == stats.stop_reason,
                    traced ==> trace_visits_match(
                        trace.visits@,
                        visits_k + stage_indices(stages@, stage, i as nat),
                        stages@,
                        labels_view,
                    ),
                decreases n - i,
            {
                let ghost idx_i = stage_indices(stages@, stage, i as nat);
                if stages[i] == stage {
                    proof {
                        lemma_stage_indices_monotone(stages@, stage, (i + 1) as nat, n as nat);
                    }
                    if traced {
                        trace.push_visit(stage, sources[i].entry_label().to_owned());
                    }
                    let mut buf: CandidateBuffer<S, A, E> = CandidateBuffer::new();
                    sources[i].entry_retrieve(query, context, budget, &mut buf);
                    let emitted: usize = buf.len();
                    let room: u32 = u32::MAX - total;
                    if emitted > room as usize {
                        total = u32::MAX;
                    } else {
                        total = total + emitted as u32;
                    }
                    stage_sources = stage_sources + 1;
                    proof {
                        assert(buf@ =~= outputs[i as int]);
                        assert(stage_indices(stages@, stage, (i + 1) as nat) == idx_i.push(i as int));
                        assert(idx_i.push(i as int).drop_last() =~= idx_i);
                    }
                    out.append(buf);
                    proof {
                        assert(trace_visits_match(
                            trace.visits@,
                            visits_k + stage_indices(stages@, stage, (i + 1) as nat),
                            stages@,
                            labels_view,
                        ) || !traced) by {
                            if traced {
                                let order = visits_k + stage_indices(stages@, stage, (i + 1) as nat);
                                assert(order =~= (visits_k + idx_i).push(i as int));
                            }
                        }
                    }
                }
                i = i + 1;
            }
            proof {
                lemma_group_output_concat(
                    visits_k,
                    stage_indices(stages@, stage, n as nat),
                    outputs,
                );
            }
            if stage_sources > 0 {
                let stage_hits = total - base_total;
                let reason = stop_reason_for_stage(policy, stage, stage_hits, total);
                stats = RouteStats {
                    sources_visited: stats.sources_visited + stage_sources,
                    stages_visited: stats.stages_visited + 1,
                    hits_emitted: total,
                    stop_reason: reason,
                };
                if traced {
                    trace.record_stage();
                    if let Some(r) = reason {
                        trace.record_stop_reason(r);
                    }
                }
                stopped = stats.stop_reason.is_some();
            }
            k = k + 1;
        }
        proof {
            if stopped {
                lemma_route_stopped_stable(policy, stages@, outputs, k as nat, 3);
            }
            assert(routed(policy, stages@, outputs, n as nat, out0, out@, stats));
            assert(traced ==> traced_as(
                *trace,
                stats,
                route_visits(policy, stages@, outputs),
                stages@,
                entry_labels(sources@),
            ));
        }
        stats
    }
}


} // verus!
