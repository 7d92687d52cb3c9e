//! Identities, capabilities and lifecycle states of live sessions.

use core::cmp::Ordering;

use vstd::prelude::*;
use vstd::std_specs::cmp::PartialOrdSpecImpl;

verus! {

/// Stable identity for one live query session.
#[derive(Clone, Copy, Debug, PartialEq, Eq, Hash, Structural)]
pub struct QuerySessionId(u64);

impl QuerySessionId {
    /// Create one session id from a raw integer.
    pub fn new(value: u64) -> (r: Self)
        ensures
            r.get_spec() == value,
            r == Self::from_raw(value),
    {
        QuerySessionId(value)
    }

    /// The session id with raw value `value`, as used in contracts.
    pub closed spec fn from_raw(value: u64) -> Self {
        QuerySessionId(value)
    }

    /// The raw value of a session id built from a raw value.
    pub broadcast proof fn lemma_from_raw(value: u64)
        ensures
            #[trigger] Self::from_raw(value).get_spec() == value,
    {
    }

    /// Raw numeric value.
    pub fn get(self) -> (r: u64)
        ensures
            r == self.get_spec(),
    {
        self.0
    }

    /// Raw numeric value, as used in contracts.
    pub closed spec fn get_spec(self) -> u64 {
        self.0
    }

    /// Two session ids are equal exactly when their raw values are.
    pub broadcast proof fn lemma_get_injective(a: Self, b: Self)
        ensures
            (#[trigger] a.get_spec() == #[trigger] b.get_spec()) <==> a == b,
    {
    }
}

/// Revision counter for live updates within one session; revisions are
/// ordered by their raw values.
#[derive(Clone, Copy, Debug, PartialEq, Eq, Hash, Ord, Structural)]
pub struct Revision(u64);

impl PartialOrd for Revision {
    fn partial_cmp(&self, other: &Self) -> (r: Option<Ordering>) {
        if self.0 < other.0 {
            Some(Ordering::Less)
        } else if self.0 == other.0 {
            Some(Ordering::Equal)
        } else {
            Some(Ordering::Greater)
        }
    }
}

impl PartialOrdSpecImpl for Revision {
    open spec fn obeys_partial_cmp_spec() -> bool {
        true
    }

    open spec fn partial_cmp_spec(&self, other: &Self) -> Option<Ordering> {
        if self.get_spec() < other.get_spec() {
            Some(Ordering::Less)
        } else if self.get_spec() == other.get_spec() {
            Some(Ordering::Equal)
        } else {
            Some(Ordering::Greater)
        }
    }
}

impl Revision {
    /// Create one revision from a raw integer.
    pub fn new(value: u64) -> (r: Self)
        ensures
            r.get_spec() == value,
            r == Self::from_raw(value),
    {
        Revision(value)
    }

    /// The revision with raw value `value`, as used in contracts.
    pub closed spec fn from_raw(value: u64) -> Self {
        Revision(value)
    }

    /// The raw value of a revision built from a raw value.
    pub broadcast proof fn lemma_from_raw(value: u64)
        ensures
            #[trigger] Self::from_raw(value).get_spec() == value,
    {
    }

    /// Raw numeric value.
    pub fn get(self) -> (r: u64)
        ensures
            r == self.get_spec(),
    {
        self.0
    }

    /// Raw numeric value, as used in contracts.
    pub closed spec fn get_spec(self) -> u64 {
        self.0
    }
}

/// Stable source-local result id within one live source session.
#[derive(Clone, Copy, Debug, PartialEq, Eq, Hash, PartialOrd, Ord, Structural)]
pub struct LocalResultId(u64);

impl LocalResultId {
    /// Create one local result id from a raw integer.
    pub fn new(value: u64) -> (r: Self)
        ensures
            r.get_spec() == value,
            r == Self::from_raw(value),
    {
        LocalResultId(value)
    }

    /// The local result id with raw value `value`, as used in contracts.
    pub closed spec fn from_raw(value: u64) -> Self {
        LocalResultId(value)
    }

    /// The raw value of a local result id built from a raw value.
    pub broadcast proof fn lemma_from_raw(value: u64)
        ensures
            #[trigger] Self::from_raw(value).get_spec() == value,
    {
    }

    /// Raw numeric value.
    pub fn get(self) -> (r: u64)
        ensures
            r == self.get_spec(),
    {
        self.0
    }

    /// Raw numeric value, as used in contracts.
    pub closed spec fn get_spec(self) -> u64 {
        self.0
    }

    /// Two local result ids are equal exactly when their raw values are.
    pub broadcast proof fn lemma_get_injective(a: Self, b: Self)
        ensures
            (#[trigger] a.get_spec() == #[trigger] b.get_spec()) <==> a == b,
    {
    }
}

/// Stable source slot assigned by the coordinator within one session.
#[derive(Clone, Copy, Debug, PartialEq, Eq, Hash, PartialOrd, Ord, Structural)]
pub struct SourceSlot(u16);

impl SourceSlot {
    /// Create one source slot from a raw integer.
    pub fn new(value: u16) -> (r: Self)
        ensures
            r.get_spec() == value,
            r == Self::from_raw(value),
    {
        SourceSlot(value)
    }

    /// The source slot with raw value `value`, as used in contracts.
    pub closed spec fn from_raw(value: u16) -> Self {
        SourceSlot(value)
    }

    /// Raw numeric value.
    pub fn get(self) -> (r: u16)
        ensures
            r == self.get_spec(),
    {
        self.0
    }

    /// Raw numeric value, as used in contracts.
    pub closed spec fn get_spec(self) -> u16 {
        self.0
    }
}

/// Stable result id in the coordinator-level event stream: one source slot
/// plus one source-local result id.
#[derive(Clone, Copy, Debug, PartialEq, Eq, Hash, PartialOrd, Ord, Structural)]
pub struct SessionResultId {
    /// Source slot assigned by the coordinator.
    pub source_slot: SourceSlot,
    /// Source-local result id.
    pub local: LocalResultId,
}

impl SessionResultId {
    /// Create one session-global result id.
    pub fn new(source_slot: SourceSlot, local: LocalResultId) -> (r: Self)
        ensures
            r.source_slot == source_slot,
            r.local == local,
    {
        SessionResultId { source_slot, local }
    }
}

/// Declared behavior of one live source. These flags are protocol
/// commitments: sources that emit disallowed event kinds are failed by the
/// coordinator.
#[derive(Clone, Copy, Debug, PartialEq, Eq, Structural)]
pub struct SourceCapabilities {
    /// Whether the source may emit results in several rounds.
    pub streams_partial_results: bool,
    /// Whether the source may replace or move earlier results.
    pub revises_results: bool,
    /// Whether the source may remove earlier results.
    pub retracts_results: bool,
    /// Whether the source may emit progress events.
    pub reports_progress: bool,
    /// Whether the source cooperates with cancellation requests.
    pub can_cancel: bool,
}

impl SourceCapabilities {
    /// Capabilities for a one-shot lifted snapshot source.
    pub fn snapshot() -> (r: Self)
        ensures
            r == Self::snapshot_spec(),
    {
        SourceCapabilities {
            streams_partial_results: false,
            revises_results: false,
            retracts_results: false,
            reports_progress: false,
            can_cancel: true,
        }
    }

    /// Capabilities of a one-shot snapshot source: nothing but cancellation.
    pub open spec fn snapshot_spec() -> Self {
        SourceCapabilities {
            streams_partial_results: false,
            revises_results: false,
            retracts_results: false,
            reports_progress: false,
            can_cancel: true,
        }
    }
}

impl Default for SourceCapabilities {
    fn default() -> (r: Self)
        ensures
            !r.streams_partial_results,
            !r.revises_results,
            !r.retracts_results,
            !r.reports_progress,
            !r.can_cancel,
    {
        SourceCapabilities {
            streams_partial_results: false,
            revises_results: false,
            retracts_results: false,
            reports_progress: false,
            can_cancel: false,
        }
    }
}

/// Source lifecycle state reported through live status updates.
#[derive(Clone, Copy, Debug, PartialEq, Eq, Hash, Structural)]
pub enum SourceState {
    /// Session has begun and may emit more updates.
    Running,
    /// Source emitted a meaningful partial result set and may continue.
    Partial,
    /// Source completed successfully.
    Complete,
    /// Source failed.
    Failed,
    /// Source was canceled.
    Canceled,
    /// Source data is known to be stale.
    Stale,
}

impl SourceState {
    /// Terminal states: complete, failed, canceled and stale.
    pub open spec fn is_terminal_spec(self) -> bool {
        match self {
            SourceState::Complete | SourceState::Failed | SourceState::Canceled
            | SourceState::Stale => true,
            SourceState::Running | SourceState::Partial => false,
        }
    }

    /// Whether this state is terminal.
    pub fn is_terminal(self) -> (r: bool)
        ensures
            r == self.is_terminal_spec(),
    {
        match self {
            SourceState::Complete | SourceState::Failed | SourceState::Canceled
            | SourceState::Stale => true,
            SourceState::Running | SourceState::Partial => false,
        }
    }
}

/// Status update emitted by a live source or coordinator.
#[derive(Clone, Debug, PartialEq, Eq)]
pub struct StatusUpdate<Detail = ()> {
    /// Source lifecycle state.
    pub state: SourceState,
    /// Optional host-defined detail for the status change.
    pub detail: Option<Detail>,
}

impl<Detail> StatusUpdate<Detail> {
    /// Create one status update with no detail.
    pub fn new(state: SourceState) -> (r: Self)
        ensures
            r.state == state,
            r.detail is None,
    {
        StatusUpdate { state, detail: None }
    }

    /// Attach one detail payload to this status update.
    pub fn with_detail(self, detail: Detail) -> (r: Self)
        ensures
            r.state == self.state,
            r.detail == Some(detail),
    {
        StatusUpdate { state: self.state, detail: Some(detail) }
    }
}

} // verus!
