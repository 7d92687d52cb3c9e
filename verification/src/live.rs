//! Live query sessions and incremental retrieval updates.
//!
//! Sources open sessions that reveal, revise and retract results over time;
//! the coordinator validates every source against the live protocol and
//! translates source-local events into one coordinated event stream.

pub mod coordinator;
pub mod events;
pub mod ids;
pub mod protocol;
pub mod snapshot;
pub mod translate;

pub use self::ids::{
    LocalResultId, QuerySessionId, Revision, SessionResultId, SourceCapabilities, SourceSlot,
    SourceState, StatusUpdate,
};
pub use self::coordinator::{LiveCoordinator, LiveCoordinatorSession};
pub use self::events::{
    BoxedLiveSession, LiveSession, LiveSource, PollOutcome, SearchEvent, SearchEventBuffer,
    SearchEventSink, SessionPatchOp, SessionResult, SourceEventBuffer, SourceEventSink,
    SourcePatchOp, SourceResult, SourceSearchEvent, StagedLiveSource,
};
pub use self::protocol::{validate_source_event, KnownResult, SourceProtocolState};
pub use self::snapshot::{LiftedSnapshot, SnapshotLiveSession, SnapshotLiveSource, SnapshotPhase, StagedSnapshotSource};
