//! Structured retrieval over live, partially materialized host state.
//!
//! The crate turns queries plus one host-defined context snapshot into typed,
//! actionable hits. It is organised in the same layers as the retrieval
//! pipeline itself:
//! - `base`: hits, evidence, affordances, budgets and context envelopes
//! - `query`: the small query envelope
//! - `source`: synchronous retrieval sources and candidate buffers
//! - `observe`: retrieval traces
//! - `route`: staged multi-source routing with explicit stop policies
//! - `schema`: subject projections and the projection catalog
//! - `ingest`: materializing a catalog into backend documents
//! - `leit`: the backend-independent half of the Leit adapter
//! - `live`: live sessions, the source protocol and the live coordinator

pub mod base;
pub mod ingest;
pub mod leit;
pub mod live;
pub mod observe;
pub mod query;
pub mod route;
pub mod schema;
pub mod source;

pub use crate::base::{
    Affordance, AffordanceResolver, Evidence, FieldId, PortolanHit, RetrievalBudget,
    RetrievalContext, RetrievalOrigin, Score, StandardAffordance, SubjectRef,
};
pub use crate::query::{ParsedQuery, PortolanQuery};
pub use crate::source::{CandidateBuffer, CandidateSink, RetrievalSource};
pub use crate::observe::{RetrievalTrace, SourceVisit, StopReason};
pub use crate::route::{
    RetrievalRouter, RoutePlan, RoutePolicy, RouteStage, RouteStats, StagedRetrievalSource,
};
