//! Translation of source-local events into the coordinated event stream.

use vstd::prelude::*;

use crate::base::{clone_faithful, SubjectRef};
use crate::live::events::{SearchEvent, SessionPatchOp, SessionResult, SourcePatchOp, SourceSearchEvent};
use crate::live::ids::{LocalResultId, QuerySessionId, Revision, SessionResultId, SourceSlot};
use crate::route::RouteStage;

verus! {

/// The coordinated form of one source-local patch operation: result ids gain
/// the source slot, results gain the source identifier and stage.
pub open spec fn translate_op_spec<SourceId, S: SubjectRef, A, E>(
    source_slot: SourceSlot,
    source: SourceId,
    stage: RouteStage,
    op: SourcePatchOp<S, A, E>,
) -> SessionPatchOp<SourceId, S, A, E> {
    match op {
        SourcePatchOp::Insert { result } => SessionPatchOp::Insert {
            result: SessionResult {
                id: SessionResultId { source_slot, local: result.id },
                source,
                stage,
                hit: result.hit,
            },
        },
        SourcePatchOp::Replace { result } => SessionPatchOp::Replace {
            result: SessionResult {
                id: SessionResultId { source_slot, local: result.id },
                source,
                stage,
                hit: result.hit,
            },
        },
        SourcePatchOp::Remove { result_id } => SessionPatchOp::Remove {
            result_id: SessionResultId { source_slot, local: result_id },
        },
        SourcePatchOp::MoveBefore { result_id, anchor } => SessionPatchOp::MoveBefore {
            result_id: SessionResultId { source_slot, local: result_id },
            anchor: match anchor {
                Some(a) => Some(SessionResultId { source_slot, local: a }),
                None => None,
            },
        },
    }
}

/// Translate one source-local patch operation.
pub fn translate_patch_op<SourceId, S: SubjectRef, A, E>(
    source_slot: SourceSlot,
    source: SourceId,
    stage: RouteStage,
    op: SourcePatchOp<S, A, E>,
) -> (r: SessionPatchOp<SourceId, S, A, E>)
    ensures
        r == translate_op_spec(source_slot, source, stage, op),
{
    match op {
        SourcePatchOp::Insert { result } => SessionPatchOp::Insert {
            result: SessionResult::from_source_result(source_slot, source, stage, result),
        },
        SourcePatchOp::Replace { result } => SessionPatchOp::Replace {
            result: SessionResult::from_source_result(source_slot, source, stage, result),
        },
        SourcePatchOp::Remove { result_id } => SessionPatchOp::Remove {
            result_id: SessionResultId::new(source_slot, result_id),
        },
        SourcePatchOp::MoveBefore { result_id, anchor } => {
            let anchor = match anchor {
                Some(a) => Some(SessionResultId::new(source_slot, a)),
                None => None,
            };
            SessionPatchOp::MoveBefore {
                result_id: SessionResultId::new(source_slot, result_id),
                anchor,
            }
        },
    }
}

/// Whether `out` is the coordinated form of the source event `event`, stamped
/// with `session_id` and coordinator revision `revision`.
pub open spec fn translated<SourceId, S: SubjectRef, A, E, Progress, Detail>(
    session_id: QuerySessionId,
    revision: Revision,
    source_slot: SourceSlot,
    source: SourceId,
    stage: RouteStage,
    event: SourceSearchEvent<S, A, E, Progress, Detail>,
    out: SearchEvent<SourceId, S, A, E, Progress, Detail>,
) -> bool {
    match event {
        SourceSearchEvent::Begin { capabilities, .. } => out == SearchEvent::<
            SourceId,
            S,
            A,
            E,
            Progress,
            Detail,
        >::SourceStarted { session_id, revision, source, stage, capabilities },
        SourceSearchEvent::ApplyPatch { ops, .. } => match out {
            SearchEvent::ApplyPatch {
                session_id: s,
                revision: r,
                source: src,
                stage: st,
                ops: out_ops,
            } => {
                &&& s == session_id
                &&& r == revision
                &&& src == source
                &&& st == stage
                &&& out_ops@ == ops@.map_values(
                    |op: SourcePatchOp<S, A, E>| translate_op_spec(source_slot, source, stage, op),
                )
            },
            _ => false,
        },
        SourceSearchEvent::Progress { progress, .. } => out == SearchEvent::<
            SourceId,
            S,
            A,
            E,
            Progress,
            Detail,
        >::Progress { session_id, revision, source, stage, progress },
        SourceSearchEvent::StatusChanged { status, .. } => out == SearchEvent::<
            SourceId,
            S,
            A,
            E,
            Progress,
            Detail,
        >::StatusChanged { session_id, revision, source, stage, status },
    }
}

/// Translate one source-local event into the coordinated stream.
///
/// Every coordinated patch operation carries a clone of `source`.
pub fn translate_event<SourceId: Clone, S: SubjectRef, A, E, Progress, Detail>(
    session_id: QuerySessionId,
    revision: Revision,
    source_slot: SourceSlot,
    source: SourceId,
    stage: RouteStage,
    event: SourceSearchEvent<S, A, E, Progress, Detail>,
) -> (r: SearchEvent<SourceId, S, A, E, Progress, Detail>)
    ensures
        r.session_id_spec() == session_id,
        r.revision_spec() == Some(revision),
        !(r is SessionStarted),
        !(r is SessionFinished),
        clone_faithful::<SourceId>() ==> translated(
            session_id,
            revision,
            source_slot,
            source,
            stage,
            event,
            r,
        ),
{
    match event {
        SourceSearchEvent::Begin { capabilities, .. } => SearchEvent::SourceStarted {
            session_id,
            revision,
            source,
            stage,
            capabilities,
        },
        SourceSearchEvent::ApplyPatch { ops, .. } => {
            let ghost source_ops = ops@;
            let mut translated_ops: Vec<SessionPatchOp<SourceId, S, A, E>> = Vec::new();
            for op in it: ops.into_iter()
                invariant
                    it.seq() == source_ops,
                    translated_ops@.len() == it.index(),
                    clone_faithful::<SourceId>() ==> forall|j: int|
                        0 <= j < translated_ops@.len() ==> translated_ops@[j] == translate_op_spec(
                            source_slot,
                            source,
                            stage,
                            #[trigger] source_ops[j],
                        ),
            {
                let op_source = source.clone();
                proof {
                    assert(vstd::pervasive::strictly_cloned(source, op_source));
                    assert(op == source_ops[translated_ops@.len() as int]);
                }
                translated_ops.push(translate_patch_op(source_slot, op_source, stage, op));
            }
            proof {
                if clone_faithful::<SourceId>() {
                    assert(translated_ops@ =~= source_ops.map_values(
                        |op: SourcePatchOp<S, A, E>| translate_op_spec(source_slot, source, stage, op),
                    ));
                }
            }
            SearchEvent::ApplyPatch { session_id, revision, source, stage, ops: translated_ops }
        },
        SourceSearchEvent::Progress { progress, .. } => SearchEvent::Progress {
            session_id,
            revision,
            source,
            stage,
            progress,
        },
        SourceSearchEvent::StatusChanged { status, .. } => SearchEvent::StatusChanged {
            session_id,
            revision,
            source,
            stage,
            status,
        },
    }
}

/// Translation keeps what each patch operation does and to which results: an
/// insert, replacement, removal or move stays one, its result ids gain the
/// source slot and keep their local ids, results keep their hits and gain the
/// source and stage, and a move keeps its anchor (present exactly when the
/// source's move had one).
pub proof fn law_translation_keeps_operations<SourceId, S: SubjectRef, A, E>(
    source_slot: SourceSlot,
    source: SourceId,
    stage: RouteStage,
    op: SourcePatchOp<S, A, E>,
)
    ensures
        ({
            let t = translate_op_spec(source_slot, source, stage, op);
            &&& (op is Insert <==> t is Insert)
            &&& (op is Replace <==> t is Replace)
            &&& (op is Remove <==> t is Remove)
            &&& (op is MoveBefore <==> t is MoveBefore)
            &&& op is Insert ==> {
                &&& t->Insert_result.id.source_slot == source_slot
                &&& t->Insert_result.id.local == op->Insert_result.id
                &&& t->Insert_result.hit == op->Insert_result.hit
                &&& t->Insert_result.source == source
                &&& t->Insert_result.stage == stage
            }
            &&& op is Replace ==> {
                &&& t->Replace_result.id.source_slot == source_slot
                &&& t->Replace_result.id.local == op->Replace_result.id
                &&& t->Replace_result.hit == op->Replace_result.hit
                &&& t->Replace_result.source == source
                &&& t->Replace_result.stage == stage
            }
            &&& op is Remove ==> {
                &&& t->Remove_result_id.source_slot == source_slot
                &&& t->Remove_result_id.local == op->Remove_result_id
            }
            &&& op is MoveBefore ==> {
                &&& t->MoveBefore_result_id.source_slot == source_slot
                &&& t->MoveBefore_result_id.local == op->MoveBefore_result_id
                &&& (t->MoveBefore_anchor is Some <==> op->MoveBefore_anchor is Some)
                &&& op->MoveBefore_anchor matches Some(a) ==> {
                    &&& t->MoveBefore_anchor.unwrap().source_slot == source_slot
                    &&& t->MoveBefore_anchor.unwrap().local == a
                }
            }
        }),
{
}

/// Coordinated result ids keep sources apart: two translated ids are equal
/// exactly when they come from the same source slot and the same local id.
pub proof fn law_session_result_ids_keep_sources_apart(
    slot_a: SourceSlot,
    local_a: LocalResultId,
    slot_b: SourceSlot,
    local_b: LocalResultId,
)
    ensures
        (SessionResultId { source_slot: slot_a, local: local_a } == SessionResultId {
            source_slot: slot_b,
            local: local_b,
        }) <==> (slot_a == slot_b && local_a == local_b),
{
}

} // verus!
