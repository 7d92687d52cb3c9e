//! The live source protocol: what the coordinator accepts from one source.
//!
//! Every source session must open with one `Begin`, carry the coordinator's
//! session id, use strictly increasing revisions, stay within its declared
//! capabilities, only touch result ids it introduced, keep the subject of a
//! result id across replacements, and emit nothing after a terminal status.

use vstd::prelude::*;

use crate::base::{subject_laws, SubjectRef};
use crate::live::events::{SourcePatchOp, SourceResult, SourceSearchEvent};
use crate::live::ids::{LocalResultId, QuerySessionId, Revision, SourceCapabilities, StatusUpdate};

verus! {

/// One result id a source has introduced, with the subject it carries.
#[derive(Clone, Debug, PartialEq)]
pub struct KnownResult<S> {
    /// Source-local result id.
    pub id: LocalResultId,
    /// Subject associated with the id when it was inserted.
    pub subject: S,
}

/// Whether no result id occurs twice.
pub open spec fn ids_distinct<S>(known: Seq<KnownResult<S>>) -> bool {
    forall|i: int, j: int| 0 <= i < j < known.len() ==> known[i].id != known[j].id
}

/// Whether `id` is a known result id.
pub open spec fn has_id<S>(known: Seq<KnownResult<S>>, id: LocalResultId) -> bool {
    exists|i: int| 0 <= i < known.len() && known[i].id == id
}

/// Position of a known result id.
pub open spec fn index_of_id<S>(known: Seq<KnownResult<S>>, id: LocalResultId) -> int {
    choose|i: int| 0 <= i < known.len() && known[i].id == id
}

/// Whether `id` is known and was introduced with `subject`.
pub open spec fn subject_matches<S>(known: Seq<KnownResult<S>>, id: LocalResultId, subject: S) -> bool {
    exists|i: int| 0 <= i < known.len() && known[i].id == id && known[i].subject == subject
}

/// The effect of one patch operation on the known results, or `None` when the
/// operation breaks the protocol.
pub open spec fn apply_patch_op<S: SubjectRef, A, E>(
    caps: SourceCapabilities,
    known: Seq<KnownResult<S>>,
    op: SourcePatchOp<S, A, E>,
) -> Option<Seq<KnownResult<S>>> {
    match op {
        SourcePatchOp::Insert { result } => {
            if has_id(known, result.id) {
                None
            } else {
                Some(known.push(KnownResult { id: result.id, subject: result.hit.subject }))
            }
        },
        SourcePatchOp::Replace { result } => {
            if caps.revises_results && subject_matches(known, result.id, result.hit.subject) {
                Some(known)
            } else {
                None
            }
        },
        SourcePatchOp::Remove { result_id } => {
            if caps.retracts_results && has_id(known, result_id) {
                Some(known.remove(index_of_id(known, result_id)))
            } else {
                None
            }
        },
        SourcePatchOp::MoveBefore { result_id, anchor } => {
            if caps.revises_results && has_id(known, result_id) && (anchor matches Some(a) ==> (
            has_id(known, a) && a != result_id)) {
                Some(known)
            } else {
                None
            }
        },
    }
}

/// The effect of a whole patch, applied operation by operation.
pub open spec fn apply_patch_ops<S: SubjectRef, A, E>(
    caps: SourceCapabilities,
    known: Seq<KnownResult<S>>,
    ops: Seq<SourcePatchOp<S, A, E>>,
) -> Option<Seq<KnownResult<S>>>
    decreases ops.len(),
{
    if ops.len() == 0 {
        Some(known)
    } else {
        match apply_patch_op(caps, known, ops[0]) {
            Some(next) => apply_patch_ops(caps, next, ops.drop_first()),
            None => None,
        }
    }
}

/// Whether `revision` is newer than the last accepted revision.
pub open spec fn revision_advances(last: Option<Revision>, revision: Revision) -> bool {
    last matches Some(previous) ==> previous.get_spec() < revision.get_spec()
}

/// Protocol state after one source event: `(started, terminal, last revision,
/// known results, patched)`, or `None` when the event breaks the protocol.
/// `patched` records that a patch was accepted; a source that does not stream
/// partial results may send only one patch round.
pub open spec fn validate_spec<S: SubjectRef, A, E, Progress, Detail>(
    started: bool,
    terminal: bool,
    last_revision: Option<Revision>,
    known: Seq<KnownResult<S>>,
    patched: bool,
    caps: SourceCapabilities,
    session_id: QuerySessionId,
    event: SourceSearchEvent<S, A, E, Progress, Detail>,
) -> Option<(bool, bool, Option<Revision>, Seq<KnownResult<S>>, bool)> {
    if event.session_id_spec() != session_id || terminal || !revision_advances(
        last_revision,
        event.revision_spec(),
    ) {
        None
    } else {
        let revision = Some(event.revision_spec());
        match event {
            SourceSearchEvent::Begin { .. } => {
                if started {
                    None
                } else {
                    Some((true, false, revision, known, patched))
                }
            },
            SourceSearchEvent::ApplyPatch { ops, .. } => {
                if !started || (patched && !caps.streams_partial_results) {
                    None
                } else {
                    match apply_patch_ops(caps, known, ops@) {
                        Some(next) => Some((true, false, revision, next, true)),
                        None => None,
                    }
                }
            },
            SourceSearchEvent::Progress { .. } => {
                if !started || !caps.reports_progress {
                    None
                } else {
                    Some((true, false, revision, known, patched))
                }
            },
            SourceSearchEvent::StatusChanged { status, .. } => {
                if !started {
                    None
                } else {
                    Some((true, status.state.is_terminal_spec(), revision, known, patched))
                }
            },
        }
    }
}

/// Nothing is accepted from a source after its terminal status, and every
/// accepted event carries the session id and a revision above the last one,
/// which becomes the new last revision.
pub proof fn law_protocol_event_discipline<S: SubjectRef, A, E, Progress, Detail>(
    started: bool,
    terminal: bool,
    last_revision: Option<Revision>,
    known: Seq<KnownResult<S>>,
    patched: bool,
    caps: SourceCapabilities,
    session_id: QuerySessionId,
    event: SourceSearchEvent<S, A, E, Progress, Detail>,
)
    ensures
        terminal ==> validate_spec(started, terminal, last_revision, known, patched, caps, session_id, event)
            is None,
        validate_spec(started, terminal, last_revision, known, patched, caps, session_id, event) matches Some(
            next,
        ) ==> {
            &&& event.session_id_spec() == session_id
            &&& revision_advances(last_revision, event.revision_spec())
            &&& next.0
            &&& next.2 == Some(event.revision_spec())
        },
{
}

/// A session opens with exactly one `Begin`: before it nothing else is
/// accepted, and after it no second `Begin` is.
pub proof fn law_protocol_begin_exactly_once<S: SubjectRef, A, E, Progress, Detail>(
    started: bool,
    terminal: bool,
    last_revision: Option<Revision>,
    known: Seq<KnownResult<S>>,
    patched: bool,
    caps: SourceCapabilities,
    session_id: QuerySessionId,
    event: SourceSearchEvent<S, A, E, Progress, Detail>,
)
    ensures
        validate_spec(started, terminal, last_revision, known, patched, caps, session_id, event) is Some
            ==> (event is Begin <==> !started),
{
}

/// Sources stay within their declared capabilities: progress needs
/// `reports_progress`, replacing or moving needs `revises_results`, removing
/// needs `retracts_results`.
pub proof fn law_protocol_capabilities_bound_events<S: SubjectRef, A, E>(
    caps: SourceCapabilities,
    known: Seq<KnownResult<S>>,
    op: SourcePatchOp<S, A, E>,
)
    ensures
        !caps.revises_results && (op is Replace || op is MoveBefore) ==> apply_patch_op(caps, known, op)
            is None,
        !caps.retracts_results && op is Remove ==> apply_patch_op(caps, known, op) is None,
{
}

/// A source that does not stream partial results sends at most one patch
/// round: once a patch was accepted, every later patch is refused.
pub proof fn law_protocol_one_patch_round_without_streaming<S: SubjectRef, A, E, Progress, Detail>(
    started: bool,
    terminal: bool,
    last_revision: Option<Revision>,
    known: Seq<KnownResult<S>>,
    caps: SourceCapabilities,
    session_id: QuerySessionId,
    event: SourceSearchEvent<S, A, E, Progress, Detail>,
)
    requires
        !caps.streams_partial_results,
        event is ApplyPatch,
    ensures
        validate_spec(started, terminal, last_revision, known, true, caps, session_id, event) is None,
        validate_spec(started, terminal, last_revision, known, false, caps, session_id, event) matches Some(
            next,
        ) ==> next.4,
{
}

/// A move is accepted exactly when the source may revise results, the moved
/// id is known, and the anchor, if any, is another known id: a move anchored
/// on a result the source never introduced (or removed) is refused, and an
/// accepted move leaves the known results as they were.
pub proof fn law_protocol_move_needs_known_anchor<S: SubjectRef, A, E>(
    caps: SourceCapabilities,
    known: Seq<KnownResult<S>>,
    result_id: LocalResultId,
    anchor: Option<LocalResultId>,
)
    ensures
        apply_patch_op(caps, known, SourcePatchOp::<S, A, E>::MoveBefore { result_id, anchor }) is Some <==> {
            &&& caps.revises_results
            &&& exists|i: int| 0 <= i < known.len() && known[i].id == result_id
            &&& anchor matches Some(a) ==> {
                &&& exists|i: int| 0 <= i < known.len() && known[i].id == a
                &&& a != result_id
            }
        },
        apply_patch_op(caps, known, SourcePatchOp::<S, A, E>::MoveBefore { result_id, anchor }) is Some
            ==> apply_patch_op(caps, known, SourcePatchOp::<S, A, E>::MoveBefore { result_id, anchor }) == Some(
            known,
        ),
        anchor matches Some(a) && (forall|i: int| 0 <= i < known.len() ==> known[i].id != a) ==> apply_patch_op(
            caps,
            known,
            SourcePatchOp::<S, A, E>::MoveBefore { result_id, anchor },
        ) is None,
{
}

/// Revisions need only increase, not count up by one: with the session id
/// right, the session started and not terminal, a status event is accepted
/// exactly when its revision is above the last accepted one (any revision
/// when none was accepted yet), and its revision becomes the last one.
pub proof fn law_protocol_revisions_need_only_increase<S: SubjectRef, A, E, Progress, Detail>(
    last_revision: Option<Revision>,
    known: Seq<KnownResult<S>>,
    patched: bool,
    caps: SourceCapabilities,
    session_id: QuerySessionId,
    event: SourceSearchEvent<S, A, E, Progress, Detail>,
)
    requires
        event is StatusChanged,
        event.session_id_spec() == session_id,
    ensures
        validate_spec(true, false, last_revision, known, patched, caps, session_id, event) is Some <==> match last_revision {
            Some(previous) => previous.get_spec() < event.revision_spec().get_spec(),
            None => true,
        },
        validate_spec(true, false, last_revision, known, patched, caps, session_id, event) matches Some(next)
            ==> next.2 == Some(event.revision_spec()),
        forall|previous: Revision, revision: Revision|
            previous.get_spec() < revision.get_spec() ==> #[trigger] revision_advances(Some(previous), revision),
        forall|previous: Revision, revision: Revision|
            revision.get_spec() <= previous.get_spec() ==> !#[trigger] revision_advances(Some(previous), revision),
{
}

/// Only patches change the known results: an accepted `Begin`, progress
/// report or status (terminal or not) leaves them, and whether the session
/// has sent a patch, exactly as they were.
pub proof fn law_protocol_only_patches_change_known_results<S: SubjectRef, A, E, Progress, Detail>(
    started: bool,
    terminal: bool,
    last_revision: Option<Revision>,
    known: Seq<KnownResult<S>>,
    patched: bool,
    caps: SourceCapabilities,
    session_id: QuerySessionId,
    event: SourceSearchEvent<S, A, E, Progress, Detail>,
)
    requires
        !(event is ApplyPatch),
    ensures
        validate_spec(started, terminal, last_revision, known, patched, caps, session_id, event) matches Some(next)
            ==> next.3 == known && next.4 == patched,
{
}

/// A replacement is accepted only for a known id carrying the same subject,
/// and leaves the known results unchanged.
pub proof fn law_protocol_replace_keeps_subject<S: SubjectRef, A, E>(
    caps: SourceCapabilities,
    known: Seq<KnownResult<S>>,
    result: SourceResult<S, A, E>,
)
    ensures
        apply_patch_op(caps, known, SourcePatchOp::Replace { result }) is Some ==> {
            &&& subject_matches(known, result.id, result.hit.subject)
            &&& apply_patch_op(caps, known, SourcePatchOp::Replace { result }) == Some(known)
        },
{
}

/// Accepted patches never make two known results share an id.
pub proof fn law_protocol_keeps_ids_distinct<S: SubjectRef, A, E>(
    caps: SourceCapabilities,
    known: Seq<KnownResult<S>>,
    ops: Seq<SourcePatchOp<S, A, E>>,
)
    requires
        ids_distinct(known),
    ensures
        apply_patch_ops(caps, known, ops) matches Some(next) ==> ids_distinct(next),
    decreases ops.len(),
{
    if ops.len() > 0 {
        if let Some(next) = apply_patch_op(caps, known, ops[0]) {
            match ops[0] {
                SourcePatchOp::Insert { result } => {
                    assert forall|i: int, j: int| 0 <= i < j < next.len() implies next[i].id != next[j].id by {
                        if j == next.len() - 1 {
                            assert(next[i] == known[i]);
                        }
                    }
                },
                SourcePatchOp::Remove { result_id } => {
                    let k = index_of_id(known, result_id);
                    assert forall|i: int, j: int| 0 <= i < j < next.len() implies next[i].id != next[j].id by {
                        let ii = if i < k { i } else { i + 1 };
                        let jj = if j < k { j } else { j + 1 };
                        assert(next[i] == known[ii]);
                        assert(next[j] == known[jj]);
                    }
                },
                _ => {},
            }
            law_protocol_keeps_ids_distinct(caps, next, ops.drop_first());
        }
    }
}

/// Whether the capabilities permit `op` at all: replacing and moving need
/// `revises_results`, removing needs `retracts_results`.
pub open spec fn op_allowed<S: SubjectRef, A, E>(caps: SourceCapabilities, op: SourcePatchOp<S, A, E>) -> bool {
    match op {
        SourcePatchOp::Insert { .. } => true,
        SourcePatchOp::Replace { .. } => caps.revises_results,
        SourcePatchOp::Remove { .. } => caps.retracts_results,
        SourcePatchOp::MoveBefore { .. } => caps.revises_results,
    }
}

/// Whether two runs of known results carry the same ids in the same order.
pub open spec fn same_ids<S>(a: Seq<KnownResult<S>>, b: Seq<KnownResult<S>>) -> bool {
    &&& a.len() == b.len()
    &&& forall|i: int| 0 <= i < a.len() ==> (#[trigger] a[i]).id == b[i].id
}

/// How the known results a coordinator stores relate to the protocol's:
/// equal for subjects whose `==` and `clone` behave like plain values, and
/// otherwise equal id by id (stored subjects are clones).
pub open spec fn known_match<S: SubjectRef>(stored: Seq<KnownResult<S>>, known: Seq<KnownResult<S>>) -> bool {
    &&& same_ids(stored, known)
    &&& subject_laws::<S>() ==> stored == known
}

/// Whether the protocol's verdict on `event` never compares subjects: it is
/// not a patch that replaces a result.
pub open spec fn subject_free<S: SubjectRef, A, E, Progress, Detail>(
    event: SourceSearchEvent<S, A, E, Progress, Detail>,
) -> bool {
    event matches SourceSearchEvent::ApplyPatch { ops, .. } ==> forall|i: int|
        0 <= i < ops@.len() ==> !(#[trigger] ops@[i] is Replace)
}

/// Every run has its own ids.
proof fn lemma_same_ids_refl<S>(a: Seq<KnownResult<S>>)
    ensures
        same_ids(a, a),
{
}

/// Having the same ids is symmetric.
proof fn lemma_same_ids_sym<S>(a: Seq<KnownResult<S>>, b: Seq<KnownResult<S>>)
    requires
        same_ids(a, b),
    ensures
        same_ids(b, a),
{
    assert forall|i: int| 0 <= i < b.len() implies (#[trigger] b[i]).id == a[i].id by {
        assert(a[i].id == b[i].id);
    }
}

/// Having the same ids is transitive.
proof fn lemma_same_ids_trans<S>(a: Seq<KnownResult<S>>, b: Seq<KnownResult<S>>, c: Seq<KnownResult<S>>)
    requires
        same_ids(a, b),
        same_ids(b, c),
    ensures
        same_ids(a, c),
{
    assert forall|i: int| 0 <= i < a.len() implies (#[trigger] a[i]).id == c[i].id by {
        assert(a[i].id == b[i].id);
        assert(b[i].id == c[i].id);
    }
}

/// Id-level facts about known results carry over between runs with the same ids.
proof fn lemma_same_ids_has_id<S>(a: Seq<KnownResult<S>>, b: Seq<KnownResult<S>>, id: LocalResultId)
    requires
        same_ids(a, b),
    ensures
        has_id(a, id) == has_id(b, id),
        ids_distinct(a) == ids_distinct(b),
        ids_distinct(a) && has_id(a, id) ==> index_of_id(a, id) == index_of_id(b, id),
{
    if has_id(a, id) {
        let i = choose|i: int| 0 <= i < a.len() && a[i].id == id;
        assert(b[i].id == id);
    }
    if has_id(b, id) {
        let i = choose|i: int| 0 <= i < b.len() && b[i].id == id;
        assert(a[i].id == id);
    }
    assert(ids_distinct(a) == ids_distinct(b)) by {
        if ids_distinct(a) {
            assert forall|i: int, j: int| 0 <= i < j < b.len() implies b[i].id != b[j].id by {
                assert(a[i].id == b[i].id && a[j].id == b[j].id);
            }
        }
        if ids_distinct(b) {
            assert forall|i: int, j: int| 0 <= i < j < a.len() implies a[i].id != a[j].id by {
                assert(a[i].id == b[i].id && a[j].id == b[j].id);
            }
        }
    }
    if ids_distinct(a) && has_id(a, id) {
        let ia = index_of_id(a, id);
        let ib = index_of_id(b, id);
        assert(a[ib].id == b[ib].id);
        if ia != ib {
            if ia < ib {
                assert(a[ia].id != a[ib].id);
            } else {
                assert(a[ib].id != a[ia].id);
            }
        }
    }
}

/// A patch operation that replaces nothing decides by ids alone.
pub proof fn lemma_apply_patch_op_same_ids<S: SubjectRef, A, E>(
    caps: SourceCapabilities,
    a: Seq<KnownResult<S>>,
    b: Seq<KnownResult<S>>,
    op: SourcePatchOp<S, A, E>,
)
    requires
        same_ids(a, b),
        ids_distinct(b),
        !(op is Replace),
    ensures
        apply_patch_op(caps, a, op) is Some == apply_patch_op(caps, b, op) is Some,
        apply_patch_op(caps, a, op) is Some ==> same_ids(
            apply_patch_op(caps, a, op).unwrap(),
            apply_patch_op(caps, b, op).unwrap(),
        ),
{
    match op {
        SourcePatchOp::Insert { result } => {
            lemma_same_ids_has_id(a, b, result.id);
            if !has_id(a, result.id) {
                let na = a.push(KnownResult { id: result.id, subject: result.hit.subject });
                let nb = b.push(KnownResult { id: result.id, subject: result.hit.subject });
                assert forall|i: int| 0 <= i < na.len() implies (#[trigger] na[i]).id == nb[i].id by {
                    if i < a.len() {
                        assert(na[i] == a[i] && nb[i] == b[i]);
                    }
                }
            }
        },
        SourcePatchOp::Remove { result_id } => {
            lemma_same_ids_has_id(a, b, result_id);
            if caps.retracts_results && has_id(a, result_id) {
                let k = index_of_id(a, result_id);
                let na = a.remove(k);
                let nb = b.remove(k);
                assert forall|i: int| 0 <= i < na.len() implies (#[trigger] na[i]).id == nb[i].id by {
                    let ii = if i < k { i } else { i + 1 };
                    assert(na[i] == a[ii] && nb[i] == b[ii]);
                }
            }
        },
        SourcePatchOp::MoveBefore { result_id, anchor } => {
            lemma_same_ids_has_id(a, b, result_id);
            if let Some(x) = anchor {
                lemma_same_ids_has_id(a, b, x);
            }
        },
        SourcePatchOp::Replace { .. } => {},
    }
}

/// A patch that replaces nothing decides by ids alone.
pub proof fn lemma_apply_patch_ops_same_ids<S: SubjectRef, A, E>(
    caps: SourceCapabilities,
    a: Seq<KnownResult<S>>,
    b: Seq<KnownResult<S>>,
    ops: Seq<SourcePatchOp<S, A, E>>,
)
    requires
        same_ids(a, b),
        ids_distinct(b),
        forall|i: int| 0 <= i < ops.len() ==> !(#[trigger] ops[i] is Replace),
    ensures
        apply_patch_ops(caps, a, ops) is Some == apply_patch_ops(caps, b, ops) is Some,
        apply_patch_ops(caps, a, ops) is Some ==> same_ids(
            apply_patch_ops(caps, a, ops).unwrap(),
            apply_patch_ops(caps, b, ops).unwrap(),
        ),
    decreases ops.len(),
{
    if ops.len() > 0 {
        assert(!(ops[0] is Replace));
        lemma_apply_patch_op_same_ids(caps, a, b, ops[0]);
        if let Some(nb) = apply_patch_op(caps, b, ops[0]) {
            let na = apply_patch_op(caps, a, ops[0]).unwrap();
            let single = seq![ops[0]];
            assert(single[0] == ops[0]);
            assert(single.drop_first() =~= Seq::<SourcePatchOp<S, A, E>>::empty());
            assert(apply_patch_ops(caps, nb, Seq::<SourcePatchOp<S, A, E>>::empty()) == Some(nb));
            assert(apply_patch_ops(caps, b, single) == Some(nb));
            law_protocol_keeps_ids_distinct(caps, b, single);
            let rest = ops.drop_first();
            assert forall|i: int| 0 <= i < rest.len() implies !(#[trigger] rest[i] is Replace) by {
                assert(rest[i] == ops[i + 1]);
            }
            lemma_apply_patch_ops_same_ids(caps, na, nb, rest);
        }
    }
}

/// The protocol's verdict on an event that compares no subjects depends on
/// the known results' ids alone.
pub proof fn lemma_validate_spec_same_ids<S: SubjectRef, A, E, Progress, Detail>(
    started: bool,
    terminal: bool,
    last_revision: Option<Revision>,
    a: Seq<KnownResult<S>>,
    b: Seq<KnownResult<S>>,
    patched: bool,
    caps: SourceCapabilities,
    session_id: QuerySessionId,
    event: SourceSearchEvent<S, A, E, Progress, Detail>,
)
    requires
        same_ids(a, b),
        ids_distinct(b),
        subject_free(event),
    ensures
        ({
            let va = validate_spec(started, terminal, last_revision, a, patched, caps, session_id, event);
            let vb = validate_spec(started, terminal, last_revision, b, patched, caps, session_id, event);
            &&& va is Some == vb is Some
            &&& va is Some ==> {
                &&& va.unwrap().0 == vb.unwrap().0
                &&& va.unwrap().1 == vb.unwrap().1
                &&& va.unwrap().2 == vb.unwrap().2
                &&& same_ids(va.unwrap().3, vb.unwrap().3)
                &&& va.unwrap().4 == vb.unwrap().4
            }
        }),
{
    if let SourceSearchEvent::ApplyPatch { ops, .. } = event {
        lemma_apply_patch_ops_same_ids(caps, a, b, ops@);
    }
}

/// Applying one more operation after a run of operations.
pub proof fn lemma_apply_patch_ops_push<S: SubjectRef, A, E>(
    caps: SourceCapabilities,
    known: Seq<KnownResult<S>>,
    ops: Seq<SourcePatchOp<S, A, E>>,
    op: SourcePatchOp<S, A, E>,
)
    ensures
        apply_patch_ops(caps, known, ops.push(op)) == match apply_patch_ops(caps, known, ops) {
            Some(next) => apply_patch_op(caps, next, op),
            None => None,
        },
    decreases ops.len(),
{
    if ops.len() == 0 {
        assert(ops.push(op).drop_first() =~= Seq::<SourcePatchOp<S, A, E>>::empty());
        match apply_patch_op(caps, known, op) {
            Some(n) => {
                assert(apply_patch_ops(caps, n, Seq::<SourcePatchOp<S, A, E>>::empty()) == Some(n));
            },
            None => {},
        }
    } else {
        assert(ops.push(op)[0] == ops[0]);
        assert(ops.push(op).drop_first() =~= ops.drop_first().push(op));
        if let Some(next) = apply_patch_op(caps, known, ops[0]) {
            lemma_apply_patch_ops_push(caps, next, ops.drop_first(), op);
        }
    }
}

/// Protocol bookkeeping for one source session inside a coordinator.
pub struct SourceProtocolState<S: SubjectRef, Detail> {
    /// Whether the source has sent its `Begin` event.
    pub started: bool,
    /// Whether the coordinator has announced the source as started.
    pub announced_started: bool,
    /// Whether the source reached a terminal status or was failed.
    pub terminal: bool,
    /// Last accepted source revision.
    pub last_revision: Option<Revision>,
    /// Result ids the source introduced and has not removed, in insertion order.
    pub known_results: Vec<KnownResult<S>>,
    /// Status the coordinator will emit for this source on its next poll.
    pub pending_status: Option<StatusUpdate<Detail>>,
    /// Whether a patch from the source was accepted.
    pub patched: bool,
}

impl<S: SubjectRef, Detail> SourceProtocolState<S, Detail> {
    /// Well-formedness: no result id is known twice.
    pub open spec fn wf(&self) -> bool {
        ids_distinct(self.known_results@)
    }

    /// Fresh state for a source that has not emitted anything.
    pub fn new() -> (r: Self)
        ensures
            r.wf(),
            !r.started,
            !r.announced_started,
            !r.terminal,
            r.last_revision is None,
            r.known_results@.len() == 0,
            r.pending_status is None,
            !r.patched,
    {
        SourceProtocolState {
            started: false,
            announced_started: false,
            terminal: false,
            last_revision: None,
            known_results: Vec::new(),
            pending_status: None,
            patched: false,
        }
    }

    /// Accept `revision` when it is newer than the last accepted revision.
    pub fn remember_revision(&mut self, revision: Revision) -> (r: bool)
        ensures
            r == revision_advances(old(self).last_revision, revision),
            r ==> final(self).last_revision == Some(revision),
            !r ==> final(self).last_revision == old(self).last_revision,
            final(self).started == old(self).started,
            final(self).announced_started == old(self).announced_started,
            final(self).terminal == old(self).terminal,
            final(self).known_results@ == old(self).known_results@,
            final(self).pending_status == old(self).pending_status,
            final(self).patched == old(self).patched,
    {
        if let Some(previous) = self.last_revision {
            if revision.get() <= previous.get() {
                return false;
            }
        }
        self.last_revision = Some(revision);
        true
    }

    /// Position of `result_id` among the known results.
    fn position_of(&self, result_id: LocalResultId) -> (r: Option<usize>)
        ensures
            r matches Some(i) ==> i < self.known_results@.len() && self.known_results@[i as int].id
                == result_id,
            r is None ==> !has_id(self.known_results@, result_id),
    {
        let mut i: usize = 0;
        while i < self.known_results.len()
            invariant
                i <= self.known_results@.len(),
                forall|j: int| 0 <= j < i ==> self.known_results@[j].id != result_id,
            decreases self.known_results@.len() - i,
        {
            if self.known_results[i].id == result_id {
                return Some(i);
            }
            i = i + 1;
        }
        None
    }

    /// Whether `result_id` is known.
    pub fn contains_result(&self, result_id: LocalResultId) -> (r: bool)
        ensures
            r == has_id(self.known_results@, result_id),
    {
        self.position_of(result_id).is_some()
    }

    /// Introduce `result_id` with `subject`; refused when the id is already known.
    pub fn insert_result(&mut self, result_id: LocalResultId, subject: &S) -> (r: bool)
        requires
            old(self).wf(),
        ensures
            final(self).wf(),
            r == !has_id(old(self).known_results@, result_id),
            r ==> final(self).known_results@.len() == old(self).known_results@.len() + 1,
            r ==> final(self).known_results@.drop_last() == old(self).known_results@,
            r ==> final(self).known_results@.last().id == result_id,
            r ==> vstd::pervasive::cloned(*subject, final(self).known_results@.last().subject),
            !r ==> final(self).known_results@ == old(self).known_results@,
            final(self).started == old(self).started,
            final(self).announced_started == old(self).announced_started,
            final(self).terminal == old(self).terminal,
            final(self).last_revision == old(self).last_revision,
            final(self).pending_status == old(self).pending_status,
            final(self).patched == old(self).patched,
    {
        if self.contains_result(result_id) {
            return false;
        }
        let stored = subject.clone();
        self.known_results.push(KnownResult { id: result_id, subject: stored });
        proof {
            assert(self.known_results@.drop_last() =~= old(self).known_results@);
        }
        true
    }

    /// Whether `result_id` is known and carries `subject`.
    pub fn replace_result(&self, result_id: LocalResultId, subject: &S) -> (r: bool)
        requires
            self.wf(),
        ensures
            r ==> has_id(self.known_results@, result_id),
            subject_laws::<S>() ==> r == subject_matches(self.known_results@, result_id, *subject),
    {
        match self.position_of(result_id) {
            Some(i) => {
                let same = self.known_results[i].subject == *subject;
                proof {
                    if subject_laws::<S>() {
                        reveal(vstd::laws_eq::obeys_concrete_eq);
                        if subject_matches(self.known_results@, result_id, *subject) {
                            let k = choose|k: int|
                                0 <= k < self.known_results@.len()
                                    && self.known_results@[k].id == result_id
                                    && self.known_results@[k].subject == *subject;
                            assert(k == i);
                        }
                    }
                }
                same
            },
            None => false,
        }
    }

    /// Forget `result_id`; refused when the id is not known.
    pub fn remove_result(&mut self, result_id: LocalResultId) -> (r: bool)
        requires
            old(self).wf(),
        ensures
            final(self).wf(),
            r == has_id(old(self).known_results@, result_id),
            r ==> final(self).known_results@ == old(self).known_results@.remove(
                index_of_id(old(self).known_results@, result_id),
            ),
            !r ==> final(self).known_results@ == old(self).known_results@,
            final(self).started == old(self).started,
            final(self).announced_started == old(self).announced_started,
            final(self).terminal == old(self).terminal,
            final(self).last_revision == old(self).last_revision,
            final(self).pending_status == old(self).pending_status,
            final(self).patched == old(self).patched,
    {
        match self.position_of(result_id) {
            Some(i) => {
                proof {
                    let k = index_of_id(self.known_results@, result_id);
                    assert(has_id(self.known_results@, result_id));
                    assert(k == i as int);
                }
                let _ = self.known_results.remove(i);
                true
            },
            None => false,
        }
    }
}

/// Stored subjects equal the subjects they were cloned from.
proof fn lemma_cloned_equal<S: SubjectRef>(a: S, b: S)
    requires
        subject_laws::<S>(),
        vstd::pervasive::cloned(a, b),
    ensures
        a == b,
{
    if vstd::pervasive::strictly_cloned(a, b) {
    }
}

/// Apply one patch operation to the protocol state.
fn apply_op_exec<S: SubjectRef, Detail, A, E>(
    state: &mut SourceProtocolState<S, Detail>,
    capabilities: SourceCapabilities,
    op: &SourcePatchOp<S, A, E>,
) -> (r: bool)
    requires
        old(state).wf(),
    ensures
        final(state).wf(),
        final(state).started == old(state).started,
        final(state).announced_started == old(state).announced_started,
        final(state).terminal == old(state).terminal,
        final(state).last_revision == old(state).last_revision,
        final(state).pending_status == old(state).pending_status,
        final(state).patched == old(state).patched,
        !r ==> final(state).known_results@ == old(state).known_results@,
        r ==> op_allowed(capabilities, *op),
        r && *op is MoveBefore ==> has_id(old(state).known_results@, op->MoveBefore_result_id) && (
        op->MoveBefore_anchor matches Some(a) ==> has_id(old(state).known_results@, a) && a
            != op->MoveBefore_result_id),
        subject_laws::<S>() ==> match apply_patch_op(capabilities, old(state).known_results@, *op) {
            Some(next) => r && final(state).known_results@ == next,
            None => !r,
        },
        !(*op is Replace) ==> match apply_patch_op(capabilities, old(state).known_results@, *op) {
            Some(next) => r && same_ids(final(state).known_results@, next),
            None => !r,
        },
{
    match op {
        SourcePatchOp::Insert { result } => {
            let ok = state.insert_result(result.id, &result.hit.subject);
            proof {
                if ok {
                    let known = final(state).known_results@;
                    let next = old(state).known_results@.push(
                        KnownResult { id: result.id, subject: result.hit.subject },
                    );
                    assert forall|i: int| 0 <= i < known.len() implies (#[trigger] known[i]).id == next[i].id by {
                        if i < known.len() - 1 {
                            assert(known[i] == known.drop_last()[i]);
                        }
                    }
                }
                if ok && subject_laws::<S>() {
                    let known = final(state).known_results@;
                    lemma_cloned_equal(result.hit.subject, known.last().subject);
                    assert(known =~= old(state).known_results@.push(
                        KnownResult { id: result.id, subject: result.hit.subject },
                    ));
                }
            }
            ok
        },
        SourcePatchOp::Replace { result } => {
            if !capabilities.revises_results {
                return false;
            }
            state.replace_result(result.id, &result.hit.subject)
        },
        SourcePatchOp::Remove { result_id } => {
            if !capabilities.retracts_results {
                return false;
            }
            state.remove_result(*result_id)
        },
        SourcePatchOp::MoveBefore { result_id, anchor } => {
            if !capabilities.revises_results {
                return false;
            }
            if !state.contains_result(*result_id) {
                return false;
            }
            if let Some(anchor) = anchor {
                if !state.contains_result(*anchor) || *anchor == *result_id {
                    return false;
                }
            }
            true
        },
    }
}

/// Check one source event against the protocol and record its effect.
///
/// Returns `Err` when the event carries a foreign session id, arrives after a
/// terminal status, does not advance the revision, is not preceded by `Begin`
/// (or repeats it), exceeds the declared capabilities (including a second
/// patch round from a source that does not stream partial results), or
/// refers to result ids the source has not introduced. A rejected event with
/// the right session id, before a terminal status and with a fresh revision
/// still records that revision; the operations of a rejected patch that came
/// before the refused one stay applied.
pub fn validate_source_event<S: SubjectRef, A, E, Progress, Detail>(
    state: &mut SourceProtocolState<S, Detail>,
    capabilities: SourceCapabilities,
    session_id: QuerySessionId,
    event: &SourceSearchEvent<S, A, E, Progress, Detail>,
) -> (r: Result<(), ()>)
    requires
        old(state).wf(),
    ensures
        final(state).wf(),
        final(state).announced_started == old(state).announced_started,
        final(state).pending_status == old(state).pending_status,
        r is Ok ==> event.session_id_spec() == session_id,
        r is Ok ==> !old(state).terminal,
        r is Ok ==> revision_advances(old(state).last_revision, event.revision_spec()),
        r is Ok ==> final(state).last_revision == Some(event.revision_spec()),
        r is Ok ==> final(state).started,
        r is Ok ==> (event is Begin <==> !old(state).started),
        r is Ok ==> final(state).terminal == (event matches SourceSearchEvent::StatusChanged { status, .. }
            && status.state.is_terminal_spec()),
        r is Ok && *event is Progress ==> capabilities.reports_progress,
        r is Ok && *event is ApplyPatch ==> !(old(state).patched && !capabilities.streams_partial_results),
        r is Ok && *event is ApplyPatch ==> forall|j: int|
            0 <= j < event->ApplyPatch_ops@.len() ==> op_allowed(capabilities, #[trigger] event->ApplyPatch_ops@[j]),
        r is Err ==> final(state).started == old(state).started,
        r is Err ==> final(state).terminal == old(state).terminal,
        r is Err ==> final(state).patched == old(state).patched,
        r is Err ==> final(state).last_revision == (if event.session_id_spec() == session_id
            && !old(state).terminal && revision_advances(old(state).last_revision, event.revision_spec()) {
            Some(event.revision_spec())
        } else {
            old(state).last_revision
        }),
        r is Err && !(*event is ApplyPatch) ==> final(state).known_results@ == old(state).known_results@,
        !(*event is ApplyPatch) ==> final(state).known_results@ == old(state).known_results@
            && final(state).patched == old(state).patched,
        event.session_id_spec() != session_id || old(state).terminal || !revision_advances(
            old(state).last_revision,
            event.revision_spec(),
        ) ==> r is Err && final(state).known_results@ == old(state).known_results@,
        subject_laws::<S>() && r is Err && *event is ApplyPatch ==> exists|k: int|
            0 <= k <= event->ApplyPatch_ops@.len() && apply_patch_ops(
                capabilities,
                old(state).known_results@,
                #[trigger] event->ApplyPatch_ops@.take(k),
            ) == Some(final(state).known_results@),
        subject_free(*event) && r is Err && *event is ApplyPatch ==> exists|k: int|
            0 <= k <= event->ApplyPatch_ops@.len() && (apply_patch_ops(
                capabilities,
                old(state).known_results@,
                #[trigger] event->ApplyPatch_ops@.take(k),
            ) matches Some(known) && same_ids(final(state).known_results@, known)),
        subject_free(*event) ==> match validate_spec(
            old(state).started,
            old(state).terminal,
            old(state).last_revision,
            old(state).known_results@,
            old(state).patched,
            capabilities,
            session_id,
            *event,
        ) {
            Some((started, terminal, last_revision, known, patched)) => {
                &&& r is Ok
                &&& final(state).started == started
                &&& final(state).terminal == terminal
                &&& final(state).last_revision == last_revision
                &&& same_ids(final(state).known_results@, known)
                &&& final(state).patched == patched
            },
            None => r is Err,
        },
        subject_laws::<S>() ==> match validate_spec(
            old(state).started,
            old(state).terminal,
            old(state).last_revision,
            old(state).known_results@,
            old(state).patched,
            capabilities,
            session_id,
            *event,
        ) {
            Some((started, terminal, last_revision, known, patched)) => {
                &&& r is Ok
                &&& final(state).started == started
                &&& final(state).terminal == terminal
                &&& final(state).last_revision == last_revision
                &&& final(state).known_results@ == known
                &&& final(state).patched == patched
            },
            None => r is Err,
        },
{
    let (event_session_id, event_revision) = match event {
        SourceSearchEvent::Begin { session_id, revision, .. } => (*session_id, *revision),
        SourceSearchEvent::ApplyPatch { session_id, revision, .. } => (*session_id, *revision),
        SourceSearchEvent::Progress { session_id, revision, .. } => (*session_id, *revision),
        SourceSearchEvent::StatusChanged { session_id, revision, .. } => (*session_id, *revision),
    };

    proof {
        if *event is ApplyPatch {
            assert(event->ApplyPatch_ops@.take(0) =~= Seq::<SourcePatchOp<S, A, E>>::empty());
            assert(apply_patch_ops(capabilities, old(state).known_results@, event->ApplyPatch_ops@.take(0))
                == Some(old(state).known_results@));
        }
    }
    if event_session_id != session_id {
        return Err(());
    }
    if state.terminal || !state.remember_revision(event_revision) {
        return Err(());
    }

    match event {
        SourceSearchEvent::Begin { .. } => {
            if state.started {
                return Err(());
            }
            state.started = true;
        },
        SourceSearchEvent::ApplyPatch { ops, .. } => {
            if !state.started {
                return Err(());
            }
            if state.patched && !capabilities.streams_partial_results {
                proof {
                    assert(ops@.take(0) =~= Seq::<SourcePatchOp<S, A, E>>::empty());
                }
                return Err(());
            }
            let ghost initial = state.known_results@;
            let ghost mut followed: Seq<KnownResult<S>> = initial;
            proof {
                lemma_same_ids_refl(initial);
                assert(ops@.skip(0) =~= ops@);
                assert(ops@.take(0) =~= Seq::<SourcePatchOp<S, A, E>>::empty());
            }
            let mut i: usize = 0;
            while i < ops.len()
                invariant
                    state.wf(),
                    i <= ops@.len(),
                    state.started,
                    !state.terminal,
                    state.last_revision == Some(event_revision),
                    event_revision == event.revision_spec(),
                    event.session_id_spec() == session_id,
                    revision_advances(old(state).last_revision, event.revision_spec()),
                    old(state).started,
                    !old(state).terminal,
                    initial == old(state).known_results@,
                    *event is ApplyPatch,
                    event->ops@ == ops@,
                    state.announced_started == old(state).announced_started,
                    state.pending_status == old(state).pending_status,
                    subject_laws::<S>() ==> apply_patch_ops(capabilities, initial, ops@)
                        == apply_patch_ops(capabilities, state.known_results@, ops@.skip(i as int)),
                    subject_laws::<S>() ==> apply_patch_ops(capabilities, initial, ops@.take(i as int))
                        == Some(state.known_results@),
                    state.patched == old(state).patched,
                    !(old(state).patched && !capabilities.streams_partial_results),
                    subject_free(*event) ==> apply_patch_ops(capabilities, initial, ops@)
                        == apply_patch_ops(capabilities, followed, ops@.skip(i as int)),
                    subject_free(*event) ==> same_ids(state.known_results@, followed),
                    forall|j: int| 0 <= j < i ==> op_allowed(capabilities, #[trigger] ops@[j]),
                    subject_free(*event) ==> apply_patch_ops(capabilities, initial, ops@.take(i as int))
                        == Some(followed),
                decreases ops@.len() - i,
            {
                let ghost before = state.known_results@;
                let ok = apply_op_exec(state, capabilities, &ops[i]);
                proof {
                    if subject_free(*event) {
                        let op = ops@[i as int];
                        assert(!(op is Replace));
                        lemma_same_ids_sym(before, followed);
                        lemma_apply_patch_op_same_ids(capabilities, followed, before, op);
                        let rest = ops@.skip(i as int);
                        assert(rest[0] == op);
                        assert(rest.drop_first() =~= ops@.skip(i + 1));
                        lemma_apply_patch_ops_push(capabilities, initial, ops@.take(i as int), op);
                        assert(ops@.take(i as int).push(op) =~= ops@.take(i + 1));
                        if ok {
                            let next_exec = apply_patch_op(capabilities, before, op).unwrap();
                            let next_followed = apply_patch_op(capabilities, followed, op).unwrap();
                            lemma_same_ids_sym(next_followed, next_exec);
                            lemma_same_ids_trans(state.known_results@, next_exec, next_followed);
                            followed = next_followed;
                        } else {
                            assert(apply_patch_op(capabilities, followed, op) is None);
                            assert(apply_patch_ops(capabilities, followed, rest) is None);
                        }
                    }
                    if subject_laws::<S>() {
                        lemma_apply_patch_ops_push(capabilities, initial, ops@.take(i as int), ops@[i as int]);
                        assert(ops@.take(i as int).push(ops@[i as int]) =~= ops@.take(i + 1));
                    }
                    let rest = ops@.skip(i as int);
                    assert(rest[0] == ops@[i as int]);
                    assert(rest.drop_first() =~= ops@.skip(i + 1));
                    if subject_laws::<S>() && !ok {
                        assert(apply_patch_op(capabilities, before, rest[0]) is None);
                        assert(apply_patch_ops(capabilities, before, rest) is None);
                        assert(apply_patch_ops(capabilities, initial, ops@) is None);
                        assert(event.session_id_spec() == session_id);
                        assert(revision_advances(old(state).last_revision, event.revision_spec()));
                        assert(old(state).started);
                        assert(!old(state).terminal);
                        assert(initial == old(state).known_results@);
                        assert(validate_spec(
                            old(state).started,
                            old(state).terminal,
                            old(state).last_revision,
                            old(state).known_results@,
                            old(state).patched,
                            capabilities,
                            session_id,
                            *event,
                        ) is None);
                    }
                }
                if !ok {
                    proof {
                        if subject_laws::<S>() {
                            assert(apply_patch_ops(capabilities, initial, event->ApplyPatch_ops@.take(i as int))
                                == Some(state.known_results@));
                        }
                        if subject_free(*event) {
                            assert(apply_patch_ops(capabilities, initial, event->ApplyPatch_ops@.take(i as int))
                                == Some(followed));
                        }
                    }
                    return Err(());
                }
                i = i + 1;
            }
            proof {
                assert(ops@.skip(ops@.len() as int) =~= Seq::<SourcePatchOp<S, A, E>>::empty());
            }
            state.patched = true;
        },
        SourceSearchEvent::Progress { .. } => {
            if !state.started {
                return Err(());
            }
            if !capabilities.reports_progress {
                return Err(());
            }
        },
        SourceSearchEvent::StatusChanged { status, .. } => {
            if !state.started {
                return Err(());
            }
            if status.state.is_terminal() {
                state.terminal = true;
            }
        },
    }
    Ok(())
}

} // verus!
