//! Which commands are planned: where everything that a command needs holds,
//! planning does not stop.

use crate::publication_authority::{authority_draft, claim_key_of, claim_release_draft, path_key_of,
    revision_key_of, sealed_draft, verdict_draft};
use crate::publication_authority_laws::authority_rests_on_the_store;
use crate::publication_batches::{mark_uploaded_draft, mark_uploaded_ready, stage_objects_draft,
    stage_objects_ready, staged_key_of, staged_next, staged_row_fault, staging_step, upload_fault,
    upload_step, uploaded_next, MarkObjectsUploadedBatchRequest, StageObjectsBatchRequest};
use crate::publication_digests::{fault_upto, lemma_fault_none, payload_of, seals_fault};
use crate::publication_error::QuarantineReconcileResolution;
use crate::publication_laws::lemma_authority_extends;
use crate::publication_lifecycle::{advancing, finish_reconcile_draft, finish_reconcile_ready,
    takeover_draft, takeover_halt, takeover_ready, transition_draft, transition_ready,
    transitioned_of, FinishReconcileQuarantinedPublishRequest, TakeOverOrphanedPublishRequest,
    TransitionPublishRequest};
use crate::publication_lifecycle_laws::is_durable;
use crate::publication_manifest::{manifest_batch_fault, manifest_key_of, manifest_next,
    manifest_position_fault, manifest_rows_halt, manifest_step, stage_manifest_draft,
    stage_manifest_ready, StageManifestBatchRequest};
use crate::publication_plan::{asserting, deleting, empty_plan, key_taken, live, pins, put_absent,
    replacing, stepped, Draft, PlanPredicateView, PlanView, PublicationContext, RowKeyView};
use crate::publication_rules::{cleanup_update_fault, purpose_of, PublicationAuthorityPurpose};
use crate::publication_store::{bytes_of, claim_halt, current_operation_halt, next_payload_halt,
    next_payload_of, publish_key, read_halt, MetaShard};
use crate::publication_sweeps::{cleanup_draft, cleanup_ready, cleanup_step, reconcile_draft,
    reconcile_ready, reconcile_step, swept_next, swept_row_fault, CleanupPublishBatchRequest,
    ReconcileQuarantinedPublishBatchRequest};
use crate::publish_records::{Coded, PublishOperationRecord, PublishPhase};
use vstd::prelude::*;

verus! {

/// Whether a draft goes on from another and pins one row besides.
spec fn pins_one(before: Draft, after: Draft, key: RowKeyView) -> bool {
    &&& after.halt is None
    &&& after.plan.predicates.len() == before.plan.predicates.len() + 1
    &&& after.plan.mutations.len() <= before.plan.mutations.len() + 1
    &&& after.plan.history.len() <= before.plan.history.len() + 1
    &&& after.plan.events == before.plan.events
    &&& forall|other: RowKeyView| #[trigger]
        key_taken(after.plan, other) ==> key_taken(before.plan, other) || other == key
}

proof fn lemma_push_pins(before: PlanView, after: PlanView, key: RowKeyView, expected: Option<Seq<u8>>)
    requires
        after.predicates == before.predicates.push(PlanPredicateView::Value { key, expected }),
    ensures
        forall|other: RowKeyView| #[trigger]
            key_taken(after, other) ==> key_taken(before, other) || other == key,
{
    assert forall|other: RowKeyView| #[trigger]
        key_taken(after, other) && other != key implies key_taken(before, other) by {
        let i = choose|i: int|
            0 <= i < after.predicates.len() && pins(#[trigger] after.predicates[i], other);
        assert(i < before.predicates.len());
        assert(pins(before.predicates[i], other));
    }
}

proof fn lemma_put_pins(draft: Draft, key: RowKeyView, value: Seq<u8>)
    requires
        draft.halt is None,
        !key_taken(draft.plan, key),
    ensures
        pins_one(draft, put_absent(draft, key, value), key),
{
    lemma_push_pins(draft.plan, put_absent(draft, key, value).plan, key, None);
}

proof fn lemma_replace_pins(draft: Draft, key: RowKeyView, expected: Seq<u8>, value: Seq<u8>)
    requires
        draft.halt is None,
        !key_taken(draft.plan, key),
    ensures
        pins_one(draft, replacing(draft, key, expected, value), key),
{
    lemma_push_pins(
        draft.plan,
        replacing(draft, key, expected, value).plan,
        key,
        Some(expected),
    );
}

proof fn lemma_delete_pins(draft: Draft, key: RowKeyView, expected: Seq<u8>)
    requires
        draft.halt is None,
        !key_taken(draft.plan, key),
    ensures
        pins_one(draft, deleting(draft, key, expected), key),
{
    lemma_push_pins(draft.plan, deleting(draft, key, expected).plan, key, Some(expected));
}

proof fn lemma_assert_pins(draft: Draft, key: RowKeyView, expected: Option<Seq<u8>>)
    requires
        draft.halt is None,
        !key_taken(draft.plan, key),
    ensures
        pins_one(draft, asserting(draft, key, expected), key),
{
    lemma_push_pins(draft.plan, asserting(draft, key, expected).plan, key, expected);
}

/// Steps that each pin a row of their own do not stop.
proof fn lemma_steps_go_on(
    step: spec_fn(int, Draft) -> Draft,
    keys: Seq<RowKeyView>,
    n: nat,
    draft: Draft,
)
    requires
        n <= keys.len(),
        draft.halt is None,
        forall|i: int, d: Draft|
            0 <= i < keys.len() && d.halt is None && !key_taken(d.plan, keys[i]) ==> pins_one(
                d,
                #[trigger] step(i, d),
                keys[i],
            ),
        forall|i: int, j: int| 0 <= i < j < keys.len() ==> keys[i] != keys[j],
        forall|i: int| 0 <= i < keys.len() ==> !key_taken(draft.plan, #[trigger] keys[i]),
    ensures
        ({
            let after = stepped(step, n, draft);
            &&& after.halt is None
            &&& after.plan.predicates.len() == draft.plan.predicates.len() + n
            &&& after.plan.mutations.len() <= draft.plan.mutations.len() + n
            &&& after.plan.history.len() <= draft.plan.history.len() + n
            &&& after.plan.events == draft.plan.events
            &&& forall|other: RowKeyView| #[trigger]
                key_taken(after.plan, other) ==> key_taken(draft.plan, other) || exists|i: int|
                    0 <= i < n && other == #[trigger] keys[i]
        }),
    decreases n,
{
    if n > 0 {
        let m = (n - 1) as nat;
        lemma_steps_go_on(step, keys, m, draft);
        let before = stepped(step, m, draft);
        let after = stepped(step, n, draft);
        assert(after == step(n - 1, before));
        assert(!key_taken(before.plan, keys[n - 1]));
        assert(pins_one(before, after, keys[n - 1]));
        assert forall|other: RowKeyView| #[trigger] key_taken(after.plan, other) implies key_taken(
            draft.plan,
            other,
        ) || exists|i: int| 0 <= i < n && other == #[trigger] keys[i] by {
            if other == keys[n - 1] {
            } else {
                assert(key_taken(before.plan, other));
            }
        }
    }
}

/// Whether a draft has room for what authority pins besides.
spec fn has_room(draft: Draft) -> bool {
    &&& draft.halt is None
    &&& draft.plan.predicates.len() <= 252
    &&& draft.plan.mutations.len() <= 252
    &&& draft.plan.history.len() <= 252
    &&& draft.plan.events.len() <= 252
}

proof fn lemma_forward_goes_on(
    store: MetaShard,
    context: PublicationContext,
    operation: PublishOperationRecord,
    draft: Draft,
)
    requires
        has_room(draft),
        authority_draft(
            store,
            context,
            operation,
            PublicationAuthorityPurpose::Forward,
            live(empty_plan()),
        ).halt is None,
    ensures
        sealed_draft(
            store,
            context,
            operation,
            PublicationAuthorityPurpose::Forward,
            draft,
        ).halt is None,
{
    authority_rests_on_the_store(store, context, operation, draft);
    lemma_authority_extends(
        store,
        context,
        operation,
        PublicationAuthorityPurpose::Forward,
        draft,
    );
}

/// Shedding rests on the store too, where the plan pins neither the path nor
/// the revision.
proof fn lemma_cleanup_goes_on(
    store: MetaShard,
    context: PublicationContext,
    operation: PublishOperationRecord,
    draft: Draft,
)
    requires
        has_room(draft),
        !key_taken(draft.plan, path_key_of(context, operation)),
        !key_taken(draft.plan, revision_key_of(context, operation.artifact_revision_id)),
        authority_draft(
            store,
            context,
            operation,
            PublicationAuthorityPurpose::Cleanup,
            live(empty_plan()),
        ).halt is None,
    ensures
        sealed_draft(
            store,
            context,
            operation,
            PublicationAuthorityPurpose::Cleanup,
            draft,
        ).halt is None,
{
    let purpose = PublicationAuthorityPurpose::Cleanup;
    assert(authority_draft(store, context, operation, purpose, draft).halt is None) by {
        reveal(authority_draft);
        let path = path_key_of(context, operation);
        let revision = revision_key_of(context, operation.artifact_revision_id);
        lemma_assert_pins(draft, path, None);
        assert(!key_taken(asserting(draft, path, None).plan, revision));
        lemma_assert_pins(asserting(draft, path, None), revision, None);
    }
    lemma_authority_extends(store, context, operation, purpose, draft);
}

proof fn lemma_empty_takes_nothing()
    ensures
        forall|key: RowKeyView| !#[trigger] key_taken(empty_plan(), key),
{
}

/// Whether an operation and its next form are known, and it is the durable
/// one, in the given phase.
pub open spec fn is_ready(
    store: MetaShard,
    context: PublicationContext,
    expected: Coded<PublishOperationRecord>,
    phase: PublishPhase,
) -> bool {
    &&& seals_fault(expected) is None
    &&& is_durable(store, context, expected)
    &&& expected.record.phase == phase
    &&& store.next_payload matches Some(Ok(_))
}

/// Whether authority holds for an operation, whatever a plan holds already.
pub open spec fn is_authorized(
    store: MetaShard,
    context: PublicationContext,
    operation: PublishOperationRecord,
    purpose: PublicationAuthorityPurpose,
) -> bool {
    authority_draft(store, context, operation, purpose, live(empty_plan())).halt is None
}

/// A batch that stages the next objects of an uploading operation, within what
/// was planned and within one batch, is planned.
pub proof fn staged_batches_are_planned(store: MetaShard, request: StageObjectsBatchRequest)
    requires
        is_ready(store, request.context, request.expected_operation, PublishPhase::Uploading),
        1 <= request.staged_objects@.len() <= 192,
        request.expected_operation.record.staged_object_cursor + request.staged_objects@.len()
            <= request.expected_operation.record.staged_object_count,
        forall|i: int|
            0 <= i < request.staged_objects@.len() ==> staged_row_fault(
                request.context,
                request.expected_operation.record,
                request.staged_objects@,
            )(i) is None && (#[trigger] request.staged_objects@[i]).payload is Ok,
        is_authorized(
            store,
            request.context,
            staged_next(request.expected_operation.record, request.staged_objects@),
            PublicationAuthorityPurpose::Forward,
        ),
    ensures
        stage_objects_draft(store, request).halt is None,
{
    let context = request.context;
    let expected = request.expected_operation;
    let operation = expected.record;
    let rows = request.staged_objects@;
    let n = rows.len();
    reveal(current_operation_halt);
    reveal(next_payload_halt);
    let g = staged_row_fault(context, operation, rows);
    assert forall|i: int| 0 <= i < n implies (#[trigger] g(i)) is None by {
        assert(rows[i].payload is Ok);
    }
    lemma_no_fault(g, n);
    let ready = stage_objects_ready(store, request);
    assert(ready == live(empty_plan()));
    lemma_empty_takes_nothing();
    let own = publish_key(context, operation);
    lemma_replace_pins(ready, own, payload_of(expected), next_payload_of(store));
    let advanced = advancing(store, context, expected, ready);
    let step = staging_step(context, operation, rows);
    let keys = Seq::new(n, |i: int| staged_key_of(context, operation, operation.staged_object_cursor + i));
    assert forall|i: int, d: Draft|
        0 <= i < keys.len() && d.halt is None && !key_taken(d.plan, keys[i]) implies pins_one(
        d,
        #[trigger] step(i, d),
        keys[i],
    ) by {
        assert(rows[i].payload is Ok);
        assert(g(i) is None);
        lemma_put_pins(d, keys[i], payload_of(rows[i]));
    }
    assert forall|i: int| 0 <= i < keys.len() implies !key_taken(
        advanced.plan,
        #[trigger] keys[i],
    ) by {
        assert(keys[i] != own);
    }
    lemma_steps_go_on(step, keys, n, advanced);
    lemma_forward_goes_on(
        store,
        context,
        staged_next(operation, rows),
        stepped(step, n, advanced),
    );
}

proof fn lemma_no_fault<E>(g: spec_fn(int) -> Option<E>, n: nat)
    requires
        forall|i: int| 0 <= i < n ==> (#[trigger] g(i)) is None,
    ensures
        fault_upto(g, n) is None,
    decreases n,
{
    if n > 0 {
        lemma_no_fault(g, (n - 1) as nat);
        assert(g(n - 1) is None);
    }
}

/// A batch that confirms the next uploads of an uploading operation, within
/// what is staged and within one batch, is planned.
pub proof fn upload_batches_are_planned(store: MetaShard, request: MarkObjectsUploadedBatchRequest)
    requires
        is_ready(store, request.context, request.expected_operation, PublishPhase::Uploading),
        1 <= request.staged_object_updates@.len() <= 192,
        request.expected_operation.record.uploaded_object_cursor
            + request.staged_object_updates@.len()
            <= request.expected_operation.record.staged_object_cursor,
        forall|i: int|
            0 <= i < request.staged_object_updates@.len() ==> (#[trigger] upload_fault(
                request.expected_operation.record,
                request.staged_object_updates@,
            )(i)) is None,
        is_authorized(
            store,
            request.context,
            uploaded_next(request.expected_operation.record, request.staged_object_updates@),
            PublicationAuthorityPurpose::Forward,
        ),
    ensures
        mark_uploaded_draft(store, request).halt is None,
{
    let context = request.context;
    let expected = request.expected_operation;
    let operation = expected.record;
    let updates = request.staged_object_updates@;
    let n = updates.len();
    reveal(current_operation_halt);
    reveal(next_payload_halt);
    lemma_empty_takes_nothing();
    let opened = live(empty_plan());
    let step = upload_step(context, operation, updates);
    let g = upload_fault(operation, updates);
    let keys = Seq::new(
        n,
        |i: int| staged_key_of(context, operation, operation.uploaded_object_cursor + i),
    );
    assert forall|i: int, d: Draft|
        0 <= i < keys.len() && d.halt is None && !key_taken(d.plan, keys[i]) implies pins_one(
        d,
        #[trigger] step(i, d),
        keys[i],
    ) by {
        assert(g(i) is None);
        lemma_replace_pins(
            d,
            keys[i],
            payload_of(updates[i].expected),
            payload_of(updates[i].next),
        );
    }
    lemma_steps_go_on(step, keys, n, opened);
    let ready = mark_uploaded_ready(store, request);
    assert(ready == stepped(step, n, opened));
    let own = publish_key(context, operation);
    assert(!key_taken(ready.plan, own));
    lemma_replace_pins(ready, own, payload_of(expected), next_payload_of(store));
    lemma_forward_goes_on(
        store,
        context,
        uploaded_next(operation, updates),
        advancing(store, context, expected, ready),
    );
}

/// A batch of manifest rows that follow the ones before, each behind its
/// object, is planned.
pub proof fn manifest_batches_are_planned(store: MetaShard, request: StageManifestBatchRequest)
    requires
        is_ready(store, request.context, request.expected_operation, PublishPhase::Uploading),
        manifest_batch_fault(store, request) is None,
        manifest_rows_halt(store, request) is None,
        forall|i: int|
            0 <= i < request.manifest_rows@.len() ==> (
            #[trigger] request.manifest_rows@[i]).row.payload is Ok,
        is_authorized(
            store,
            request.context,
            manifest_next(request.expected_operation.record, request.manifest_rows@),
            PublicationAuthorityPurpose::Forward,
        ),
    ensures
        stage_manifest_draft(store, request).halt is None,
{
    let context = request.context;
    let expected = request.expected_operation;
    let operation = expected.record;
    let rows = request.manifest_rows@;
    let n = rows.len();
    reveal(current_operation_halt);
    reveal(next_payload_halt);
    let ready = stage_manifest_ready(store, request);
    assert(ready == live(empty_plan()));
    lemma_empty_takes_nothing();
    let own = publish_key(context, operation);
    lemma_replace_pins(ready, own, payload_of(expected), next_payload_of(store));
    let advanced = advancing(store, context, expected, ready);
    let revision = revision_key_of(context, operation.artifact_revision_id);
    assert(!key_taken(advanced.plan, revision));
    lemma_assert_pins(advanced, revision, None);
    let pinned = asserting(advanced, revision, None);
    let step = manifest_step(context, operation, rows);
    let keys = Seq::new(n, |i: int| manifest_key_of(context, operation, rows[i].object_index));
    assert forall|i: int, d: Draft|
        0 <= i < keys.len() && d.halt is None && !key_taken(d.plan, keys[i]) implies pins_one(
        d,
        #[trigger] step(i, d),
        keys[i],
    ) by {
        assert(rows[i].row.payload is Ok);
        lemma_put_pins(d, keys[i], payload_of(rows[i].row));
    }
    assert forall|i: int, j: int| 0 <= i < j < keys.len() implies keys[i] != keys[j] by {
        lemma_fault_none(manifest_position_fault(context, operation, rows), n, i);
        lemma_fault_none(manifest_position_fault(context, operation, rows), n, j);
    }
    assert forall|i: int| 0 <= i < keys.len() implies !key_taken(
        pinned.plan,
        #[trigger] keys[i],
    ) by {
        assert(keys[i] != own && keys[i] != revision);
    }
    lemma_steps_go_on(step, keys, n, pinned);
    lemma_forward_goes_on(
        store,
        context,
        manifest_next(operation, rows),
        stepped(step, n, pinned),
    );
}

/// A cleanup page of the next staged rows, with proof that their objects are
/// gone, is planned.
pub proof fn cleanup_pages_are_planned(store: MetaShard, request: CleanupPublishBatchRequest)
    requires
        is_ready(store, request.context, request.expected_operation, PublishPhase::Cleaning),
        1 <= request.staged_object_updates@.len() <= 192,
        request.expected_operation.record.cleanup_staged_object_cursor
            + request.staged_object_updates@.len()
            <= request.expected_operation.record.staged_object_cursor,
        forall|i: int|
            0 <= i < request.staged_object_updates@.len() ==> {
                let update = #[trigger] request.staged_object_updates@[i];
                &&& cleanup_update_fault(update.expected, update.next) is None
                &&& swept_row_fault(
                    request.expected_operation.record,
                    update.expected.record,
                    i,
                ) is None
                &&& update.expected.payload is Ok
            },
        is_authorized(
            store,
            request.context,
            swept_next(
                store,
                request.expected_operation.record,
                request.staged_object_updates@.len(),
            ),
            PublicationAuthorityPurpose::Cleanup,
        ),
    ensures
        cleanup_draft(store, request).halt is None,
{
    let context = request.context;
    let expected = request.expected_operation;
    let operation = expected.record;
    let updates = request.staged_object_updates@;
    let n = updates.len();
    reveal(current_operation_halt);
    reveal(next_payload_halt);
    lemma_empty_takes_nothing();
    let opened = live(empty_plan());
    let step = cleanup_step(context, operation, updates);
    let keys = Seq::new(
        n,
        |i: int| staged_key_of(context, operation, operation.cleanup_staged_object_cursor + i),
    );
    assert forall|i: int, d: Draft|
        0 <= i < keys.len() && d.halt is None && !key_taken(d.plan, keys[i]) implies pins_one(
        d,
        #[trigger] step(i, d),
        keys[i],
    ) by {
        let update = updates[i];
        assert(cleanup_update_fault(update.expected, update.next) is None);
        lemma_delete_pins(d, keys[i], payload_of(update.expected));
    }
    lemma_steps_go_on(step, keys, n, opened);
    let ready = cleanup_ready(store, request);
    assert(ready == stepped(step, n, opened));
    let own = publish_key(context, operation);
    assert(!key_taken(ready.plan, own));
    lemma_replace_pins(ready, own, payload_of(expected), next_payload_of(store));
    let next = swept_next(store, operation, n);
    let advanced = advancing(store, context, expected, ready);
    assert(!key_taken(advanced.plan, path_key_of(context, next)));
    assert(!key_taken(
        advanced.plan,
        revision_key_of(context, next.artifact_revision_id),
    ));
    lemma_cleanup_goes_on(store, context, next, advanced);
}

/// A page of the next staged rows of a quarantined operation, under a verdict
/// that agrees with the shard, is planned.
pub proof fn reconcile_pages_are_planned(
    store: MetaShard,
    request: ReconcileQuarantinedPublishBatchRequest,
)
    requires
        is_ready(store, request.context, request.expected_operation, PublishPhase::Quarantined),
        1 <= request.staged_object_rows@.len() <= 192,
        request.expected_operation.record.cleanup_staged_object_cursor
            + request.staged_object_rows@.len()
            <= request.expected_operation.record.staged_object_cursor,
        verdict_agrees(
            store,
            request.context,
            request.expected_operation.record,
            request.resolution,
        ),
        forall|i: int|
            0 <= i < request.staged_object_rows@.len() ==> {
                let row = #[trigger] request.staged_object_rows@[i];
                &&& row.validity is None
                &&& row.payload is Ok
                &&& swept_row_fault(
                    request.expected_operation.record,
                    row.record,
                    i,
                ) is None
            },
    ensures
        reconcile_draft(store, request).halt is None,
{
    let context = request.context;
    let expected = request.expected_operation;
    let operation = expected.record;
    let rows = request.staged_object_rows@;
    let n = rows.len();
    reveal(current_operation_halt);
    reveal(next_payload_halt);
    lemma_empty_takes_nothing();
    let opened = live(empty_plan());
    let judged = verdict_draft(store, context, operation, request.resolution, opened);
    lemma_verdict_goes_on(store, context, operation, request.resolution, opened);
    let step = reconcile_step(context, operation, rows);
    let keys = Seq::new(
        n,
        |i: int| staged_key_of(context, operation, operation.cleanup_staged_object_cursor + i),
    );
    assert forall|i: int, d: Draft|
        0 <= i < keys.len() && d.halt is None && !key_taken(d.plan, keys[i]) implies pins_one(
        d,
        #[trigger] step(i, d),
        keys[i],
    ) by {
        assert(rows[i].payload is Ok);
        lemma_delete_pins(d, keys[i], payload_of(rows[i]));
    }
    let revision = revision_key_of(context, operation.artifact_revision_id);
    assert forall|i: int| 0 <= i < keys.len() implies !key_taken(
        judged.plan,
        #[trigger] keys[i],
    ) by {
        assert(keys[i] != revision);
    }
    lemma_steps_go_on(step, keys, n, judged);
    let ready = reconcile_ready(store, request);
    assert(ready == stepped(step, n, judged));
    let own = publish_key(context, operation);
    assert(!key_taken(ready.plan, own));
    lemma_replace_pins(ready, own, payload_of(expected), next_payload_of(store));
}

/// Whether an operator's verdict on a revision agrees with what was read.
pub open spec fn verdict_agrees(
    store: MetaShard,
    context: PublicationContext,
    operation: PublishOperationRecord,
    resolution: QuarantineReconcileResolution,
) -> bool {
    let key = RowKeyView::ArtifactRevision {
        root_id: context.root_id,
        revision: operation.artifact_revision_id,
    };
    &&& read_halt(store, context.read_version, key) is None
    &&& resolution == QuarantineReconcileResolution::RevisionPublished <==> bytes_of(
        store,
        context.read_version,
        key,
    ) is Some
}

proof fn lemma_verdict_goes_on(
    store: MetaShard,
    context: PublicationContext,
    operation: PublishOperationRecord,
    resolution: QuarantineReconcileResolution,
    draft: Draft,
)
    requires
        draft.halt is None,
        !key_taken(draft.plan, revision_key_of(context, operation.artifact_revision_id)),
        verdict_agrees(store, context, operation, resolution),
    ensures
        pins_one(
            draft,
            verdict_draft(store, context, operation, resolution, draft),
            revision_key_of(context, operation.artifact_revision_id),
        ),
{
    reveal(verdict_draft);
    let key = revision_key_of(context, operation.artifact_revision_id);
    lemma_assert_pins(draft, key, bytes_of(store, context.read_version, key));
}

/// A transition other than publishing, of the durable operation, that its
/// codec accepts, is planned where its authority holds and the claim can be
/// read.
pub proof fn transitions_are_planned(store: MetaShard, request: TransitionPublishRequest)
    requires
        seals_fault(request.expected_operation) is None,
        !(request.transition is Publish),
        is_durable(store, request.context, request.expected_operation),
        store.transitioned matches Some(Ok(_)),
        store.next_payload matches Some(Ok(_)),
        request.transition is FinishCleanup ==> claim_halt(
            store,
            request.context.read_version,
            claim_key_of(
                request.context,
                request.expected_operation.record.artifact_revision_id,
            ),
        ) is None,
        is_authorized(
            store,
            request.context,
            store.transitioned.unwrap().unwrap(),
            purpose_of(request.transition),
        ),
    ensures
        transition_draft(store, request).halt is None,
{
    let context = request.context;
    let expected = request.expected_operation;
    let operation = expected.record;
    let next = transitioned_of(store);
    reveal(current_operation_halt);
    reveal(next_payload_halt);
    lemma_empty_takes_nothing();
    let ready = transition_ready(store, request);
    assert(ready == live(empty_plan()));
    let own = publish_key(context, operation);
    lemma_replace_pins(ready, own, payload_of(expected), next_payload_of(store));
    let advanced = advancing(store, context, expected, ready);
    let claim = claim_key_of(context, operation.artifact_revision_id);
    let released = if request.transition is FinishCleanup {
        claim_release_draft(
            store,
            context,
            operation.artifact_revision_id,
            operation.operation_id,
            advanced,
        )
    } else {
        advanced
    };
    assert(!key_taken(advanced.plan, claim));
    lemma_delete_pins(
        advanced,
        claim,
        bytes_of(store, context.read_version, claim).unwrap(),
    );
    reveal(claim_release_draft);
    assert(has_room(released));
    assert(!key_taken(released.plan, path_key_of(context, next)));
    assert(!key_taken(
        released.plan,
        revision_key_of(context, next.artifact_revision_id),
    ));
    match purpose_of(request.transition) {
        PublicationAuthorityPurpose::Forward => {
            lemma_forward_goes_on(store, context, next, released);
        },
        PublicationAuthorityPurpose::Cleanup => {
            lemma_cleanup_goes_on(store, context, next, released);
        },
    }
}

/// The end of a quarantine under a verdict that agrees with the shard is
/// planned, where the claim can be read.
pub proof fn resolutions_are_planned(
    store: MetaShard,
    request: FinishReconcileQuarantinedPublishRequest,
)
    requires
        is_ready(store, request.context, request.expected_operation, PublishPhase::Quarantined),
        store.transitioned matches Some(Ok(_)),
        verdict_agrees(
            store,
            request.context,
            request.expected_operation.record,
            request.resolution,
        ),
        claim_halt(
            store,
            request.context.read_version,
            claim_key_of(
                request.context,
                request.expected_operation.record.artifact_revision_id,
            ),
        ) is None,
    ensures
        finish_reconcile_draft(store, request).halt is None,
{
    let context = request.context;
    let expected = request.expected_operation;
    let operation = expected.record;
    reveal(current_operation_halt);
    reveal(next_payload_halt);
    lemma_empty_takes_nothing();
    let opened = live(empty_plan());
    lemma_verdict_goes_on(store, context, operation, request.resolution, opened);
    let ready = finish_reconcile_ready(store, request);
    let own = publish_key(context, operation);
    assert(!key_taken(ready.plan, own));
    lemma_replace_pins(ready, own, payload_of(expected), next_payload_of(store));
    let advanced = advancing(store, context, expected, ready);
    let claim = claim_key_of(context, operation.artifact_revision_id);
    assert(!key_taken(advanced.plan, claim));
    lemma_delete_pins(
        advanced,
        claim,
        bytes_of(store, context.read_version, claim).unwrap(),
    );
    reveal(claim_release_draft);
}

/// A takeover of an orphaned operation that its codec accepts is planned where
/// its authority holds.
pub proof fn takeovers_are_planned(store: MetaShard, request: TakeOverOrphanedPublishRequest)
    requires
        seals_fault(request.expected_operation) is None,
        is_durable(store, request.context, request.expected_operation),
        takeover_halt(store, request) is None,
        request.expected_operation.payload.unwrap()@.len() <= u32::MAX,
        store.transitioned matches Some(Ok(_)),
        store.next_payload matches Some(Ok(_)),
        is_authorized(
            store,
            request.context,
            store.transitioned.unwrap().unwrap(),
            PublicationAuthorityPurpose::Cleanup,
        ),
    ensures
        takeover_draft(store, request).halt is None,
{
    let context = request.context;
    let expected = request.expected_operation;
    let next = transitioned_of(store);
    reveal(current_operation_halt);
    reveal(next_payload_halt);
    lemma_empty_takes_nothing();
    let ready = takeover_ready(store, request);
    assert(ready == live(empty_plan()));
    let own = publish_key(context, expected.record);
    lemma_replace_pins(ready, own, payload_of(expected), next_payload_of(store));
    let advanced = advancing(store, context, expected, ready);
    assert(!key_taken(advanced.plan, path_key_of(context, next)));
    assert(!key_taken(
        advanced.plan,
        revision_key_of(context, next.artifact_revision_id),
    ));
    lemma_cleanup_goes_on(store, context, next, advanced);
}

} // verus!
