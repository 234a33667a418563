//! What holds of every publication command, whatever step it is of.

use crate::ids::{ArtifactRevisionId, CommitVersion, OperationId};
use crate::publication_authority::{authority_draft, claim_key_of, claim_release_draft,
    lemma_authority_after_halt, path_key_of, revision_key_of, sealed_draft, verdict_draft,
    workspace_key_of};
use crate::change_events::{change_event_bytes, PathIndexLocatorState};
use crate::publication_batches::{batch_opening_halt, mark_uploaded_draft, mark_uploaded_ready,
    stage_objects_draft, stage_objects_ready, staged_next, staged_row_fault, staging_step,
    upload_step, uploaded_next, MarkObjectsUploadedBatchRequest, StageObjectsBatchRequest,
    StagedObjectUpdate};
use crate::publication_commit_stage::{commit_stage_draft, commit_stage_ready,
    commit_stage_referred, finalize_draft};
use crate::publication_digests::{is_sealed, manifest_rows_wf, manifest_succession_fault,
    lemma_fault_none, payload_of, seal_mismatch, seals_fault, ManifestRowInput};
use crate::publication_error::{PublicationError, QuarantineReconcileResolution};
use crate::publication_finalize::{asked_locator, asked_rows, event_draft, event_of,
    execution_context, locator_payload_of, new_revision, next_entry, publication_halt,
    publication_version, index_draft, index_pin_step, place_draft, publication_draft,
    revision_draft, FinalizePublishRequest};
use crate::publication_index_stage::locator_row_of;
use crate::publication_lifecycle::{advancing, begin_bare, begin_draft, begin_fault, begin_halt,
    begin_opening, begun, expiry_threshold, extended, finish_reconcile_draft,
    finish_reconcile_ready, heartbeat_draft, heartbeat_ready, same_inputs, takeover_draft,
    takeover_ready, transition_draft, transition_ready, transitioned_of, BeginPublishRequest,
    FinishReconcileQuarantinedPublishRequest, HeartbeatPublishRequest,
    TakeOverOrphanedPublishRequest, TransitionPublishRequest};
use crate::publication_manifest::{manifest_batch_fault, manifest_end, manifest_next,
    manifest_position_fault, manifest_step, stage_manifest_draft, stage_manifest_ready,
    StageManifestBatchRequest};
use crate::publication_owners::{reference_fault, shown_revision, touch_draft, touch_step, touched,
    touched_record, touches_draft};
use crate::publication_plan::{asserting, emitting, empty_plan, failing, halted, keeps_halts,
    lemma_stepped_halt, live, put_absent, replacing, stepped, Draft, PlanMutationView,
    PlanPredicateView, PlanView, PublicationContext, RowKeyView, StopView};
use crate::publication_records::{artifact_revision_bytes, first_fault, path_entry_bytes,
    revision_claim_bytes, ArtifactRevisionClaimRecord, ArtifactRevisionView};
use crate::publication_replay::existing_replay_halt;
use crate::publication_rules::{purpose_of, PublicationAuthorityPurpose, MAX_PUBLICATION_BATCH_ROWS};
use crate::publication_store::{claim_halt, claim_of, next_payload_of, publish_halt, publish_key,
    MetaShard};
use crate::publication_sweeps::{cleanup_draft, cleanup_ready, manifest_sweep_draft,
    manifest_sweep_fault, reconcile_draft, reconcile_ready, scan_halt, scanned_rows, scanned_step,
    sweeps_staged, swept_next, CleanupPublishBatchRequest, ReconcileQuarantinedPublishBatchRequest};
use crate::publish_records::{Coded, PublishAuthority, PublishOperationRecord, PublishPhase,
    StagedObjectRecord};
use vstd::prelude::*;

verus! {

/// Whether a draft goes on from another: nothing that the plan held is taken
/// back, and at most `n` items come to each of its lists.
pub open spec fn extends(before: Draft, after: Draft, n: nat) -> bool {
    after.halt is None ==> {
        &&& before.halt is None
        &&& before.plan.predicates.is_prefix_of(after.plan.predicates)
        &&& before.plan.mutations.is_prefix_of(after.plan.mutations)
        &&& before.plan.history.is_prefix_of(after.plan.history)
        &&& after.plan.predicates.len() <= before.plan.predicates.len() + n
        &&& after.plan.mutations.len() <= before.plan.mutations.len() + n
        &&& after.plan.history.len() <= before.plan.history.len() + n
        &&& after.plan.events.len() <= before.plan.events.len() + n
    }
}

broadcast proof fn lemma_assert_extends(draft: Draft, key: RowKeyView, expected: Option<Seq<u8>>)
    ensures
        #[trigger] extends(draft, asserting(draft, key, expected), 1),
{
}

broadcast proof fn lemma_replace_extends(
    draft: Draft,
    key: RowKeyView,
    expected: Seq<u8>,
    value: Seq<u8>,
)
    ensures
        #[trigger] extends(draft, replacing(draft, key, expected, value), 1),
{
}

broadcast proof fn lemma_emit_extends(draft: Draft, payload: Seq<u8>)
    ensures
        #[trigger] extends(draft, emitting(draft, payload), 1),
{
}

proof fn lemma_extends_trans(a: Draft, b: Draft, c: Draft, m: nat, n: nat)
    requires
        extends(a, b, m),
        extends(b, c, n),
    ensures
        extends(a, c, m + n),
{
    if c.halt is None {
        lemma_prefix_trans(a.plan.predicates, b.plan.predicates, c.plan.predicates);
        lemma_prefix_trans(a.plan.mutations, b.plan.mutations, c.plan.mutations);
        lemma_prefix_trans(a.plan.history, b.plan.history, c.plan.history);
    }
}

proof fn lemma_prefix_trans<T>(a: Seq<T>, b: Seq<T>, c: Seq<T>)
    requires
        a.is_prefix_of(b),
        b.is_prefix_of(c),
    ensures
        a.is_prefix_of(c),
{
    assert(c.subrange(0, a.len() as int) =~= b.subrange(0, a.len() as int));
}

/// Whether each step adds at most `k` items.
spec fn step_extends(step: spec_fn(int, Draft) -> Draft, k: nat) -> bool {
    forall|i: int, draft: Draft| extends(draft, #[trigger] step(i, draft), k)
}

proof fn lemma_steps_extend(step: spec_fn(int, Draft) -> Draft, k: nat, n: nat, draft: Draft)
    requires
        step_extends(step, k),
    ensures
        extends(draft, stepped(step, n, draft), k * n),
    decreases n,
{
    if n > 0 {
        let before = stepped(step, (n - 1) as nat, draft);
        lemma_steps_extend(step, k, (n - 1) as nat, draft);
        assert(extends(before, step(n - 1, before), k));
        lemma_extends_trans(draft, before, step(n - 1, before), k * ((n - 1) as nat), k);
        assert(k * ((n - 1) as nat) + k == k * n) by (nonlinear_arith)
            requires
                n > 0,
        ;
    } else {
        assert(k * 0 == 0) by (nonlinear_arith);
    }
}

pub proof fn lemma_authority_extends(
    store: MetaShard,
    context: PublicationContext,
    operation: PublishOperationRecord,
    purpose: PublicationAuthorityPurpose,
    draft: Draft,
)
    ensures
        extends(draft, authority_draft(store, context, operation, purpose, draft), 4),
{
    reveal(authority_draft);
}

pub proof fn lemma_sealed_extends(
    store: MetaShard,
    context: PublicationContext,
    operation: PublishOperationRecord,
    purpose: PublicationAuthorityPurpose,
    draft: Draft,
)
    ensures
        extends(draft, sealed_draft(store, context, operation, purpose, draft), 4),
{
    lemma_authority_extends(store, context, operation, purpose, draft);
}

proof fn lemma_release_extends(
    store: MetaShard,
    context: PublicationContext,
    revision: ArtifactRevisionId,
    operation_id: OperationId,
    draft: Draft,
)
    ensures
        extends(
            draft,
            claim_release_draft(store, context, revision, operation_id, draft),
            1,
        ),
{
    reveal(claim_release_draft);
}

/// Whether a plan compares a row with one value and sets it to another.
pub open spec fn swaps(plan: PlanView, key: RowKeyView, expected: Seq<u8>, value: Seq<u8>) -> bool {
    &&& plan.predicates.contains(PlanPredicateView::Value { key, expected: Some(expected) })
    &&& plan.mutations.contains(PlanMutationView::Put { key, value })
    &&& plan.history.contains(key)
}

proof fn lemma_replace_swaps(draft: Draft, key: RowKeyView, expected: Seq<u8>, value: Seq<u8>)
    requires
        replacing(draft, key, expected, value).halt is None,
    ensures
        swaps(replacing(draft, key, expected, value).plan, key, expected, value),
{
    let after = replacing(draft, key, expected, value).plan;
    assert(after.predicates[draft.plan.predicates.len() as int] == PlanPredicateView::Value {
        key,
        expected: Some(expected),
    });
    assert(after.mutations[draft.plan.mutations.len() as int] == PlanMutationView::Put {
        key,
        value,
    });
    assert(after.history[draft.plan.history.len() as int] == key);
}

pub proof fn lemma_prefix_contains<T>(a: Seq<T>, b: Seq<T>, item: T)
    requires
        a.is_prefix_of(b),
        a.contains(item),
    ensures
        b.contains(item),
{
    let i = choose|i: int| 0 <= i < a.len() && a[i] == item;
    assert(b.subrange(0, a.len() as int)[i] == b[i]);
    assert(b[i] == item);
}

proof fn lemma_swap_stays(
    before: Draft,
    after: Draft,
    n: nat,
    key: RowKeyView,
    expected: Seq<u8>,
    value: Seq<u8>,
)
    requires
        extends(before, after, n),
        after.halt is None,
        swaps(before.plan, key, expected, value),
    ensures
        swaps(after.plan, key, expected, value),
{
    lemma_prefix_contains(
        before.plan.predicates,
        after.plan.predicates,
        PlanPredicateView::Value { key, expected: Some(expected) },
    );
    lemma_prefix_contains(
        before.plan.mutations,
        after.plan.mutations,
        PlanMutationView::Put { key, value },
    );
    lemma_prefix_contains(before.plan.history, after.plan.history, key);
}

/// The operation row is compared with what the caller has observed, and set to
/// the stored form of the next operation.
pub open spec fn swaps_operation(
    store: MetaShard,
    context: PublicationContext,
    expected: Coded<PublishOperationRecord>,
    draft: Draft,
) -> bool {
    draft.halt is None ==> swaps(
        draft.plan,
        publish_key(context, expected.record),
        payload_of(expected),
        next_payload_of(store),
    )
}

proof fn lemma_advance_swaps(
    store: MetaShard,
    context: PublicationContext,
    expected: Coded<PublishOperationRecord>,
    draft: Draft,
    after: Draft,
    n: nat,
)
    requires
        extends(advancing(store, context, expected, draft), after, n),
    ensures
        swaps_operation(store, context, expected, after),
{
    let advanced = advancing(store, context, expected, draft);
    if after.halt is None {
        lemma_replace_swaps(
            draft,
            publish_key(context, expected.record),
            payload_of(expected),
            next_payload_of(store),
        );
        lemma_swap_stays(
            advanced,
            after,
            n,
            publish_key(context, expected.record),
            payload_of(expected),
            next_payload_of(store),
        );
    }
}

/// A step of an operation compares and sets the operation row.
pub proof fn transitions_swap_the_operation(store: MetaShard, request: TransitionPublishRequest)
    ensures
        swaps_operation(
            store,
            request.context,
            request.expected_operation,
            transition_draft(store, request),
        ),
{
    let context = request.context;
    let expected = request.expected_operation;
    let draft = transition_draft(store, request);
    let ready = transition_ready(store, request);
    let advanced = advancing(store, context, expected, ready);
    let released = if request.transition is FinishCleanup {
        claim_release_draft(
            store,
            context,
            expected.record.artifact_revision_id,
            expected.record.operation_id,
            advanced,
        )
    } else {
        advanced
    };
    lemma_release_extends(
        store,
        context,
        expected.record.artifact_revision_id,
        expected.record.operation_id,
        advanced,
    );
    lemma_sealed_extends(
        store,
        context,
        transitioned_of(store),
        purpose_of(request.transition),
        released,
    );
    lemma_extends_trans(advanced, released, draft, 1, 4);
    lemma_advance_swaps(store, context, expected, ready, draft, 5);
}

/// A heartbeat compares and sets the operation row.
pub proof fn heartbeats_swap_the_operation(store: MetaShard, request: HeartbeatPublishRequest)
    ensures
        swaps_operation(
            store,
            request.context,
            request.expected_operation,
            heartbeat_draft(store, request),
        ),
{
    let context = request.context;
    let expected = request.expected_operation;
    let ready = heartbeat_ready(store, request);
    lemma_sealed_extends(
        store,
        context,
        extended(expected.record, request.activity_deadline_ms),
        PublicationAuthorityPurpose::Forward,
        advancing(store, context, expected, ready),
    );
    lemma_advance_swaps(store, context, expected, ready, heartbeat_draft(store, request), 4);
}

/// A takeover compares and sets the operation row, so it cannot win where
/// another step already has.
pub proof fn takeovers_swap_the_operation(
    store: MetaShard,
    request: TakeOverOrphanedPublishRequest,
)
    ensures
        swaps_operation(
            store,
            request.context,
            request.expected_operation,
            takeover_draft(store, request),
        ),
{
    let context = request.context;
    let expected = request.expected_operation;
    let ready = takeover_ready(store, request);
    lemma_sealed_extends(
        store,
        context,
        transitioned_of(store),
        PublicationAuthorityPurpose::Cleanup,
        advancing(store, context, expected, ready),
    );
    lemma_advance_swaps(store, context, expected, ready, takeover_draft(store, request), 4);
}

/// The end of a reconciliation compares and sets the operation row.
pub proof fn resolutions_swap_the_operation(
    store: MetaShard,
    request: FinishReconcileQuarantinedPublishRequest,
)
    ensures
        swaps_operation(
            store,
            request.context,
            request.expected_operation,
            finish_reconcile_draft(store, request),
        ),
{
    let context = request.context;
    let expected = request.expected_operation;
    let ready = finish_reconcile_ready(store, request);
    let advanced = advancing(store, context, expected, ready);
    lemma_release_extends(
        store,
        context,
        expected.record.artifact_revision_id,
        expected.record.operation_id,
        advanced,
    );
    lemma_advance_swaps(store, context, expected, ready, finish_reconcile_draft(store, request), 1);
}

proof fn lemma_staging_extends(request: StageObjectsBatchRequest, draft: Draft)
    ensures
        extends(
            draft,
            stepped(
                staging_step(
                    request.context,
                    request.expected_operation.record,
                    request.staged_objects@,
                ),
                request.staged_objects@.len(),
                draft,
            ),
            request.staged_objects@.len(),
        ),
{
    let step = staging_step(
        request.context,
        request.expected_operation.record,
        request.staged_objects@,
    );
    assert(step_extends(step, 1));
    lemma_steps_extend(step, 1, request.staged_objects@.len(), draft);
}

/// A batch of staged objects compares and sets the operation row.
pub proof fn staged_batches_swap_the_operation(store: MetaShard, request: StageObjectsBatchRequest)
    ensures
        swaps_operation(
            store,
            request.context,
            request.expected_operation,
            stage_objects_draft(store, request),
        ),
{
    let context = request.context;
    let expected = request.expected_operation;
    let rows = request.staged_objects@;
    let ready = stage_objects_ready(store, request);
    let advanced = advancing(store, context, expected, ready);
    let added = stepped(staging_step(context, expected.record, rows), rows.len(), advanced);
    let draft = stage_objects_draft(store, request);
    lemma_staging_extends(request, advanced);
    lemma_sealed_extends(
        store,
        context,
        staged_next(expected.record, rows),
        PublicationAuthorityPurpose::Forward,
        added,
    );
    lemma_extends_trans(advanced, added, draft, rows.len(), 4);
    lemma_advance_swaps(store, context, expected, ready, draft, rows.len() + 4);
}

/// A batch of confirmed uploads compares and sets the operation row.
pub proof fn upload_batches_swap_the_operation(
    store: MetaShard,
    request: MarkObjectsUploadedBatchRequest,
)
    ensures
        swaps_operation(
            store,
            request.context,
            request.expected_operation,
            mark_uploaded_draft(store, request),
        ),
{
    let context = request.context;
    let expected = request.expected_operation;
    let ready = mark_uploaded_ready(store, request);
    lemma_sealed_extends(
        store,
        context,
        uploaded_next(expected.record, request.staged_object_updates@),
        PublicationAuthorityPurpose::Forward,
        advancing(store, context, expected, ready),
    );
    lemma_advance_swaps(store, context, expected, ready, mark_uploaded_draft(store, request), 4);
}

proof fn lemma_manifest_extends(request: StageManifestBatchRequest, draft: Draft)
    ensures
        extends(
            draft,
            stepped(
                manifest_step(
                    request.context,
                    request.expected_operation.record,
                    request.manifest_rows@,
                ),
                request.manifest_rows@.len(),
                draft,
            ),
            request.manifest_rows@.len(),
        ),
{
    let step = manifest_step(
        request.context,
        request.expected_operation.record,
        request.manifest_rows@,
    );
    assert(step_extends(step, 1));
    lemma_steps_extend(step, 1, request.manifest_rows@.len(), draft);
}

/// A batch of manifest rows compares and sets the operation row.
pub proof fn manifest_batches_swap_the_operation(
    store: MetaShard,
    request: StageManifestBatchRequest,
)
    ensures
        swaps_operation(
            store,
            request.context,
            request.expected_operation,
            stage_manifest_draft(store, request),
        ),
{
    let context = request.context;
    let expected = request.expected_operation;
    let rows = request.manifest_rows@;
    let ready = stage_manifest_ready(store, request);
    let advanced = advancing(store, context, expected, ready);
    let pinned = asserting(
        advanced,
        revision_key_of(context, expected.record.artifact_revision_id),
        None,
    );
    let added = stepped(manifest_step(context, expected.record, rows), rows.len(), pinned);
    let draft = stage_manifest_draft(store, request);
    lemma_assert_extends(
        advanced,
        revision_key_of(context, expected.record.artifact_revision_id),
        None,
    );
    lemma_manifest_extends(request, pinned);
    lemma_extends_trans(advanced, pinned, added, 1, rows.len());
    lemma_sealed_extends(
        store,
        context,
        manifest_next(expected.record, rows),
        PublicationAuthorityPurpose::Forward,
        added,
    );
    lemma_extends_trans(advanced, added, draft, 1 + rows.len(), 4);
    lemma_advance_swaps(store, context, expected, ready, draft, 1 + rows.len() + 4);
}

/// A page of cleanup compares and sets the operation row.
pub proof fn cleanups_swap_the_operation(store: MetaShard, request: CleanupPublishBatchRequest)
    ensures
        swaps_operation(
            store,
            request.context,
            request.expected_operation,
            cleanup_draft(store, request),
        ),
{
    let context = request.context;
    let expected = request.expected_operation;
    let ready = cleanup_ready(store, request);
    lemma_sealed_extends(
        store,
        context,
        swept_next(store, expected.record, request.staged_object_updates@.len()),
        PublicationAuthorityPurpose::Cleanup,
        advancing(store, context, expected, ready),
    );
    lemma_advance_swaps(store, context, expected, ready, cleanup_draft(store, request), 4);
}

/// A page of reconciliation compares and sets the operation row.
pub proof fn reconciliations_swap_the_operation(
    store: MetaShard,
    request: ReconcileQuarantinedPublishBatchRequest,
)
    ensures
        swaps_operation(
            store,
            request.context,
            request.expected_operation,
            reconcile_draft(store, request),
        ),
{
    let context = request.context;
    let expected = request.expected_operation;
    let ready = reconcile_ready(store, request);
    lemma_advance_swaps(store, context, expected, ready, reconcile_draft(store, request), 0);
}

proof fn lemma_place_extends(store: MetaShard, request: FinalizePublishRequest, draft: Draft)
    ensures
        extends(
            advancing(store, request.context, request.expected_operation, draft),
            place_draft(store, request, draft),
            2,
        ),
{
    reveal(place_draft);
}

proof fn lemma_index_extends(request: FinalizePublishRequest, draft: Draft)
    ensures
        extends(draft, index_draft(request, draft), 1 + asked_rows(request).len()),
{
    reveal(index_draft);
    let step = index_pin_step(asked_rows(request));
    let flipped = replacing(
        draft,
        locator_row_of(asked_locator(request)),
        locator_payload_of(request, PathIndexLocatorState::Staged),
        locator_payload_of(request, PathIndexLocatorState::Published),
    );
    assert(step_extends(step, 1));
    lemma_replace_extends(
        draft,
        locator_row_of(asked_locator(request)),
        locator_payload_of(request, PathIndexLocatorState::Staged),
        locator_payload_of(request, PathIndexLocatorState::Published),
    );
    lemma_steps_extend(step, 1, asked_rows(request).len(), flipped);
    lemma_extends_trans(
        draft,
        flipped,
        index_draft(request, draft),
        1,
        asked_rows(request).len(),
    );
}

proof fn lemma_revision_extends(store: MetaShard, request: FinalizePublishRequest, draft: Draft)
    ensures
        extends(draft, revision_draft(store, request, draft), 4),
{
    reveal(revision_draft);
    reveal(claim_release_draft);
}

pub proof fn lemma_touches_extend(
    store: MetaShard,
    context: PublicationContext,
    operation: PublishOperationRecord,
    owners: Seq<ArtifactRevisionId>,
    shown: Option<ArtifactRevisionId>,
    version: CommitVersion,
    draft: Draft,
)
    ensures
        extends(
            draft,
            touches_draft(store, context, operation, owners, shown, version, draft),
            3 * touched(owners, shown).len(),
        ),
{
    reveal(touches_draft);
    reveal(touch_draft);
    let step = touch_step(store, context, operation, owners, shown, version);
    assert(step_extends(step, 3));
    lemma_steps_extend(step, 3, touched(owners, shown).len(), draft);
}

/// A publication compares and sets the operation row, in the same command that
/// makes its path and its revision visible.
pub proof fn publications_swap_the_operation(store: MetaShard, request: FinalizePublishRequest)
    ensures
        swaps_operation(
            store,
            request.context,
            request.expected_operation,
            finalize_draft(store, request),
        ),
{
    let context = request.context;
    let expected = request.expected_operation;
    let operation = expected.record;
    let owners = request.dependency_owner_revision_ids@;
    let draft = finalize_draft(store, request);
    match operation.authority {
        PublishAuthority::CommitStaging { commit_operation_id } => {
            let ready = commit_stage_ready(store, request, commit_operation_id);
            let advanced = advancing(store, context, expected, ready);
            lemma_commit_extends(store, request, commit_operation_id);
            lemma_advance_swaps(store, context, expected, ready, draft, 8);
        },
        _ => {
            let opened = halted(live(empty_plan()), publication_halt(store, request));
            let advanced = advancing(store, context, expected, opened);
            let shown = shown_revision(store, context, operation);
            let version = publication_version(store, context);
            let placed = place_draft(store, request, opened);
            let indexed = index_draft(request, placed);
            let revised = revision_draft(store, request, indexed);
            let written = touches_draft(
                store,
                context,
                operation,
                owners,
                shown,
                version,
                revised,
            );
            let told = event_draft(store, request, written);
            let a = asked_rows(request).len();
            let b = 3 * touched(owners, shown).len();
            lemma_place_extends(store, request, opened);
            lemma_index_extends(request, placed);
            lemma_extends_trans(advanced, placed, indexed, 2, 1 + a);
            lemma_revision_extends(store, request, indexed);
            lemma_extends_trans(advanced, indexed, revised, 2 + (1 + a), 4);
            lemma_touches_extend(store, context, operation, owners, shown, version, revised);
            lemma_extends_trans(advanced, revised, written, 2 + (1 + a) + 4, b);
            lemma_emit_extends(written, change_event_bytes(event_of(store, request)));
            lemma_extends_trans(advanced, written, told, 2 + (1 + a) + 4 + b, 1);
            lemma_sealed_extends(
                store,
                execution_context(store, context),
                transitioned_of(store),
                PublicationAuthorityPurpose::Forward,
                told,
            );
            lemma_extends_trans(advanced, told, draft, 2 + (1 + a) + 4 + b + 1, 4);
            lemma_advance_swaps(
                store,
                context,
                expected,
                opened,
                draft,
                2 + (1 + a) + 4 + b + 1 + 4,
            );
        },
    }
}

proof fn lemma_commit_extends(
    store: MetaShard,
    request: FinalizePublishRequest,
    commit_operation_id: OperationId,
)
    ensures
        extends(
            advancing(
                store,
                request.context,
                request.expected_operation,
                commit_stage_ready(store, request, commit_operation_id),
            ),
            commit_stage_draft(store, request, commit_operation_id),
            8,
        ),
{
    reveal(claim_release_draft);
    reveal(authority_draft);
}

/// Batches of staged objects never meet the item limit of a command: a batch
/// that its own checks and its authority let through is within bounds.
pub proof fn staged_batches_fit_one_command(store: MetaShard, request: StageObjectsBatchRequest)
    ensures
        ({
            let context = request.context;
            let operation = request.expected_operation.record;
            let rows = request.staged_objects@;
            let unbounded = authority_draft(
                store,
                context,
                staged_next(operation, rows),
                PublicationAuthorityPurpose::Forward,
                stepped(
                    staging_step(context, operation, rows),
                    rows.len(),
                    advancing(
                        store,
                        context,
                        request.expected_operation,
                        stage_objects_ready(store, request),
                    ),
                ),
            );
            unbounded.halt is None ==> stage_objects_draft(store, request) == unbounded
        }),
{
    let context = request.context;
    let expected = request.expected_operation;
    let rows = request.staged_objects@;
    let ready = stage_objects_ready(store, request);
    let advanced = advancing(store, context, expected, ready);
    let added = stepped(staging_step(context, expected.record, rows), rows.len(), advanced);
    let next = staged_next(expected.record, rows);
    let unbounded = authority_draft(
        store,
        context,
        next,
        PublicationAuthorityPurpose::Forward,
        added,
    );
    if unbounded.halt is None {
        lemma_staging_extends(request, advanced);
        lemma_authority_extends(
            store,
            context,
            next,
            PublicationAuthorityPurpose::Forward,
            added,
        );
        lemma_extends_trans(advanced, added, unbounded, rows.len(), 4);
        assert(ready.halt is None);
        assert(ready.plan == empty_plan());
        assert(rows.len() <= MAX_PUBLICATION_BATCH_ROWS);
    }
}

/// Batches of manifest rows never meet the item limit of a command.
pub proof fn manifest_batches_fit_one_command(store: MetaShard, request: StageManifestBatchRequest)
    ensures
        ({
            let context = request.context;
            let operation = request.expected_operation.record;
            let rows = request.manifest_rows@;
            let unbounded = authority_draft(
                store,
                context,
                manifest_next(operation, rows),
                PublicationAuthorityPurpose::Forward,
                stepped(
                    manifest_step(context, operation, rows),
                    rows.len(),
                    asserting(
                        advancing(
                            store,
                            context,
                            request.expected_operation,
                            stage_manifest_ready(store, request),
                        ),
                        revision_key_of(context, operation.artifact_revision_id),
                        None,
                    ),
                ),
            );
            unbounded.halt is None ==> stage_manifest_draft(store, request) == unbounded
        }),
{
    let context = request.context;
    let expected = request.expected_operation;
    let rows = request.manifest_rows@;
    let ready = stage_manifest_ready(store, request);
    let advanced = advancing(store, context, expected, ready);
    let pinned = asserting(
        advanced,
        revision_key_of(context, expected.record.artifact_revision_id),
        None,
    );
    let added = stepped(manifest_step(context, expected.record, rows), rows.len(), pinned);
    let next = manifest_next(expected.record, rows);
    let unbounded = authority_draft(
        store,
        context,
        next,
        PublicationAuthorityPurpose::Forward,
        added,
    );
    if unbounded.halt is None {
        lemma_assert_extends(
            advanced,
            revision_key_of(context, expected.record.artifact_revision_id),
            None,
        );
        lemma_manifest_extends(request, pinned);
        lemma_extends_trans(advanced, pinned, added, 1, rows.len());
        lemma_authority_extends(
            store,
            context,
            next,
            PublicationAuthorityPurpose::Forward,
            added,
        );
        lemma_extends_trans(advanced, added, unbounded, 1 + rows.len(), 4);
        assert(ready.halt is None);
        assert(ready.plan == empty_plan());
        assert(rows.len() <= MAX_PUBLICATION_BATCH_ROWS);
    }
}

/// Progress of any kind leaves an operation sealed: what it has promised to
/// publish never changes.
pub proof fn progress_keeps_the_seals(
    store: MetaShard,
    operation: PublishOperationRecord,
    rows: Seq<Coded<StagedObjectRecord>>,
    updates: Seq<StagedObjectUpdate>,
    manifest: Seq<ManifestRowInput>,
    swept: nat,
    deadline_ms: u64,
)
    requires
        is_sealed(operation),
    ensures
        is_sealed(staged_next(operation, rows)),
        is_sealed(uploaded_next(operation, updates)),
        is_sealed(manifest_next(operation, manifest)),
        is_sealed(swept_next(store, operation, swept)),
        is_sealed(extended(operation, deadline_ms)),
{
}

/// A ledger grows by exactly its batch, and never beyond its plan.
pub proof fn staged_ledgers_stay_within_their_plan(
    store: MetaShard,
    request: StageObjectsBatchRequest,
)
    requires
        stage_objects_draft(store, request).halt is None,
    ensures
        ({
            let operation = request.expected_operation.record;
            let next = staged_next(operation, request.staged_objects@);
            &&& next.staged_object_cursor == operation.staged_object_cursor
                + request.staged_objects@.len()
            &&& operation.staged_object_cursor < next.staged_object_cursor
                <= operation.staged_object_count
            &&& forall|i: int|
                0 <= i < request.staged_objects@.len() ==> (#[trigger] request.staged_objects@[i]).record.object_sequence
                    == operation.staged_object_cursor + i
        }),
{
    let context = request.context;
    let expected = request.expected_operation;
    let rows = request.staged_objects@;
    let ready = stage_objects_ready(store, request);
    let advanced = advancing(store, context, expected, ready);
    let step = staging_step(context, expected.record, rows);
    if ready.halt is Some {
        assert(keeps_halts(step));
        lemma_stepped_halt(step, 0, rows.len(), advanced);
        lemma_authority_after_halt(
            store,
            context,
            staged_next(expected.record, rows),
            PublicationAuthorityPurpose::Forward,
            stepped(step, rows.len(), advanced),
        );
    }
    assert forall|i: int| 0 <= i < rows.len() implies (
    #[trigger] rows[i]).record.object_sequence == expected.record.staged_object_cursor + i by {
        lemma_fault_none(staged_row_fault(context, expected.record, rows), rows.len(), i);
    }
}

/// Uploads are confirmed in order, and never beyond what is staged.
pub proof fn uploads_stay_within_the_ledger(
    store: MetaShard,
    request: MarkObjectsUploadedBatchRequest,
)
    requires
        mark_uploaded_draft(store, request).halt is None,
    ensures
        ({
            let operation = request.expected_operation.record;
            let next = uploaded_next(operation, request.staged_object_updates@);
            operation.uploaded_object_cursor < next.uploaded_object_cursor
                <= operation.staged_object_cursor
        }),
{
    let context = request.context;
    let expected = request.expected_operation;
    let updates = request.staged_object_updates@;
    let ready = mark_uploaded_ready(store, request);
    let step = upload_step(context, expected.record, updates);
    if ready.halt is Some {
        lemma_authority_after_halt(
            store,
            context,
            uploaded_next(expected.record, updates),
            PublicationAuthorityPurpose::Forward,
            advancing(store, context, expected, ready),
        );
    }
    assert(keeps_halts(step));
    assert forall|d: Draft| d.halt is Some implies #[trigger] stepped(step, updates.len(), d)
        == d by {
        lemma_stepped_halt(step, 0, updates.len(), d);
    }
}

/// Manifest rows follow each other without gaps, in position and in content,
/// also across batches, and never go beyond the plan.
pub proof fn manifests_are_contiguous(store: MetaShard, request: StageManifestBatchRequest)
    requires
        stage_manifest_draft(store, request).halt is None,
        manifest_rows_wf(request.manifest_rows@),
    ensures
        ({
            let operation = request.expected_operation.record;
            let rows = request.manifest_rows@;
            &&& rows.len() > 0
            &&& operation.manifest_cursor + rows.len() <= operation.manifest_row_count
            &&& rows[0].row.record.logical_offset == manifest_end(
                store,
                request.context,
                operation,
            )
            &&& forall|i: int|
                0 <= i < rows.len() ==> (#[trigger] rows[i]).object_index
                    == operation.manifest_cursor + i
            &&& forall|i: int|
                0 < i < rows.len() ==> (#[trigger] rows[i]).row.record.logical_offset
                    == rows[i - 1].row.record.logical_offset + rows[i - 1].row.record.length
        }),
{
    let context = request.context;
    let expected = request.expected_operation;
    let operation = expected.record;
    let rows = request.manifest_rows@;
    let ready = stage_manifest_ready(store, request);
    let advanced = advancing(store, context, expected, ready);
    let pinned = asserting(advanced, revision_key_of(context, operation.artifact_revision_id), None);
    let step = manifest_step(context, operation, rows);
    if ready.halt is Some {
        assert(keeps_halts(step));
        lemma_stepped_halt(step, 0, rows.len(), pinned);
        lemma_authority_after_halt(
            store,
            context,
            manifest_next(operation, rows),
            PublicationAuthorityPurpose::Forward,
            stepped(step, rows.len(), pinned),
        );
    }
    assert(manifest_batch_fault(store, request) is None);
    assert forall|i: int| 0 <= i < rows.len() implies (#[trigger] rows[i]).object_index
        == operation.manifest_cursor + i by {
        lemma_fault_none(manifest_position_fault(context, operation, rows), rows.len(), i);
    }
    assert forall|i: int| 0 < i < rows.len() implies (
    #[trigger] rows[i]).row.record.logical_offset == rows[i - 1].row.record.logical_offset
        + rows[i - 1].row.record.length by {
        lemma_fault_none(manifest_succession_fault(rows), rows.len(), i);
    }
}

/// An operation begins only on a revision that no operation has claimed: the
/// command compares the claim, and the revision itself, with absence.
pub proof fn beginning_takes_the_only_claim(store: MetaShard, request: BeginPublishRequest)
    requires
        begin_draft(store, request).halt is None,
    ensures
        ({
            let plan = begin_draft(store, request).plan;
            let revision = request.operation.record.artifact_revision_id;
            &&& plan.predicates.contains(
                PlanPredicateView::Value {
                    key: claim_key_of(request.context, revision),
                    expected: None,
                },
            )
            &&& plan.predicates.contains(
                PlanPredicateView::Value {
                    key: revision_key_of(request.context, revision),
                    expected: None,
                },
            )
            &&& plan.mutations.contains(
                PlanMutationView::Put {
                    key: claim_key_of(request.context, revision),
                    value: revision_claim_bytes(
                        ArtifactRevisionClaimRecord {
                            operation_id: request.operation.record.operation_id,
                        },
                    ),
                },
            )
        }),
{
    let context = request.context;
    let operation = request.operation.record;
    let revision = operation.artifact_revision_id;
    let claim = claim_key_of(context, revision);
    let opened = begin_opening(store, request);
    let first = put_absent(opened, publish_key(context, operation), payload_of(request.operation));
    let created = put_absent(
        first,
        claim,
        revision_claim_bytes(ArtifactRevisionClaimRecord { operation_id: operation.operation_id }),
    );
    let bare = begin_bare(store, request);
    lemma_sealed_extends(
        store,
        context,
        operation,
        PublicationAuthorityPurpose::Forward,
        bare,
    );
    let draft = begin_draft(store, request);
    assert(bare.halt is None);
    assert(created.halt is None);
    let n = first.plan.predicates.len() as int;
    assert(created.plan.predicates[n] == PlanPredicateView::Value { key: claim, expected: None });
    assert(bare.plan.predicates[n] == created.plan.predicates[n]);
    assert(bare.plan.predicates.last() == PlanPredicateView::Value {
        key: revision_key_of(context, revision),
        expected: None,
    });
    assert(bare.plan.mutations.last() == created.plan.mutations.last());
    lemma_prefix_contains(
        bare.plan.predicates,
        draft.plan.predicates,
        bare.plan.predicates[n],
    );
    lemma_prefix_contains(
        bare.plan.predicates,
        draft.plan.predicates,
        bare.plan.predicates.last(),
    );
    lemma_prefix_contains(
        bare.plan.mutations,
        draft.plan.mutations,
        bare.plan.mutations.last(),
    );
}

/// A request to begin is answered from the operation it began: where the row
/// holds an operation with the request's own inputs, sealed, and no restore
/// owns it, nothing stops the replay.
pub proof fn beginning_is_replayed(store: MetaShard, request: BeginPublishRequest)
    requires
        begin_fault(request) is None,
        publish_halt(
            store,
            request.context.read_version,
            publish_key(request.context, request.operation.record),
        ) is None,
        begun(store, request) is Some,
        is_sealed(begun(store, request).unwrap()),
        same_inputs(begun(store, request).unwrap(), request.operation.record),
        !(begun(store, request).unwrap().authority is RestoreStaging),
    ensures
        begin_halt(store, request) is None,
{
    reveal(existing_replay_halt);
}

/// A claim that another operation holds is left alone.
pub proof fn foreign_claims_stay(
    store: MetaShard,
    context: PublicationContext,
    revision: ArtifactRevisionId,
    operation_id: OperationId,
    draft: Draft,
)
    requires
        claim_halt(store, context.read_version, claim_key_of(context, revision)) is None,
        match claim_of(store, context.read_version, claim_key_of(context, revision)) {
            None => true,
            Some(claim) => claim.operation_id != operation_id,
        },
    ensures
        claim_release_draft(store, context, revision, operation_id, draft) == draft,
{
    reveal(claim_release_draft);
}

/// A heartbeat comes from the initiating owner, and moves the deadline forward
/// and beyond the lease clock.
pub proof fn heartbeats_extend_the_lease(store: MetaShard, request: HeartbeatPublishRequest)
    requires
        heartbeat_draft(store, request).halt is None,
    ensures
        ({
            let operation = request.expected_operation.record;
            &&& request.context.owner_epoch == operation.initiating_owner_epoch
            &&& extended(operation, request.activity_deadline_ms).activity_deadline_ms
                > operation.activity_deadline_ms
            &&& store.lease_clock matches Some(Ok(clock)) && request.activity_deadline_ms > clock
        }),
{
    let context = request.context;
    let expected = request.expected_operation;
    let ready = heartbeat_ready(store, request);
    if ready.halt is Some {
        lemma_authority_after_halt(
            store,
            context,
            extended(expected.record, request.activity_deadline_ms),
            PublicationAuthorityPurpose::Forward,
            advancing(store, context, expected, ready),
        );
    }
}

/// An operation in progress is taken over by a newer owner, or by its own once
/// the lease clock has passed the deadline and the skew.
pub proof fn takeovers_are_fenced(store: MetaShard, request: TakeOverOrphanedPublishRequest)
    requires
        takeover_draft(store, request).halt is None,
    ensures
        ({
            let operation = request.expected_operation.record;
            &&& operation.phase == PublishPhase::Uploading || operation.phase
                == PublishPhase::Finalizing
            &&& request.context.owner_epoch.value > operation.initiating_owner_epoch.value || (
            store.observed_clock matches Some(Ok(clock)) && clock >= expiry_threshold(
                operation.activity_deadline_ms,
                request.maximum_clock_skew_ms,
            ))
        }),
{
    let context = request.context;
    let expected = request.expected_operation;
    let ready = takeover_ready(store, request);
    if ready.halt is Some {
        lemma_authority_after_halt(
            store,
            context,
            transitioned_of(store),
            PublicationAuthorityPurpose::Cleanup,
            advancing(store, context, expected, ready),
        );
    }
}

/// Nothing is published by a plain step: that takes a finalization.
pub proof fn publishing_needs_finalization(store: MetaShard, request: TransitionPublishRequest)
    requires
        seals_fault(request.expected_operation) is None,
        request.transition is Publish,
    ensures
        transition_draft(store, request).halt == Some(
            StopView::Fail(PublicationError::MetadataLastFinalizationRequired),
        ),
{
    let context = request.context;
    let expected = request.expected_operation;
    let advanced = advancing(store, context, expected, transition_ready(store, request));
    lemma_authority_after_halt(
        store,
        context,
        transitioned_of(store),
        purpose_of(request.transition),
        advanced,
    );
}

/// Pins add no mutation and no event.
pub proof fn lemma_authority_only_pins(
    store: MetaShard,
    context: PublicationContext,
    operation: PublishOperationRecord,
    purpose: PublicationAuthorityPurpose,
    draft: Draft,
)
    ensures
        ({
            let after = authority_draft(store, context, operation, purpose, draft);
            after.halt is None ==> after.plan.mutations == draft.plan.mutations
                && after.plan.events == draft.plan.events
        }),
{
    reveal(authority_draft);
}

/// A run manifest stays hidden: publishing it into its commit build changes
/// neither the path nor the workspace, and tells nobody.
pub proof fn run_manifests_stay_hidden(
    store: MetaShard,
    request: FinalizePublishRequest,
    commit_operation_id: OperationId,
)
    requires
        commit_stage_draft(store, request, commit_operation_id).halt is None,
    ensures
        ({
            let plan = commit_stage_draft(store, request, commit_operation_id).plan;
            let operation = request.expected_operation.record;
            &&& plan.events.len() == 0
            &&& forall|i: int|
                0 <= i < plan.mutations.len() ==> {
                    &&& (#[trigger] plan.mutations[i]).key() != path_key_of(
                        request.context,
                        operation,
                    )
                    &&& plan.mutations[i].key() != workspace_key_of(request.context, operation)
                }
        }),
{
    let context = request.context;
    let operation = request.expected_operation.record;
    let referred = commit_stage_referred(store, request, commit_operation_id);
    lemma_authority_only_pins(
        store,
        context,
        transitioned_of(store),
        PublicationAuthorityPurpose::Forward,
        referred,
    );
    lemma_authority_extends(
        store,
        context,
        transitioned_of(store),
        PublicationAuthorityPurpose::Forward,
        referred,
    );
    reveal(claim_release_draft);
}

proof fn lemma_place_writes(store: MetaShard, request: FinalizePublishRequest, draft: Draft)
    requires
        place_draft(store, request, draft).halt is None,
    ensures
        place_draft(store, request, draft).plan.mutations.contains(
            PlanMutationView::Put {
                key: path_key_of(request.context, request.expected_operation.record),
                value: path_entry_bytes(next_entry(request)),
            },
        ),
{
    reveal(place_draft);
    let after = place_draft(store, request, draft).plan;
    assert(after.mutations.last() == PlanMutationView::Put {
        key: path_key_of(request.context, request.expected_operation.record),
        value: path_entry_bytes(next_entry(request)),
    });
}

proof fn lemma_revision_writes(store: MetaShard, request: FinalizePublishRequest, draft: Draft)
    requires
        revision_draft(store, request, draft).halt is None,
    ensures
        revision_draft(store, request, draft).plan.mutations.contains(
            PlanMutationView::Put {
                key: revision_key_of(
                    request.context,
                    request.expected_operation.record.artifact_revision_id,
                ),
                value: artifact_revision_bytes(new_revision(request)),
            },
        ),
{
    reveal(revision_draft);
    reveal(claim_release_draft);
    let after = revision_draft(store, request, draft).plan;
    let n = draft.plan.mutations.len() as int;
    assert(after.mutations[n] == PlanMutationView::Put {
        key: revision_key_of(
            request.context,
            request.expected_operation.record.artifact_revision_id,
        ),
        value: artifact_revision_bytes(new_revision(request)),
    });
}

/// A publication installs the path and the revision that it shows in one
/// command, and tells exactly where everyone sees it.
pub proof fn publications_install_path_and_revision(
    store: MetaShard,
    request: FinalizePublishRequest,
)
    requires
        publication_draft(store, request).halt is None,
    ensures
        ({
            let plan = publication_draft(store, request).plan;
            let operation = request.expected_operation.record;
            &&& plan.mutations.contains(
                PlanMutationView::Put {
                    key: path_key_of(request.context, operation),
                    value: path_entry_bytes(next_entry(request)),
                },
            )
            &&& plan.mutations.contains(
                PlanMutationView::Put {
                    key: revision_key_of(request.context, operation.artifact_revision_id),
                    value: artifact_revision_bytes(new_revision(request)),
                },
            )
            &&& operation.authority is Visible ==> plan.events.contains(
                change_event_bytes(event_of(store, request)),
            )
        }),
{
    let context = request.context;
    let expected = request.expected_operation;
    let operation = expected.record;
    let owners = request.dependency_owner_revision_ids@;
    let opened = halted(live(empty_plan()), publication_halt(store, request));
    let shown = shown_revision(store, context, operation);
    let version = publication_version(store, context);
    let placed = place_draft(store, request, opened);
    let indexed = index_draft(request, placed);
    let revised = revision_draft(store, request, indexed);
    let written = touches_draft(store, context, operation, owners, shown, version, revised);
    let told = event_draft(store, request, written);
    let draft = publication_draft(store, request);
    lemma_index_extends(request, placed);
    lemma_revision_extends(store, request, indexed);
    lemma_touches_extend(store, context, operation, owners, shown, version, revised);
    lemma_emit_extends(written, change_event_bytes(event_of(store, request)));
    lemma_authority_extends(
        store,
        execution_context(store, context),
        transitioned_of(store),
        PublicationAuthorityPurpose::Forward,
        told,
    );
    lemma_authority_only_pins(
        store,
        execution_context(store, context),
        transitioned_of(store),
        PublicationAuthorityPurpose::Forward,
        told,
    );
    lemma_place_writes(store, request, opened);
    lemma_revision_writes(store, request, indexed);
    let path = PlanMutationView::Put {
        key: path_key_of(context, operation),
        value: path_entry_bytes(next_entry(request)),
    };
    let revision = PlanMutationView::Put {
        key: revision_key_of(context, operation.artifact_revision_id),
        value: artifact_revision_bytes(new_revision(request)),
    };
    lemma_prefix_contains(placed.plan.mutations, indexed.plan.mutations, path);
    lemma_prefix_contains(indexed.plan.mutations, revised.plan.mutations, path);
    lemma_prefix_contains(revised.plan.mutations, written.plan.mutations, path);
    lemma_prefix_contains(written.plan.mutations, told.plan.mutations, path);
    lemma_prefix_contains(revised.plan.mutations, written.plan.mutations, revision);
    lemma_prefix_contains(written.plan.mutations, told.plan.mutations, revision);
    if operation.authority is Visible {
        assert(told.plan.events.last() == change_event_bytes(event_of(store, request)));
    }
}

/// The manifest of a published revision is never swept: under that verdict a
/// reconciliation with manifest rows left stops.
pub proof fn published_manifests_are_kept(
    store: MetaShard,
    request: ReconcileQuarantinedPublishBatchRequest,
)
    requires
        request.resolution == QuarantineReconcileResolution::RevisionPublished,
        !sweeps_staged(request.expected_operation.record),
    ensures
        reconcile_draft(store, request).halt is Some,
{
    let context = request.context;
    let operation = request.expected_operation.record;
    let rows = request.staged_object_rows@;
    let opened = halted(
        live(empty_plan()),
        batch_opening_halt(store, context, request.expected_operation, PublishPhase::Quarantined),
    );
    let judged = verdict_draft(store, context, operation, request.resolution, opened);
    let fault = manifest_sweep_fault(
        "reconcile staged objects",
        "reconcile manifest",
        operation,
        rows.len(),
        true,
    );
    assert(fault is Some);
    reveal(manifest_sweep_draft);
    let step = scanned_step(scanned_rows(store));
    let stopped = halted(judged, first_fault(failing(fault), scan_halt(store, context, operation)));
    assert(keeps_halts(step));
    lemma_stepped_halt(step, 0, scanned_rows(store).len(), stopped);
}

/// Sealing an operation makes it acceptable, and only sealing does.
pub proof fn sealed_operations_are_accepted(operation: PublishOperationRecord)
    ensures
        is_sealed(operation) <==> seal_mismatch(operation) is None,
{
}

/// References are counted: a touched revision gains one for a new dependent
/// and loses one for the path that leaves it, its epoch advances by one, and
/// it remembers the version exactly when no reference is left.
pub proof fn references_are_counted(
    record: ArtifactRevisionView,
    revision: ArtifactRevisionId,
    adds: bool,
    removes: bool,
    version: CommitVersion,
)
    requires
        reference_fault(record, revision, adds, removes) is None,
    ensures
        ({
            let next = touched_record(record, adds, removes, version);
            &&& next.reference_epoch.value == record.reference_epoch.value + 1
            &&& adds && !removes ==> next.strong_reference_count == record.strong_reference_count
                + 1
            &&& removes && !adds ==> next.strong_reference_count == record.strong_reference_count
                - 1
            &&& adds == removes ==> next.strong_reference_count == record.strong_reference_count
            &&& next.last_zero_ref_version == (if next.strong_reference_count == 0 {
                Some(version)
            } else {
                None
            })
        }),
{
}

} // verus!
