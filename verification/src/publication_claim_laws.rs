//! A revision has one claim: while an operation holds it a second beginning on
//! the revision is refused, and only the steps that give a claim up change its
//! row.

use crate::ids::{ArtifactRevisionId, CommitVersion, MetadataFamily, OperationId};
use crate::publication_authority::{claim_key_of, claim_release_draft, lemma_authority_after_halt,
    revision_key_of, sealed_draft, verdict_draft};
use crate::publication_batches::{batch_opening_halt, mark_uploaded_draft, mark_uploaded_ready,
    stage_objects_draft, stage_objects_ready, staging_step, upload_step,
    MarkObjectsUploadedBatchRequest, StageObjectsBatchRequest};
use crate::publication_commit_stage::{commit_stage_draft, commit_stage_ready, commit_stage_referred,
    finalize_draft};
use crate::publication_error::{PublicationError, QuarantineReconcileResolution};
use crate::publication_finalize::{asked_rows, event_draft, execution_context, index_draft,
    index_pin_step, place_draft, publication_draft, publication_halt, publication_version,
    revision_draft, FinalizePublishRequest};
use crate::publication_index_stage::{index_step, stage_draft, IndexStageView};
use crate::publication_laws::lemma_authority_only_pins;
use crate::publication_lifecycle::{advancing, begin_bare, begin_draft, begin_fault, begin_halt,
    begun, finish_reconcile_draft, finish_reconcile_ready, heartbeat_draft, lease_clock_halt,
    takeover_draft, transition_draft, transition_ready, BeginPublishRequest,
    FinishReconcileQuarantinedPublishRequest, HeartbeatPublishRequest,
    TakeOverOrphanedPublishRequest, TransitionPublishRequest};
use crate::publication_manifest::{manifest_step, stage_manifest_draft, stage_manifest_ready,
    StageManifestBatchRequest};
use crate::publication_owners::{shown_revision, touch_draft, touch_step, touched, touches_draft};
use crate::publication_plan::{asserting, deleting, emitting, empty_plan, failing, halted, live,
    put_absent, replacing, stepped, Draft, PlanMutationView, PlanView, PublicationContext,
    RowKeyView, StopView};
use crate::publication_records::{first_fault, revision_claim_bytes, ArtifactRevisionClaimRecord};
use crate::publication_rules::PublicationAuthorityPurpose;
use crate::publication_store::{claim_halt, claim_of, publish_halt, publish_key, MetaShard};
use crate::publication_sweeps::{cleanup_draft, cleanup_ready, cleanup_step, manifest_sweep_draft,
    manifest_sweep_fault, reconcile_draft, reconcile_ready, reconcile_step, scan_halt, scanned_rows,
    scanned_step, staged_sweep_fault, CleanupPublishBatchRequest,
    ReconcileQuarantinedPublishBatchRequest};
use crate::publish_records::{PublishAuthority, PublishOperationRecord, PublishPhase};
use vstd::prelude::*;

verus! {

/// Whether a key can be that of a claim row: the row itself, or a raw key of
/// the family that claims stand in.
pub open spec fn may_be_claim(key: RowKeyView) -> bool {
    match key {
        RowKeyView::ArtifactRevisionClaim { .. } => true,
        RowKeyView::Raw { family, .. } => family == MetadataFamily::ArtifactRevision,
        _ => false,
    }
}

/// The claim row of the revision that an operation publishes.
pub open spec fn own_claim(
    context: PublicationContext,
    operation: PublishOperationRecord,
) -> RowKeyView {
    claim_key_of(context, operation.artifact_revision_id)
}

/// Whether a plan leaves every claim row as it is, but for the one under
/// `own`.
pub open spec fn spares_claims(plan: PlanView, own: Option<RowKeyView>) -> bool {
    forall|i: int|
        0 <= i < plan.mutations.len() ==> may_be_claim(#[trigger] plan.mutations[i].key())
            ==> own == Some(plan.mutations[i].key())
}

/// Whether a draft that goes through spares claims.
pub open spec fn sparing(draft: Draft, own: Option<RowKeyView>) -> bool {
    draft.halt is None ==> spares_claims(draft.plan, own)
}

broadcast proof fn lemma_halted_spares(
    draft: Draft,
    halt: Option<StopView>,
    own: Option<RowKeyView>,
)
    requires
        sparing(draft, own),
    ensures
        #[trigger] sparing(halted(draft, halt), own),
{
}

broadcast proof fn lemma_assert_spares(
    draft: Draft,
    key: RowKeyView,
    expected: Option<Seq<u8>>,
    own: Option<RowKeyView>,
)
    requires
        sparing(draft, own),
    ensures
        #[trigger] sparing(asserting(draft, key, expected), own),
{
}

broadcast proof fn lemma_emit_spares(draft: Draft, payload: Seq<u8>, own: Option<RowKeyView>)
    requires
        sparing(draft, own),
    ensures
        #[trigger] sparing(emitting(draft, payload), own),
{
}

broadcast proof fn lemma_put_spares(
    draft: Draft,
    key: RowKeyView,
    value: Seq<u8>,
    own: Option<RowKeyView>,
)
    requires
        sparing(draft, own),
        may_be_claim(key) ==> own == Some(key),
    ensures
        #[trigger] sparing(put_absent(draft, key, value), own),
{
}

broadcast proof fn lemma_replace_spares(
    draft: Draft,
    key: RowKeyView,
    expected: Seq<u8>,
    value: Seq<u8>,
    own: Option<RowKeyView>,
)
    requires
        sparing(draft, own),
        may_be_claim(key) ==> own == Some(key),
    ensures
        #[trigger] sparing(replacing(draft, key, expected, value), own),
{
}

broadcast proof fn lemma_delete_spares(
    draft: Draft,
    key: RowKeyView,
    expected: Seq<u8>,
    own: Option<RowKeyView>,
)
    requires
        sparing(draft, own),
        may_be_claim(key) ==> own == Some(key),
    ensures
        #[trigger] sparing(deleting(draft, key, expected), own),
{
}

broadcast proof fn lemma_sealed_spares(
    store: MetaShard,
    context: PublicationContext,
    operation: PublishOperationRecord,
    purpose: PublicationAuthorityPurpose,
    draft: Draft,
    own: Option<RowKeyView>,
)
    requires
        sparing(draft, own),
    ensures
        #[trigger] sparing(sealed_draft(store, context, operation, purpose, draft), own),
{
    if draft.halt is Some {
        lemma_authority_after_halt(store, context, operation, purpose, draft);
    }
    lemma_authority_only_pins(store, context, operation, purpose, draft);
}

broadcast proof fn lemma_verdict_spares(
    store: MetaShard,
    context: PublicationContext,
    operation: PublishOperationRecord,
    resolution: QuarantineReconcileResolution,
    draft: Draft,
    own: Option<RowKeyView>,
)
    requires
        sparing(draft, own),
    ensures
        #[trigger] sparing(verdict_draft(store, context, operation, resolution, draft), own),
{
    reveal(verdict_draft);
}

/// Whether the claim on a revision is read as held by an operation.
pub open spec fn holds_claim(
    store: MetaShard,
    context: PublicationContext,
    revision: ArtifactRevisionId,
    operation_id: OperationId,
) -> bool {
    claim_of(store, context.read_version, claim_key_of(context, revision)) == Some(
        ArtifactRevisionClaimRecord { operation_id },
    )
}

/// Giving up a claim changes the claim row of the revision, and only where the
/// operation is read as holding it.
broadcast proof fn lemma_release_spares(
    store: MetaShard,
    context: PublicationContext,
    revision: ArtifactRevisionId,
    operation_id: OperationId,
    draft: Draft,
    own: Option<RowKeyView>,
)
    requires
        sparing(draft, own),
        own == Some(claim_key_of(context, revision)) || !holds_claim(
            store,
            context,
            revision,
            operation_id,
        ),
    ensures
        #[trigger] sparing(
            claim_release_draft(store, context, revision, operation_id, draft),
            own,
        ),
{
    reveal(claim_release_draft);
}

broadcast group group_sparing {
    lemma_halted_spares,
    lemma_assert_spares,
    lemma_emit_spares,
    lemma_put_spares,
    lemma_replace_spares,
    lemma_delete_spares,
    lemma_sealed_spares,
    lemma_verdict_spares,
    lemma_release_spares,
}

/// Whether each step leaves claim rows as they are.
spec fn step_spares(step: spec_fn(int, Draft) -> Draft, own: Option<RowKeyView>) -> bool {
    forall|i: int, draft: Draft| sparing(draft, own) ==> sparing(#[trigger] step(i, draft), own)
}

proof fn lemma_steps_spare(
    step: spec_fn(int, Draft) -> Draft,
    n: nat,
    draft: Draft,
    own: Option<RowKeyView>,
)
    requires
        step_spares(step, own),
        sparing(draft, own),
    ensures
        sparing(stepped(step, n, draft), own),
    decreases n,
{
    if n > 0 {
        lemma_steps_spare(step, (n - 1) as nat, draft, own);
    }
}

/// Steps in flight change no claim row: neither a heartbeat nor a takeover
/// does, nor a transition other than the one that ends a cleanup.
pub proof fn steps_in_flight_spare_claims(
    store: MetaShard,
    transition: TransitionPublishRequest,
    heartbeat: HeartbeatPublishRequest,
    takeover: TakeOverOrphanedPublishRequest,
)
    ensures
        !(transition.transition is FinishCleanup) && transition_draft(store, transition).halt
            is None ==> spares_claims(transition_draft(store, transition).plan, None),
        heartbeat_draft(store, heartbeat).halt is None ==> spares_claims(
            heartbeat_draft(store, heartbeat).plan,
            None,
        ),
        takeover_draft(store, takeover).halt is None ==> spares_claims(
            takeover_draft(store, takeover).plan,
            None,
        ),
{
    broadcast use group_sparing;

    assert(sparing(heartbeat_draft(store, heartbeat), None));
    assert(sparing(takeover_draft(store, takeover), None));
    if !(transition.transition is FinishCleanup) {
        assert(sparing(transition_draft(store, transition), None));
    }
}

/// Batches change no claim row: neither does one that stages objects, nor one
/// that records uploads, nor one that stages manifest rows.
pub proof fn batches_spare_claims(
    store: MetaShard,
    staged: StageObjectsBatchRequest,
    uploaded: MarkObjectsUploadedBatchRequest,
    manifest: StageManifestBatchRequest,
)
    ensures
        stage_objects_draft(store, staged).halt is None ==> spares_claims(
            stage_objects_draft(store, staged).plan,
            None,
        ),
        mark_uploaded_draft(store, uploaded).halt is None ==> spares_claims(
            mark_uploaded_draft(store, uploaded).plan,
            None,
        ),
        stage_manifest_draft(store, manifest).halt is None ==> spares_claims(
            stage_manifest_draft(store, manifest).plan,
            None,
        ),
{
    broadcast use group_sparing;

    assert(sparing(stage_objects_draft(store, staged), None)) by {
        let rows = staged.staged_objects@;
        let step = staging_step(staged.context, staged.expected_operation.record, rows);
        let opened = advancing(
            store,
            staged.context,
            staged.expected_operation,
            stage_objects_ready(store, staged),
        );
        assert(step_spares(step, None));
        lemma_steps_spare(step, rows.len(), opened, None);
    }
    assert(sparing(mark_uploaded_draft(store, uploaded), None)) by {
        let updates = uploaded.staged_object_updates@;
        let step = upload_step(uploaded.context, uploaded.expected_operation.record, updates);
        assert(step_spares(step, None));
        assert forall|opened: Draft| sparing(opened, None) implies sparing(
            #[trigger] stepped(step, updates.len(), opened),
            None,
        ) by {
            lemma_steps_spare(step, updates.len(), opened, None);
        }
        assert(sparing(mark_uploaded_ready(store, uploaded), None));
    }
    assert(sparing(stage_manifest_draft(store, manifest), None)) by {
        let rows = manifest.manifest_rows@;
        let operation = manifest.expected_operation.record;
        let step = manifest_step(manifest.context, operation, rows);
        let opened = asserting(
            advancing(
                store,
                manifest.context,
                manifest.expected_operation,
                stage_manifest_ready(store, manifest),
            ),
            revision_key_of(manifest.context, operation.artifact_revision_id),
            None,
        );
        assert(step_spares(step, None));
        lemma_steps_spare(step, rows.len(), opened, None);
    }
}

proof fn lemma_sweep_spares(
    store: MetaShard,
    context: PublicationContext,
    operation: PublishOperationRecord,
    fault: Option<PublicationError>,
    manifest_batch: &'static str,
    draft: Draft,
)
    requires
        sparing(draft, None),
    ensures
        sparing(
            manifest_sweep_draft(store, context, operation, fault, manifest_batch, draft),
            None,
        ),
{
    broadcast use group_sparing;

    reveal(manifest_sweep_draft);
    let rows = scanned_rows(store);
    let step = scanned_step(rows);
    assert(step_spares(step, None));
    lemma_steps_spare(
        step,
        rows.len(),
        halted(draft, first_fault(failing(fault), scan_halt(store, context, operation))),
        None,
    );
}

/// Pages of a sweep change no claim row, neither those of a cleanup nor those
/// of a reconciliation.
pub proof fn sweeps_spare_claims(
    store: MetaShard,
    cleanup: CleanupPublishBatchRequest,
    reconcile: ReconcileQuarantinedPublishBatchRequest,
)
    ensures
        cleanup_draft(store, cleanup).halt is None ==> spares_claims(
            cleanup_draft(store, cleanup).plan,
            None,
        ),
        reconcile_draft(store, reconcile).halt is None ==> spares_claims(
            reconcile_draft(store, reconcile).plan,
            None,
        ),
{
    broadcast use group_sparing;

    assert(sparing(cleanup_draft(store, cleanup), None)) by {
        let context = cleanup.context;
        let operation = cleanup.expected_operation.record;
        let updates = cleanup.staged_object_updates@;
        let step = cleanup_step(context, operation, updates);
        assert(step_spares(step, None));
        let opened = halted(
            live(empty_plan()),
            batch_opening_halt(store, context, cleanup.expected_operation, PublishPhase::Cleaning),
        );
        lemma_steps_spare(
            step,
            updates.len(),
            halted(
                opened,
                failing(staged_sweep_fault("cleanup staged objects", operation, updates.len())),
            ),
            None,
        );
        lemma_sweep_spares(
            store,
            context,
            operation,
            manifest_sweep_fault(
                "cleanup staged objects",
                "cleanup manifest",
                operation,
                updates.len(),
                false,
            ),
            "cleanup manifest",
            opened,
        );
        assert(sparing(cleanup_ready(store, cleanup), None));
    }
    assert(sparing(reconcile_draft(store, reconcile), None)) by {
        let context = reconcile.context;
        let operation = reconcile.expected_operation.record;
        let rows = reconcile.staged_object_rows@;
        let step = reconcile_step(context, operation, rows);
        assert(step_spares(step, None));
        let opened = halted(
            live(empty_plan()),
            batch_opening_halt(
                store,
                context,
                reconcile.expected_operation,
                PublishPhase::Quarantined,
            ),
        );
        let judged = verdict_draft(store, context, operation, reconcile.resolution, opened);
        lemma_steps_spare(
            step,
            rows.len(),
            halted(
                judged,
                failing(staged_sweep_fault("reconcile staged objects", operation, rows.len())),
            ),
            None,
        );
        lemma_sweep_spares(
            store,
            context,
            operation,
            manifest_sweep_fault(
                "reconcile staged objects",
                "reconcile manifest",
                operation,
                rows.len(),
                reconcile.resolution == QuarantineReconcileResolution::RevisionPublished,
            ),
            "reconcile manifest",
            judged,
        );
        assert(sparing(reconcile_ready(store, reconcile), None));
    }
}

/// Staging an index changes no claim row.
pub proof fn index_stages_spare_claims(stage: IndexStageView)
    ensures
        stage_draft(stage).halt is None ==> spares_claims(stage_draft(stage).plan, None),
{
    broadcast use group_sparing;

    let step = index_step(stage.rows);
    assert(step_spares(step, None));
    assert forall|opened: Draft| sparing(opened, None) implies sparing(
        #[trigger] stepped(step, stage.rows.len(), opened),
        None,
    ) by {
        lemma_steps_spare(step, stage.rows.len(), opened, None);
    }
    assert(sparing(stage_draft(stage), None));
}

/// A transition changes at most the claim row of its own revision, and no
/// claim row where its operation is not read as holding the claim.
pub proof fn transitions_spare_claims(
    store: MetaShard,
    request: TransitionPublishRequest,
    own: Option<RowKeyView>,
)
    requires
        own == Some(own_claim(request.context, request.expected_operation.record)) || !holds_claim(
            store,
            request.context,
            request.expected_operation.record.artifact_revision_id,
            request.expected_operation.record.operation_id,
        ),
        transition_draft(store, request).halt is None,
    ensures
        spares_claims(transition_draft(store, request).plan, own),
{
    broadcast use group_sparing;

    assert(sparing(transition_draft(store, request), own));
}

/// A resolution changes at most the claim row of its own revision, and no
/// claim row where its operation is not read as holding the claim.
pub proof fn resolutions_spare_claims(
    store: MetaShard,
    request: FinishReconcileQuarantinedPublishRequest,
    own: Option<RowKeyView>,
)
    requires
        own == Some(own_claim(request.context, request.expected_operation.record)) || !holds_claim(
            store,
            request.context,
            request.expected_operation.record.artifact_revision_id,
            request.expected_operation.record.operation_id,
        ),
        finish_reconcile_draft(store, request).halt is None,
    ensures
        spares_claims(finish_reconcile_draft(store, request).plan, own),
{
    broadcast use group_sparing;

    assert(sparing(finish_reconcile_draft(store, request), own));
}

/// A beginning changes the claim row of its own revision only.
pub proof fn beginnings_spare_foreign_claims(store: MetaShard, request: BeginPublishRequest)
    requires
        begin_draft(store, request).halt is None,
    ensures
        spares_claims(
            begin_draft(store, request).plan,
            Some(own_claim(request.context, request.operation.record)),
        ),
{
    broadcast use group_sparing;

    assert(sparing(
        begin_draft(store, request),
        Some(own_claim(request.context, request.operation.record)),
    ));
}

proof fn lemma_place_spares(
    store: MetaShard,
    request: FinalizePublishRequest,
    draft: Draft,
    own: Option<RowKeyView>,
)
    requires
        sparing(draft, own),
    ensures
        sparing(place_draft(store, request, draft), own),
{
    broadcast use group_sparing;

    reveal(place_draft);
}

proof fn lemma_index_spares(
    request: FinalizePublishRequest,
    draft: Draft,
    own: Option<RowKeyView>,
)
    requires
        sparing(draft, own),
    ensures
        sparing(index_draft(request, draft), own),
{
    broadcast use group_sparing;

    reveal(index_draft);
    let rows = asked_rows(request);
    let step = index_pin_step(rows);
    assert(step_spares(step, own));
    assert forall|opened: Draft| sparing(opened, own) implies sparing(
        #[trigger] stepped(step, rows.len(), opened),
        own,
    ) by {
        lemma_steps_spare(step, rows.len(), opened, own);
    }
}

proof fn lemma_revision_spares(
    store: MetaShard,
    request: FinalizePublishRequest,
    draft: Draft,
    own: Option<RowKeyView>,
)
    requires
        sparing(draft, own),
        own == Some(own_claim(request.context, request.expected_operation.record)) || !holds_claim(
            store,
            execution_context(store, request.context),
            request.expected_operation.record.artifact_revision_id,
            request.expected_operation.record.operation_id,
        ),
    ensures
        sparing(revision_draft(store, request, draft), own),
{
    broadcast use group_sparing;

    reveal(revision_draft);
    let operation = request.expected_operation.record;
    assert(own_claim(request.context, operation) == own_claim(
        execution_context(store, request.context),
        operation,
    ));
}

proof fn lemma_touches_spare(
    store: MetaShard,
    context: PublicationContext,
    operation: PublishOperationRecord,
    owners: Seq<ArtifactRevisionId>,
    shown: Option<ArtifactRevisionId>,
    version: CommitVersion,
    draft: Draft,
    own: Option<RowKeyView>,
)
    requires
        sparing(draft, own),
    ensures
        sparing(touches_draft(store, context, operation, owners, shown, version, draft), own),
{
    broadcast use group_sparing;

    reveal(touches_draft);
    let step = touch_step(store, context, operation, owners, shown, version);
    assert(step_spares(step, own)) by {
        reveal(touch_draft);
    }
    lemma_steps_spare(step, touched(owners, shown).len(), draft, own);
}

/// The context in which a publication reads the claim on its revision.
pub open spec fn claim_context(
    store: MetaShard,
    request: FinalizePublishRequest,
) -> PublicationContext {
    if request.expected_operation.record.authority is CommitStaging {
        request.context
    } else {
        execution_context(store, request.context)
    }
}

/// Publishing changes at most the claim row of its own revision, and no claim
/// row where its operation is not read as holding the claim.
pub proof fn publications_spare_claims(
    store: MetaShard,
    request: FinalizePublishRequest,
    own: Option<RowKeyView>,
)
    requires
        own == Some(own_claim(request.context, request.expected_operation.record)) || !holds_claim(
            store,
            claim_context(store, request),
            request.expected_operation.record.artifact_revision_id,
            request.expected_operation.record.operation_id,
        ),
        finalize_draft(store, request).halt is None,
    ensures
        spares_claims(finalize_draft(store, request).plan, own),
{
    broadcast use group_sparing;

    let context = request.context;
    let operation = request.expected_operation.record;
    match operation.authority {
        PublishAuthority::CommitStaging { commit_operation_id } => {
            assert(sparing(commit_stage_ready(store, request, commit_operation_id), own));
            assert(sparing(commit_stage_referred(store, request, commit_operation_id), own));
            assert(sparing(commit_stage_draft(store, request, commit_operation_id), own));
        },
        _ => {
            let opened = halted(live(empty_plan()), publication_halt(store, request));
            let placed = place_draft(store, request, opened);
            let indexed = index_draft(request, placed);
            let revised = revision_draft(store, request, indexed);
            lemma_place_spares(store, request, opened, own);
            lemma_index_spares(request, placed, own);
            lemma_revision_spares(store, request, indexed, own);
            lemma_touches_spare(
                store,
                context,
                operation,
                request.dependency_owner_revision_ids@,
                shown_revision(store, context, operation),
                publication_version(store, context),
                revised,
                own,
            );
            assert(sparing(publication_draft(store, request), own));
        },
    }
}

/// A second beginning on a revision whose claim is held is answered with the
/// revision and the operation that holds it.
pub proof fn held_claims_refuse_a_beginning(store: MetaShard, request: BeginPublishRequest)
    requires
        begin_fault(request) is None,
        publish_halt(
            store,
            request.context.read_version,
            publish_key(request.context, request.operation.record),
        ) is None,
        begun(store, request) is None,
        lease_clock_halt(store, request.operation.record.activity_deadline_ms) is None,
        claim_halt(
            store,
            request.context.read_version,
            claim_key_of(request.context, request.operation.record.artifact_revision_id),
        ) is None,
        claim_of(
            store,
            request.context.read_version,
            claim_key_of(request.context, request.operation.record.artifact_revision_id),
        ) is Some,
    ensures
        begin_halt(store, request) == Some(
            StopView::Fail(
                PublicationError::RevisionClaimHeld {
                    revision: request.operation.record.artifact_revision_id,
                    operation_id: claim_of(
                        store,
                        request.context.read_version,
                        claim_key_of(
                            request.context,
                            request.operation.record.artifact_revision_id,
                        ),
                    ).unwrap().operation_id,
                },
            ),
        ),
{
    let bare = begin_bare(store, request);
    assert(bare.halt is Some);
    lemma_authority_after_halt(
        store,
        request.context,
        request.operation.record,
        PublicationAuthorityPurpose::Forward,
        bare,
    );
}

/// What a row holds after mutations in order.
pub open spec fn row_after(
    row: Option<Seq<u8>>,
    mutations: Seq<PlanMutationView>,
    key: RowKeyView,
) -> Option<Seq<u8>>
    decreases mutations.len(),
{
    if mutations.len() == 0 {
        row
    } else {
        let before = row_after(row, mutations.drop_last(), key);
        match mutations.last() {
            PlanMutationView::Put { key: written, value } => if written == key {
                Some(value)
            } else {
                before
            },
            PlanMutationView::Delete { key: removed } => if removed == key {
                None
            } else {
                before
            },
        }
    }
}

/// Whether a plan leaves a row as it is.
pub open spec fn leaves_row(plan: PlanView, key: RowKeyView) -> bool {
    forall|i: int| 0 <= i < plan.mutations.len() ==> #[trigger] plan.mutations[i].key() != key
}

/// A plan that changes no claim, or none but that of another revision, leaves
/// the claim row of a revision as it is.
pub proof fn foreign_plans_leave_claims(
    plan: PlanView,
    own: Option<RowKeyView>,
    context: PublicationContext,
    revision: ArtifactRevisionId,
)
    requires
        spares_claims(plan, own),
        own != Some(claim_key_of(context, revision)),
    ensures
        leaves_row(plan, claim_key_of(context, revision)),
{
}

pub proof fn lemma_row_untouched(
    row: Option<Seq<u8>>,
    mutations: Seq<PlanMutationView>,
    key: RowKeyView,
)
    requires
        forall|i: int| 0 <= i < mutations.len() ==> #[trigger] mutations[i].key() != key,
    ensures
        row_after(row, mutations, key) == row,
    decreases mutations.len(),
{
    if mutations.len() > 0 {
        let rest = mutations.drop_last();
        assert forall|i: int| 0 <= i < rest.len() implies #[trigger] rest[i].key() != key by {
            assert(rest[i] == mutations[i]);
        }
        lemma_row_untouched(row, rest, key);
        assert(mutations[mutations.len() - 1].key() != key);
    }
}

/// A beginning that is carried out leaves its operation's claim behind.
pub proof fn beginnings_write_their_claim(
    store: MetaShard,
    request: BeginPublishRequest,
    row: Option<Seq<u8>>,
)
    requires
        begin_draft(store, request).halt is None,
    ensures
        row_after(
            row,
            begin_draft(store, request).plan.mutations,
            claim_key_of(request.context, request.operation.record.artifact_revision_id),
        ) == Some(
            revision_claim_bytes(
                ArtifactRevisionClaimRecord { operation_id: request.operation.record.operation_id },
            ),
        ),
{
    let operation = request.operation.record;
    let bare = begin_bare(store, request);
    let purpose = PublicationAuthorityPurpose::Forward;
    if bare.halt is Some {
        lemma_authority_after_halt(store, request.context, operation, purpose, bare);
    }
    lemma_authority_only_pins(store, request.context, operation, purpose, bare);
    assert(bare.plan.mutations.last() == PlanMutationView::Put {
        key: claim_key_of(request.context, operation.artifact_revision_id),
        value: revision_claim_bytes(
            ArtifactRevisionClaimRecord { operation_id: operation.operation_id },
        ),
    });
}

/// Whether a draft that goes through leaves no row under a key.
spec fn frees(draft: Draft, key: RowKeyView) -> bool {
    draft.halt is None ==> forall|row: Option<Seq<u8>>|
        (#[trigger] row_after(row, draft.plan.mutations, key)) is None
}

proof fn lemma_row_after_push(
    row: Option<Seq<u8>>,
    mutations: Seq<PlanMutationView>,
    mutation: PlanMutationView,
    key: RowKeyView,
)
    ensures
        row_after(row, mutations.push(mutation), key) == match mutation {
            PlanMutationView::Put { key: written, value } => if written == key {
                Some(value)
            } else {
                row_after(row, mutations, key)
            },
            PlanMutationView::Delete { key: removed } => if removed == key {
                None
            } else {
                row_after(row, mutations, key)
            },
        },
{
    assert(mutations.push(mutation).drop_last() =~= mutations);
}

/// A draft stays without a row where it goes on with another row's change.
proof fn lemma_push_frees(before: Draft, after: Draft, mutation: PlanMutationView, key: RowKeyView)
    requires
        frees(before, key),
        after.halt is None ==> before.halt is None && after.plan.mutations
            == before.plan.mutations.push(mutation),
        mutation.key() != key,
    ensures
        frees(after, key),
{
    if after.halt is None {
        assert forall|row: Option<Seq<u8>>| (#[trigger] row_after(
            row,
            after.plan.mutations,
            key,
        )) is None by {
            lemma_row_after_push(row, before.plan.mutations, mutation, key);
        }
    }
}

broadcast proof fn lemma_put_frees(draft: Draft, other: RowKeyView, value: Seq<u8>, key: RowKeyView)
    requires
        frees(draft, key),
        other != key,
    ensures
        #[trigger] frees(put_absent(draft, other, value), key),
{
    let after = put_absent(draft, other, value);
    lemma_push_frees(draft, after, PlanMutationView::Put { key: other, value }, key);
}

broadcast proof fn lemma_replace_frees(
    draft: Draft,
    other: RowKeyView,
    expected: Seq<u8>,
    value: Seq<u8>,
    key: RowKeyView,
)
    requires
        frees(draft, key),
        other != key,
    ensures
        #[trigger] frees(replacing(draft, other, expected, value), key),
{
    let after = replacing(draft, other, expected, value);
    lemma_push_frees(draft, after, PlanMutationView::Put { key: other, value }, key);
}

broadcast proof fn lemma_delete_frees(
    draft: Draft,
    other: RowKeyView,
    expected: Seq<u8>,
    key: RowKeyView,
)
    requires
        frees(draft, key),
        other != key,
    ensures
        #[trigger] frees(deleting(draft, other, expected), key),
{
    let after = deleting(draft, other, expected);
    lemma_push_frees(draft, after, PlanMutationView::Delete { key: other }, key);
}

broadcast proof fn lemma_halted_frees(draft: Draft, halt: Option<StopView>, key: RowKeyView)
    requires
        frees(draft, key),
    ensures
        #[trigger] frees(halted(draft, halt), key),
{
}

broadcast proof fn lemma_sealed_frees(
    store: MetaShard,
    context: PublicationContext,
    operation: PublishOperationRecord,
    purpose: PublicationAuthorityPurpose,
    draft: Draft,
    key: RowKeyView,
)
    requires
        frees(draft, key),
    ensures
        #[trigger] frees(sealed_draft(store, context, operation, purpose, draft), key),
{
    if draft.halt is Some {
        lemma_authority_after_halt(store, context, operation, purpose, draft);
    }
    lemma_authority_only_pins(store, context, operation, purpose, draft);
}

/// An operation that holds a claim gives it up.
proof fn lemma_release_frees(
    store: MetaShard,
    context: PublicationContext,
    revision: ArtifactRevisionId,
    operation_id: OperationId,
    draft: Draft,
)
    requires
        holds_claim(store, context, revision, operation_id),
    ensures
        frees(
            claim_release_draft(store, context, revision, operation_id, draft),
            claim_key_of(context, revision),
        ),
{
    reveal(claim_release_draft);
    let key = claim_key_of(context, revision);
    assert forall|row: Option<Seq<u8>>| (#[trigger] row_after(
        row,
        draft.plan.mutations.push(PlanMutationView::Delete { key }),
        key,
    )) is None by {
        lemma_row_after_push(row, draft.plan.mutations, PlanMutationView::Delete { key }, key);
    }
}

broadcast group group_freeing {
    lemma_put_frees,
    lemma_replace_frees,
    lemma_delete_frees,
    lemma_halted_frees,
    lemma_sealed_frees,
}

/// The end of a cleanup gives up the claim that its operation holds.
pub proof fn finished_cleanups_give_up_their_claim(
    store: MetaShard,
    request: TransitionPublishRequest,
    row: Option<Seq<u8>>,
)
    requires
        request.transition is FinishCleanup,
        transition_draft(store, request).halt is None,
        holds_claim(
            store,
            request.context,
            request.expected_operation.record.artifact_revision_id,
            request.expected_operation.record.operation_id,
        ),
    ensures
        row_after(
            row,
            transition_draft(store, request).plan.mutations,
            claim_key_of(request.context, request.expected_operation.record.artifact_revision_id),
        ) is None,
{
    broadcast use group_freeing;

    let context = request.context;
    let operation = request.expected_operation.record;
    let key = claim_key_of(context, operation.artifact_revision_id);
    lemma_release_frees(
        store,
        context,
        operation.artifact_revision_id,
        operation.operation_id,
        advancing(store, context, request.expected_operation, transition_ready(store, request)),
    );
    assert(frees(transition_draft(store, request), key));
}

/// A resolution of a quarantined operation gives up the claim that the
/// operation holds.
pub proof fn resolutions_give_up_their_claim(
    store: MetaShard,
    request: FinishReconcileQuarantinedPublishRequest,
    row: Option<Seq<u8>>,
)
    requires
        finish_reconcile_draft(store, request).halt is None,
        holds_claim(
            store,
            request.context,
            request.expected_operation.record.artifact_revision_id,
            request.expected_operation.record.operation_id,
        ),
    ensures
        row_after(
            row,
            finish_reconcile_draft(store, request).plan.mutations,
            claim_key_of(request.context, request.expected_operation.record.artifact_revision_id),
        ) is None,
{
    broadcast use group_freeing;

    let context = request.context;
    let operation = request.expected_operation.record;
    let key = claim_key_of(context, operation.artifact_revision_id);
    lemma_release_frees(
        store,
        context,
        operation.artifact_revision_id,
        operation.operation_id,
        advancing(
            store,
            context,
            request.expected_operation,
            finish_reconcile_ready(store, request),
        ),
    );
    assert(frees(finish_reconcile_draft(store, request), key));
}

proof fn lemma_steps_free(
    step: spec_fn(int, Draft) -> Draft,
    n: nat,
    draft: Draft,
    key: RowKeyView,
)
    requires
        forall|i: int, before: Draft| frees(before, key) ==> frees(#[trigger] step(i, before), key),
        frees(draft, key),
    ensures
        frees(stepped(step, n, draft), key),
    decreases n,
{
    if n > 0 {
        lemma_steps_free(step, (n - 1) as nat, draft, key);
    }
}

/// Publishing gives up the claim that its operation holds when the publication
/// is planned.
pub proof fn publications_give_up_their_claim(
    store: MetaShard,
    request: FinalizePublishRequest,
    row: Option<Seq<u8>>,
)
    requires
        finalize_draft(store, request).halt is None,
        holds_claim(
            store,
            claim_context(store, request),
            request.expected_operation.record.artifact_revision_id,
            request.expected_operation.record.operation_id,
        ),
    ensures
        row_after(
            row,
            finalize_draft(store, request).plan.mutations,
            claim_key_of(request.context, request.expected_operation.record.artifact_revision_id),
        ) is None,
{
    broadcast use group_freeing;

    let context = request.context;
    let operation = request.expected_operation.record;
    let revision = operation.artifact_revision_id;
    let key = claim_key_of(context, revision);
    let reading = claim_context(store, request);
    assert forall|draft: Draft| frees(
        #[trigger] claim_release_draft(
            store,
            reading,
            revision,
            operation.operation_id,
            draft,
        ),
        key,
    ) by {
        lemma_release_frees(
            store,
            reading,
            revision,
            operation.operation_id,
            draft,
        );
    }
    match operation.authority {
        PublishAuthority::CommitStaging { commit_operation_id } => {
            assert(frees(commit_stage_referred(store, request, commit_operation_id), key));
            assert(frees(commit_stage_draft(store, request, commit_operation_id), key));
        },
        _ => {
            let opened = halted(live(empty_plan()), publication_halt(store, request));
            let indexed = index_draft(request, place_draft(store, request, opened));
            let revised = revision_draft(store, request, indexed);
            assert(frees(revised, key)) by {
                reveal(revision_draft);
            }
            let owners = request.dependency_owner_revision_ids@;
            let shown = shown_revision(store, context, operation);
            let version = publication_version(store, context);
            let step = touch_step(store, context, operation, owners, shown, version);
            let written = touches_draft(
                store,
                context,
                operation,
                owners,
                shown,
                version,
                revised,
            );
            assert(frees(written, key)) by {
                reveal(touches_draft);
                reveal(touch_draft);
                lemma_steps_free(step, touched(owners, shown).len(), revised, key);
            }
            assert(frees(event_draft(store, request, written), key));
            assert(frees(publication_draft(store, request), key));
        },
    }
}

} // verus!
