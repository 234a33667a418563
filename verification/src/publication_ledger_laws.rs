//! What the batches of a publication leave behind: staged objects, confirmed
//! uploads, manifest rows, and the rows that a sweep removes.

use crate::digest::{sha256_digest, sha256_of};
use crate::ids::MetadataFamily;
use crate::publication_authority::{lemma_authority_after_halt, revision_key_of, verdict_draft};
use crate::publication_batches::{batch_opening_halt, mark_uploaded_draft, mark_uploaded_ready,
    next_rows, stage_objects_draft, stage_objects_ready, staged_key_of, staged_next,
    staged_row_fault, staging_step, upload_fault, upload_step, uploaded_next,
    MarkObjectsUploadedBatchRequest, StageObjectsBatchRequest, StagedObjectUpdate};
use crate::publication_digests::{dependency_digest_of, digest_array, fault_upto, lemma_digest_array,
    lemma_fault_none, manifest_digest_over, payload_fault, payload_of, staged_digest_over,
    validity_fault, ManifestRowInput};
use crate::publication_effect_laws::{adds_rows, expects, lemma_adds_trans, lemma_assert_adds,
    lemma_delete_adds, lemma_expects_stays, lemma_put_adds, lemma_replace_adds, lemma_sealed_adds,
    removes, writes};
use crate::publication_error::{PublicationError, QuarantineReconcileResolution};
use crate::publication_lifecycle::advancing;
use crate::publication_manifest::{manifest_key_of, manifest_next, manifest_position_fault,
    manifest_rows_halt, manifest_step, owned_row_halt, owned_rows_halt, preceding_row,
    stage_manifest_draft, stage_manifest_ready, StageManifestBatchRequest};
use crate::publication_plan::{asserting, empty_plan, failing, halted, keeps_halts,
    lemma_stepped_halt, live, stepped, Draft, OperationKind, PlanMutationView, PlanPredicateView,
    PlanView, PublicationContext, RowKeyView, StopView};
use crate::publication_records::first_fault;
use crate::publication_rule_laws::{one_object, one_upload};
use crate::publication_rules::{batch_cursor_fault, batch_size_fault, cleanup_update_fault,
    PublicationAuthorityPurpose};
use crate::publication_store::{bytes_of, current_operation_halt, manifest_row_halt,
    next_payload_halt, next_payload_of, publish_key, read_halt, staged_object_halt,
    staged_object_of, MetaShard, ScannedRow};
use crate::publication_sweeps::{cleanup_draft, cleanup_ready, cleanup_step, manifest_sweep_draft,
    manifest_sweep_fault, reconcile_draft, reconcile_ready, reconcile_step, scan_halt, scanned_rows,
    scanned_step, staged_sweep_fault, sweep_row, swept_next, swept_row_fault,
    CleanupPublishBatchRequest, ReconcileQuarantinedPublishBatchRequest};
use crate::publish_records::{Coded, ManifestPosition, ObjectCoordinates, PublishOperationRecord,
    PublishPhase, StagedCleanupState, StagedObjectRecord, StagedProviderState};
use crate::wire::{sized, start};
use vstd::prelude::*;

verus! {

/// What one step of a batch changes, what it expects of the row before, and
/// what it has checked.
spec fn step_adds(
    step: spec_fn(int, Draft) -> Draft,
    rows: Seq<PlanMutationView>,
    before: Seq<Option<Seq<u8>>>,
    checked: spec_fn(int) -> bool,
) -> bool {
    forall|i: int, draft: Draft|
        0 <= i < rows.len() ==> {
            let after = #[trigger] step(i, draft);
            &&& adds_rows(draft, after, seq![rows[i]])
            &&& after.halt is None ==> checked(i) && expects(after.plan, rows[i].key(), before[i])
                && after.plan.events == draft.plan.events
        }
}

proof fn lemma_steps_add(
    step: spec_fn(int, Draft) -> Draft,
    rows: Seq<PlanMutationView>,
    before: Seq<Option<Seq<u8>>>,
    checked: spec_fn(int) -> bool,
    n: nat,
    draft: Draft,
)
    requires
        step_adds(step, rows, before, checked),
        n <= rows.len(),
    ensures
        adds_rows(draft, stepped(step, n, draft), rows.take(n as int)),
        stepped(step, n, draft).halt is None ==> {
            &&& stepped(step, n, draft).plan.events == draft.plan.events
            &&& forall|i: int| 0 <= i < n ==> #[trigger] checked(i)
            &&& forall|i: int|
                0 <= i < n ==> expects(
                    stepped(step, n, draft).plan,
                    #[trigger] rows[i].key(),
                    before[i],
                )
        },
    decreases n,
{
    if n == 0 {
        assert(rows.take(0) =~= Seq::empty());
        assert(draft.plan.mutations + Seq::<PlanMutationView>::empty() =~= draft.plan.mutations);
    } else {
        let m = (n - 1) as nat;
        lemma_steps_add(step, rows, before, checked, m, draft);
        let mid = stepped(step, m, draft);
        let after = stepped(step, n, draft);
        assert(after == step(n - 1, mid));
        lemma_adds_trans(draft, mid, after, rows.take(m as int), seq![rows[n - 1]]);
        assert(rows.take(n as int) =~= rows.take(m as int) + seq![rows[n - 1]]);
        if after.halt is None {
            assert forall|i: int| 0 <= i < n implies expects(
                after.plan,
                #[trigger] rows[i].key(),
                before[i],
            ) by {
                if i < m {
                    lemma_expects_stays(mid, after, seq![rows[n - 1]], rows[i].key(), before[i]);
                }
            }
        }
    }
}

/// The row of an operation.
pub open spec fn operation_row(
    context: PublicationContext,
    operation: PublishOperationRecord,
) -> RowKeyView {
    RowKeyView::Operation {
        root_id: context.root_id,
        kind: OperationKind::Publish,
        operation_id: operation.operation_id,
    }
}

/// The row of a staged object.
pub open spec fn staged_row(
    context: PublicationContext,
    operation: PublishOperationRecord,
    sequence: int,
) -> RowKeyView {
    RowKeyView::StagedObject {
        root_id: context.root_id,
        operation_id: operation.operation_id,
        sequence: sequence as u64,
    }
}

/// The row of an artifact's manifest.
pub open spec fn manifest_row(
    context: PublicationContext,
    operation: PublishOperationRecord,
    index: int,
) -> RowKeyView {
    RowKeyView::ArtifactManifest {
        root_id: context.root_id,
        revision: operation.artifact_revision_id,
        object_index: index as u64,
    }
}

/// The change of an operation's row to its next form.
spec fn operation_change(
    store: MetaShard,
    context: PublicationContext,
    operation: PublishOperationRecord,
) -> PlanMutationView {
    PlanMutationView::Put {
        key: operation_row(context, operation),
        value: store.next_payload.unwrap().unwrap()@,
    }
}

proof fn lemma_advance_adds(
    store: MetaShard,
    context: PublicationContext,
    expected: Coded<PublishOperationRecord>,
    draft: Draft,
)
    ensures
        adds_rows(
            draft,
            advancing(store, context, expected, draft),
            seq![operation_change(store, context, expected.record)],
        ),
        advancing(store, context, expected, draft).halt is None ==> expects(
            advancing(store, context, expected, draft).plan,
            operation_row(context, expected.record),
            Some(payload_of(expected)),
        ) && advancing(store, context, expected, draft).plan.events == draft.plan.events,
{
    reveal(next_payload_of);
    lemma_replace_adds(
        draft,
        publish_key(context, expected.record),
        payload_of(expected),
        next_payload_of(store),
    );
}

/// The changes of a batch that stages objects.
spec fn staging_rows(
    context: PublicationContext,
    operation: PublishOperationRecord,
    rows: Seq<Coded<StagedObjectRecord>>,
) -> Seq<PlanMutationView> {
    Seq::new(
        rows.len(),
        |i: int|
            PlanMutationView::Put {
                key: staged_row(context, operation, rows[i].record.object_sequence as int),
                value: payload_of(rows[i]),
            },
    )
}

/// A batch that stages objects puts one new row for each of them, at the place
/// of the object, with the form that its codec gave it, and takes the
/// operation to its next form. It changes nothing else and tells nobody. Each
/// object is the next one of the operation, freshly planned.
pub proof fn staged_batches_add_their_objects(store: MetaShard, request: StageObjectsBatchRequest)
    requires
        stage_objects_draft(store, request).halt is None,
    ensures
        ({
            let plan = stage_objects_draft(store, request).plan;
            let context = request.context;
            let operation = request.expected_operation.record;
            let rows = request.staged_objects@;
            &&& operation.phase == PublishPhase::Uploading
            &&& 1 <= rows.len() <= 192
            &&& operation.staged_object_cursor + rows.len() <= operation.staged_object_count
            &&& expects(
                plan,
                operation_row(context, operation),
                Some(request.expected_operation.payload.unwrap()@),
            )
            &&& writes(
                plan,
                operation_row(context, operation),
                store.next_payload.unwrap().unwrap()@,
            )
            &&& plan.mutations.len() == rows.len() + 1
            &&& plan.events.len() == 0
            &&& forall|i: int|
                0 <= i < rows.len() ==> {
                    let object = (#[trigger] rows[i]).record;
                    let key = staged_row(context, operation, operation.staged_object_cursor + i);
                    &&& object.object_sequence == operation.staged_object_cursor + i
                    &&& object.artifact_revision_id == operation.artifact_revision_id
                    &&& object.provider_state == StagedProviderState::Planned
                    &&& object.cleanup_state == StagedCleanupState::Owned
                    &&& expects(plan, key, None)
                    &&& writes(plan, key, rows[i].payload.unwrap()@)
                }
        }),
{
    let context = request.context;
    let expected = request.expected_operation;
    let operation = expected.record;
    let rows = request.staged_objects@;
    let ready = stage_objects_ready(store, request);
    let advanced = advancing(store, context, expected, ready);
    let step = staging_step(context, operation, rows);
    let changes = staging_rows(context, operation, rows);
    let before = Seq::new(rows.len(), |i: int| None::<Seq<u8>>);
    let checked = |i: int| true;
    lemma_advance_adds(store, context, expected, ready);
    assert(step_adds(step, changes, before, checked)) by {
        assert forall|i: int, draft: Draft| 0 <= i < changes.len() implies {
            let after = #[trigger] step(i, draft);
            &&& adds_rows(draft, after, seq![changes[i]])
            &&& after.halt is None ==> checked(i) && expects(
                after.plan,
                changes[i].key(),
                before[i],
            ) && after.plan.events == draft.plan.events
        } by {
            lemma_put_adds(
                halted(draft, failing(payload_fault(rows[i]))),
                staged_key_of(context, operation, rows[i].record.object_sequence as int),
                payload_of(rows[i]),
            );
        }
    }
    lemma_steps_add(step, changes, before, checked, rows.len(), advanced);
    let staged = stepped(step, rows.len(), advanced);
    let draft = stage_objects_draft(store, request);
    lemma_sealed_adds(
        store,
        context,
        staged_next(operation, rows),
        PublicationAuthorityPurpose::Forward,
        staged,
    );
    assert(changes.take(rows.len() as int) =~= changes);
    assert(ready.plan.mutations =~= Seq::empty());
    let change = operation_change(store, context, operation);
    assert(draft.plan.mutations =~= seq![change] + changes);
    assert(draft.plan.mutations[0] == change);
    lemma_expects_stays(
        advanced,
        staged,
        changes,
        operation_row(context, operation),
        Some(payload_of(expected)),
    );
    lemma_expects_stays(
        staged,
        draft,
        Seq::empty(),
        operation_row(context, operation),
        Some(payload_of(expected)),
    );
    assert forall|i: int| 0 <= i < rows.len() implies {
        let object = (#[trigger] rows[i]).record;
        let key = staged_row(context, operation, operation.staged_object_cursor + i);
        &&& object.object_sequence == operation.staged_object_cursor + i
        &&& object.artifact_revision_id == operation.artifact_revision_id
        &&& object.provider_state == StagedProviderState::Planned
        &&& object.cleanup_state == StagedCleanupState::Owned
        &&& expects(draft.plan, key, None)
        &&& writes(draft.plan, key, rows[i].payload.unwrap()@)
    } by {
        lemma_fault_none(staged_row_fault(context, operation, rows), rows.len(), i);
        assert(expects(staged.plan, changes[i].key(), before[i]));
        lemma_expects_stays(staged, draft, Seq::empty(), changes[i].key(), None);
        assert(draft.plan.mutations[i + 1] == changes[i]);
    }
}

/// What a batch asks to be stored of its operation: the ledger's cursor moves
/// on by the staged objects, its rolling digest covers them, and nothing else
/// of the operation changes.
pub proof fn staged_batches_advance_the_ledger(
    store: MetaShard,
    request: StageObjectsBatchRequest,
    next: PublishOperationRecord,
)
    requires
        store.next_payload is None,
        stage_objects_draft(store, request).halt == Some(StopView::Encode { operation: next }),
    ensures
        ({
            let operation = request.expected_operation.record;
            let rows = request.staged_objects@;
            &&& next.staged_object_cursor == operation.staged_object_cursor + rows.len()
            &&& next.staged_object_rolling_digest@ == staged_digest_over(
                operation.staged_object_rolling_digest@,
                rows,
                rows.len(),
            )
            &&& next == (PublishOperationRecord {
                staged_object_cursor: next.staged_object_cursor,
                staged_object_rolling_digest: next.staged_object_rolling_digest,
                ..operation
            })
        }),
{
    let context = request.context;
    let expected = request.expected_operation;
    let operation = expected.record;
    let rows = request.staged_objects@;
    let ready = stage_objects_ready(store, request);
    let step = staging_step(context, operation, rows);
    reveal(next_payload_halt);
    assert(ready.halt is Some);
    assert(keeps_halts(step));
    lemma_stepped_halt(step, 0, rows.len(), advancing(store, context, expected, ready));
    lemma_authority_after_halt(
        store,
        context,
        staged_next(operation, rows),
        PublicationAuthorityPurpose::Forward,
        ready,
    );
    lemma_opening_asks_nothing(store, context, expected, PublishPhase::Uploading);
    lemma_staged_digest_is_one(operation.staged_object_rolling_digest, rows, rows.len());
}

/// Looking at an operation asks for rows only.
proof fn lemma_opening_asks_nothing(
    store: MetaShard,
    context: PublicationContext,
    expected: Coded<PublishOperationRecord>,
    phase: PublishPhase,
)
    ensures
        batch_opening_halt(store, context, expected, phase) matches Some(stop) ==> stop is Fail
            || stop is Read,
        current_operation_halt(store, context, expected) matches Some(stop) ==> stop is Fail
            || stop is Read,
{
    reveal(current_operation_halt);
    reveal(read_halt);
}

proof fn lemma_staged_digest_is_one(
    start: [u8; 32],
    rows: Seq<Coded<StagedObjectRecord>>,
    n: nat,
)
    ensures
        digest_array(staged_digest_over(start@, rows, n))@ == staged_digest_over(start@, rows, n),
{
    broadcast use lemma_sha256_array;

    lemma_digest_array(start);
}

broadcast proof fn lemma_sha256_array(data: Seq<u8>)
    ensures
        #[trigger] digest_array(sha256_of(data))@ == sha256_of(data),
{
    lemma_digest_array(sha256_digest(data));
}

/// The changes of a batch that confirms uploads.
spec fn upload_rows(
    context: PublicationContext,
    operation: PublishOperationRecord,
    updates: Seq<StagedObjectUpdate>,
) -> Seq<PlanMutationView> {
    Seq::new(
        updates.len(),
        |i: int|
            PlanMutationView::Put {
                key: staged_row(context, operation, operation.uploaded_object_cursor + i),
                value: payload_of(updates[i].next),
            },
    )
}

/// A batch that confirms uploads replaces the row of each object by its
/// uploaded form, where the row is the one that the caller has seen, and takes
/// the operation to its next form. It changes nothing else and tells nobody.
/// Each object is the next one that is staged and not confirmed, and is left
/// uploaded and owned.
pub proof fn upload_batches_confirm_their_objects(
    store: MetaShard,
    request: MarkObjectsUploadedBatchRequest,
)
    requires
        mark_uploaded_draft(store, request).halt is None,
    ensures
        ({
            let plan = mark_uploaded_draft(store, request).plan;
            let context = request.context;
            let operation = request.expected_operation.record;
            let updates = request.staged_object_updates@;
            &&& operation.phase == PublishPhase::Uploading
            &&& 1 <= updates.len() <= 192
            &&& operation.uploaded_object_cursor + updates.len() <= operation.staged_object_cursor
            &&& expects(
                plan,
                operation_row(context, operation),
                Some(request.expected_operation.payload.unwrap()@),
            )
            &&& writes(
                plan,
                operation_row(context, operation),
                store.next_payload.unwrap().unwrap()@,
            )
            &&& plan.mutations.len() == updates.len() + 1
            &&& plan.events.len() == 0
            &&& forall|i: int|
                0 <= i < updates.len() ==> {
                    let (a, b) = ((#[trigger] updates[i]).expected.record, updates[i].next.record);
                    let key = staged_row(context, operation, operation.uploaded_object_cursor + i);
                    &&& one_object(a, b)
                    &&& a.object_sequence == operation.uploaded_object_cursor + i
                    &&& a.artifact_revision_id == operation.artifact_revision_id
                    &&& b.provider_state == StagedProviderState::Uploaded
                    &&& b.cleanup_state == StagedCleanupState::Owned
                    &&& expects(plan, key, Some(updates[i].expected.payload.unwrap()@))
                    &&& writes(plan, key, updates[i].next.payload.unwrap()@)
                }
        }),
{
    let context = request.context;
    let expected = request.expected_operation;
    let operation = expected.record;
    let updates = request.staged_object_updates@;
    let opened = halted(
        live(empty_plan()),
        first_fault(
            batch_opening_halt(store, context, expected, PublishPhase::Uploading),
            failing(
                first_fault(
                    batch_size_fault("mark objects uploaded", updates.len()),
                    batch_cursor_fault(
                        "mark objects uploaded",
                        operation.uploaded_object_cursor,
                        updates.len(),
                        operation.staged_object_cursor,
                    ),
                ),
            ),
        ),
    );
    let step = upload_step(context, operation, updates);
    let changes = upload_rows(context, operation, updates);
    let before = Seq::new(updates.len(), |i: int| Some(payload_of(updates[i].expected)));
    let checked = |i: int| upload_fault(operation, updates)(i) is None;
    assert(step_adds(step, changes, before, checked)) by {
        assert forall|i: int, draft: Draft| 0 <= i < changes.len() implies {
            let after = #[trigger] step(i, draft);
            &&& adds_rows(draft, after, seq![changes[i]])
            &&& after.halt is None ==> checked(i) && expects(
                after.plan,
                changes[i].key(),
                before[i],
            ) && after.plan.events == draft.plan.events
        } by {
            lemma_replace_adds(
                halted(draft, failing(upload_fault(operation, updates)(i))),
                staged_key_of(context, operation, operation.uploaded_object_cursor + i),
                payload_of(updates[i].expected),
                payload_of(updates[i].next),
            );
        }
    }
    let n = updates.len();
    lemma_steps_add(step, changes, before, checked, n, opened);
    let confirmed = stepped(step, n, opened);
    let ready = mark_uploaded_ready(store, request);
    let advanced = advancing(store, context, expected, ready);
    let draft = mark_uploaded_draft(store, request);
    lemma_advance_adds(store, context, expected, ready);
    lemma_sealed_adds(
        store,
        context,
        uploaded_next(operation, updates),
        PublicationAuthorityPurpose::Forward,
        advanced,
    );
    assert(changes.take(n as int) =~= changes);
    assert(opened.plan.mutations =~= Seq::empty());
    let change = operation_change(store, context, operation);
    assert(draft.plan.mutations =~= changes + seq![change]);
    assert(draft.plan.mutations[n as int] == change);
    lemma_expects_stays(
        advanced,
        draft,
        Seq::empty(),
        operation_row(context, operation),
        Some(payload_of(expected)),
    );
    assert forall|i: int| 0 <= i < updates.len() implies {
        let (a, b) = ((#[trigger] updates[i]).expected.record, updates[i].next.record);
        let key = staged_row(context, operation, operation.uploaded_object_cursor + i);
        &&& one_object(a, b)
        &&& a.object_sequence == operation.uploaded_object_cursor + i
        &&& a.artifact_revision_id == operation.artifact_revision_id
        &&& b.provider_state == StagedProviderState::Uploaded
        &&& b.cleanup_state == StagedCleanupState::Owned
        &&& expects(draft.plan, key, Some(updates[i].expected.payload.unwrap()@))
        &&& writes(draft.plan, key, updates[i].next.payload.unwrap()@)
    } by {
        assert(checked(i));
        assert(expects(confirmed.plan, changes[i].key(), before[i]));
        lemma_expects_stays(ready, advanced, seq![change], changes[i].key(), before[i]);
        lemma_expects_stays(advanced, draft, Seq::empty(), changes[i].key(), before[i]);
        assert(draft.plan.mutations[i] == changes[i]);
    }
}

/// What a batch of confirmations asks to be stored of its operation: the
/// cursor of uploads moves on by the confirmed objects, its rolling digest
/// covers them, and nothing else of the operation changes.
pub proof fn upload_batches_advance_the_cursor(
    store: MetaShard,
    request: MarkObjectsUploadedBatchRequest,
    next: PublishOperationRecord,
)
    requires
        store.next_payload is None,
        mark_uploaded_draft(store, request).halt == Some(StopView::Encode { operation: next }),
    ensures
        ({
            let operation = request.expected_operation.record;
            let updates = request.staged_object_updates@;
            &&& next.uploaded_object_cursor == operation.uploaded_object_cursor + updates.len()
            &&& next.uploaded_object_rolling_digest@ == staged_digest_over(
                operation.uploaded_object_rolling_digest@,
                Seq::new(updates.len(), |i: int| updates[i].next),
                updates.len(),
            )
            &&& next == (PublishOperationRecord {
                uploaded_object_cursor: next.uploaded_object_cursor,
                uploaded_object_rolling_digest: next.uploaded_object_rolling_digest,
                ..operation
            })
        }),
{
    let context = request.context;
    let expected = request.expected_operation;
    let operation = expected.record;
    let updates = request.staged_object_updates@;
    let ready = mark_uploaded_ready(store, request);
    let step = upload_step(context, operation, updates);
    reveal(next_payload_halt);
    assert(ready.halt is Some);
    lemma_authority_after_halt(
        store,
        context,
        uploaded_next(operation, updates),
        PublicationAuthorityPurpose::Forward,
        ready,
    );
    lemma_opening_asks_nothing(store, context, expected, PublishPhase::Uploading);
    let opened = halted(
        live(empty_plan()),
        first_fault(
            batch_opening_halt(store, context, expected, PublishPhase::Uploading),
            failing(
                first_fault(
                    batch_size_fault("mark objects uploaded", updates.len()),
                    batch_cursor_fault(
                        "mark objects uploaded",
                        operation.uploaded_object_cursor,
                        updates.len(),
                        operation.staged_object_cursor,
                    ),
                ),
            ),
        ),
    );
    assert(asks_nothing(opened));
    assert(step_asks_nothing(step));
    lemma_steps_ask_nothing(step, updates.len(), opened);
    assert(keeps_halts(step));
    if opened.halt is Some {
        lemma_stepped_halt(step, 0, updates.len(), opened);
    }
    assert(next_rows(updates) =~= Seq::new(updates.len(), |i: int| updates[i].next));
    lemma_staged_digest_is_one(
        operation.uploaded_object_rolling_digest,
        next_rows(updates),
        updates.len(),
    );
}

/// Whether a draft has stopped, if at all, with a failure or for a row.
pub open spec fn asks_nothing(draft: Draft) -> bool {
    draft.halt matches Some(stop) ==> stop is Fail || stop is Read
}

spec fn step_asks_nothing(step: spec_fn(int, Draft) -> Draft) -> bool {
    forall|i: int, draft: Draft| asks_nothing(draft) ==> asks_nothing(#[trigger] step(i, draft))
}

proof fn lemma_steps_ask_nothing(step: spec_fn(int, Draft) -> Draft, n: nat, draft: Draft)
    requires
        step_asks_nothing(step),
        asks_nothing(draft),
    ensures
        asks_nothing(stepped(step, n, draft)),
    decreases n,
{
    if n > 0 {
        lemma_steps_ask_nothing(step, (n - 1) as nat, draft);
    }
}

/// The changes of a batch that stages manifest rows.
spec fn manifest_changes(
    context: PublicationContext,
    operation: PublishOperationRecord,
    rows: Seq<ManifestRowInput>,
) -> Seq<PlanMutationView> {
    Seq::new(
        rows.len(),
        |i: int|
            PlanMutationView::Put {
                key: manifest_row(context, operation, rows[i].object_index as int),
                value: payload_of(rows[i].row),
            },
    )
}

/// A batch of manifest rows puts one new row for each of them, at the next
/// places of the manifest, while there is no such revision yet, and takes the
/// operation to its next form. It changes nothing else and tells nobody. It
/// comes after every planned object is staged and uploaded as sealed, with the
/// sealed dependencies, and its rows follow each other and the ones before
/// without a gap; each stands behind an object of the operation's own or of a
/// dependency, whole and under its canonical key.
pub proof fn manifest_batches_add_their_rows(store: MetaShard, request: StageManifestBatchRequest)
    requires
        stage_manifest_draft(store, request).halt is None,
    ensures
        ({
            let plan = stage_manifest_draft(store, request).plan;
            let context = request.context;
            let operation = request.expected_operation.record;
            let rows = request.manifest_rows@;
            &&& operation.phase == PublishPhase::Uploading
            &&& 1 <= rows.len() <= 192
            &&& operation.manifest_cursor + rows.len() <= operation.manifest_row_count
            &&& operation.staged_object_cursor == operation.staged_object_count
            &&& operation.uploaded_object_cursor == operation.staged_object_count
            &&& operation.staged_object_rolling_digest@ == operation.staged_object_seal@
            &&& operation.uploaded_object_rolling_digest@ == operation.staged_object_seal@
            &&& dependency_digest_of(request.dependency_owner_revision_ids@)
                == operation.dependency_digest@
            &&& expects(
                plan,
                operation_row(context, operation),
                Some(request.expected_operation.payload.unwrap()@),
            )
            &&& expects(
                plan,
                RowKeyView::ArtifactRevision {
                    root_id: context.root_id,
                    revision: operation.artifact_revision_id,
                },
                None,
            )
            &&& writes(
                plan,
                operation_row(context, operation),
                store.next_payload.unwrap().unwrap()@,
            )
            &&& plan.mutations.len() == rows.len() + 1
            &&& plan.events.len() == 0
            &&& forall|i: int|
                0 <= i < rows.len() ==> {
                    let row = (#[trigger] rows[i]).row.record;
                    let key = manifest_row(context, operation, operation.manifest_cursor + i);
                    &&& rows[i].object_index == operation.manifest_cursor + i
                    &&& expects(plan, key, None)
                    &&& writes(plan, key, rows[i].row.payload.unwrap()@)
                    &&& row.offset == 0
                    &&& row.object_key.coordinates == Some(
                        ObjectCoordinates {
                            logical_shard_id: context.logical_shard_id,
                            root_id: context.root_id,
                            artifact_revision_id: row.physical_owner_revision_id,
                            object_index: row.physical_object_index,
                        },
                    )
                    &&& ({
                        ||| row.physical_owner_revision_id == operation.artifact_revision_id
                        ||| request.dependency_owner_revision_ids@.contains(
                            row.physical_owner_revision_id,
                        )
                    })
                }
        }),
{
    let context = request.context;
    let expected = request.expected_operation;
    let operation = expected.record;
    let rows = request.manifest_rows@;
    let owners = request.dependency_owner_revision_ids@;
    let ready = stage_manifest_ready(store, request);
    let advanced = advancing(store, context, expected, ready);
    let revision_row = revision_key_of(context, operation.artifact_revision_id);
    let pinned = asserting(advanced, revision_row, None);
    let step = manifest_step(context, operation, rows);
    let changes = manifest_changes(context, operation, rows);
    let before = Seq::new(rows.len(), |i: int| None::<Seq<u8>>);
    let checked = |i: int| true;
    lemma_advance_adds(store, context, expected, ready);
    lemma_assert_adds(advanced, revision_row, None);
    assert(step_adds(step, changes, before, checked)) by {
        assert forall|i: int, draft: Draft| 0 <= i < changes.len() implies {
            let after = #[trigger] step(i, draft);
            &&& adds_rows(draft, after, seq![changes[i]])
            &&& after.halt is None ==> checked(i) && expects(
                after.plan,
                changes[i].key(),
                before[i],
            ) && after.plan.events == draft.plan.events
        } by {
            lemma_put_adds(
                halted(draft, failing(payload_fault(rows[i].row))),
                manifest_key_of(context, operation, rows[i].object_index),
                payload_of(rows[i].row),
            );
        }
    }
    lemma_steps_add(step, changes, before, checked, rows.len(), pinned);
    let staged = stepped(step, rows.len(), pinned);
    let draft = stage_manifest_draft(store, request);
    lemma_sealed_adds(
        store,
        context,
        manifest_next(operation, rows),
        PublicationAuthorityPurpose::Forward,
        staged,
    );
    assert(changes.take(rows.len() as int) =~= changes);
    assert(ready.plan.mutations =~= Seq::empty());
    let change = operation_change(store, context, operation);
    assert(draft.plan.mutations =~= seq![change] + changes);
    assert(draft.plan.mutations[0] == change);
    assert(pinned.plan.predicates.last() == PlanPredicateView::Value {
        key: revision_row,
        expected: None,
    });
    lemma_expects_stays(pinned, staged, changes, revision_row, None);
    lemma_expects_stays(staged, draft, Seq::empty(), revision_row, None);
    let own = operation_row(context, operation);
    let stored = Some(payload_of(expected));
    lemma_expects_stays(advanced, pinned, Seq::empty(), own, stored);
    lemma_expects_stays(pinned, staged, changes, own, stored);
    lemma_expects_stays(staged, draft, Seq::empty(), own, stored);
    assert forall|i: int| 0 <= i < rows.len() implies {
        let row = (#[trigger] rows[i]).row.record;
        let key = manifest_row(context, operation, operation.manifest_cursor + i);
        &&& rows[i].object_index == operation.manifest_cursor + i
        &&& expects(draft.plan, key, None)
        &&& writes(draft.plan, key, rows[i].row.payload.unwrap()@)
        &&& row.offset == 0
        &&& row.object_key.coordinates == Some(
            ObjectCoordinates {
                logical_shard_id: context.logical_shard_id,
                root_id: context.root_id,
                artifact_revision_id: row.physical_owner_revision_id,
                object_index: row.physical_object_index,
            },
        )
        &&& row.physical_owner_revision_id == operation.artifact_revision_id || owners.contains(
            row.physical_owner_revision_id,
        )
    } by {
        lemma_fault_none(manifest_position_fault(context, operation, rows), rows.len(), i);
        lemma_fault_none(
            owned_rows_halt(
                store,
                context,
                operation,
                owners,
                preceding_row(store, context, operation),
                rows,
            ),
            rows.len(),
            i,
        );
        reveal(owned_row_halt);
        assert(expects(staged.plan, changes[i].key(), before[i]));
        lemma_expects_stays(staged, draft, Seq::empty(), changes[i].key(), None);
        assert(draft.plan.mutations[i + 1] == changes[i]);
    }
}

/// What a batch of manifest rows asks to be stored of its operation: the
/// cursor moves on by the rows, the last position is the last row's, the
/// rolling digest covers them, and nothing else of the operation changes.
pub proof fn manifest_batches_advance_the_cursor(
    store: MetaShard,
    request: StageManifestBatchRequest,
    next: PublishOperationRecord,
)
    requires
        store.next_payload is None,
        stage_manifest_draft(store, request).halt == Some(StopView::Encode { operation: next }),
    ensures
        ({
            let operation = request.expected_operation.record;
            let rows = request.manifest_rows@;
            &&& next.manifest_cursor == operation.manifest_cursor + rows.len()
            &&& next.manifest_last_position == Some(
                ManifestPosition {
                    object_index: (operation.manifest_cursor + rows.len() - 1) as u64,
                },
            )
            &&& next.manifest_rolling_digest@ == manifest_digest_over(
                operation.manifest_rolling_digest@,
                rows,
                rows.len(),
            )
            &&& next == (PublishOperationRecord {
                manifest_cursor: next.manifest_cursor,
                manifest_last_position: next.manifest_last_position,
                manifest_rolling_digest: next.manifest_rolling_digest,
                ..operation
            })
        }),
{
    let context = request.context;
    let expected = request.expected_operation;
    let operation = expected.record;
    let rows = request.manifest_rows@;
    let ready = stage_manifest_ready(store, request);
    let step = manifest_step(context, operation, rows);
    reveal(next_payload_halt);
    assert(ready.halt is Some);
    assert(keeps_halts(step));
    let pinned = asserting(
        advancing(store, context, expected, ready),
        revision_key_of(context, operation.artifact_revision_id),
        None,
    );
    assert(pinned == ready);
    lemma_stepped_halt(step, 0, rows.len(), pinned);
    lemma_authority_after_halt(
        store,
        context,
        manifest_next(operation, rows),
        PublicationAuthorityPurpose::Forward,
        ready,
    );
    lemma_opening_asks_nothing(store, context, expected, PublishPhase::Uploading);
    lemma_manifest_asks_nothing(store, request);
    lemma_fault_none(
        manifest_position_fault(context, operation, rows),
        rows.len(),
        rows.len() - 1,
    );
    lemma_manifest_digest_is_one(operation.manifest_rolling_digest, rows, rows.len());
}

proof fn lemma_manifest_asks_nothing(store: MetaShard, request: StageManifestBatchRequest)
    ensures
        manifest_rows_halt(store, request) matches Some(stop) ==> stop is Fail || stop is Read,
{
    let context = request.context;
    let operation = request.expected_operation.record;
    let rows = request.manifest_rows@;
    let owners = request.dependency_owner_revision_ids@;
    let preceding = preceding_row(store, context, operation);
    let g = owned_rows_halt(store, context, operation, owners, preceding, rows);
    reveal(manifest_row_halt);
    reveal(read_halt);
    assert forall|i: int| (#[trigger] g(i)) is Some implies g(i).unwrap() is Fail || g(
        i,
    ).unwrap() is Read by {
        reveal(owned_row_halt);
        reveal(staged_object_halt);
    }
    lemma_first_stop_is_plain(g, rows.len());
}

proof fn lemma_first_stop_is_plain(g: spec_fn(int) -> Option<StopView>, n: nat)
    requires
        forall|i: int|
            (#[trigger] g(i)) is Some ==> g(i).unwrap() is Fail || g(i).unwrap() is Read,
    ensures
        fault_upto(g, n) matches Some(stop) ==> stop is Fail || stop is Read,
    decreases n,
{
    if n > 0 {
        lemma_first_stop_is_plain(g, (n - 1) as nat);
        assert(g(n - 1) is Some ==> g(n - 1).unwrap() is Fail || g(n - 1).unwrap() is Read);
    }
}

proof fn lemma_manifest_digest_is_one(start: [u8; 32], rows: Seq<ManifestRowInput>, n: nat)
    ensures
        digest_array(manifest_digest_over(start@, rows, n))@ == manifest_digest_over(
            start@,
            rows,
            n,
        ),
{
    broadcast use lemma_sha256_array;

    lemma_digest_array(start);
}

/// A manifest row that stands behind an object of the operation's own shows
/// the next staged object, from the first on, as it was staged and uploaded:
/// the same key, length and digest. Rows of the operation's own come after all
/// borrowed ones, and a finished manifest shows every staged object.
pub proof fn manifests_show_what_was_staged(
    store: MetaShard,
    request: StageManifestBatchRequest,
    i: int,
)
    requires
        stage_manifest_draft(store, request).halt is None,
        0 <= i < request.manifest_rows@.len(),
    ensures
        ({
            let context = request.context;
            let operation = request.expected_operation.record;
            let rows = request.manifest_rows@;
            let row = rows[i].row.record;
            let own = row.physical_owner_revision_id == operation.artifact_revision_id;
            let staged = staged_object_of(
                store,
                context.read_version,
                staged_row(context, operation, row.physical_object_index as int),
            );
            &&& own ==> {
                &&& staged is Some
                &&& staged.unwrap().artifact_revision_id == operation.artifact_revision_id
                &&& staged.unwrap().object_sequence == row.physical_object_index
                &&& staged.unwrap().object_key.text@ == row.object_key.text@
                &&& staged.unwrap().expected_length == row.length
                &&& staged.unwrap().expected_digest_uri@ == row.digest_uri@
                &&& staged.unwrap().provider_state == StagedProviderState::Uploaded
                &&& staged.unwrap().cleanup_state == StagedCleanupState::Owned
                &&& row.physical_object_index < operation.staged_object_count
            }
            &&& i > 0 ==> {
                let previous = rows[i - 1].row.record;
                let owned = previous.physical_owner_revision_id == operation.artifact_revision_id;
                &&& owned ==> own && row.physical_object_index == previous.physical_object_index
                    + 1
                &&& own && !owned ==> row.physical_object_index == 0
            }
            &&& i == rows.len() - 1 && operation.manifest_cursor + rows.len()
                == operation.manifest_row_count ==> operation.staged_object_count == (if own {
                row.physical_object_index + 1
            } else {
                0
            })
        }),
{
    let context = request.context;
    let expected = request.expected_operation;
    let operation = expected.record;
    let rows = request.manifest_rows@;
    let owners = request.dependency_owner_revision_ids@;
    let ready = stage_manifest_ready(store, request);
    let advanced = advancing(store, context, expected, ready);
    let revision_row = revision_key_of(context, operation.artifact_revision_id);
    let pinned = asserting(advanced, revision_row, None);
    let step = manifest_step(context, operation, rows);
    let staged = stepped(step, rows.len(), pinned);
    assert(keeps_halts(step));
    if staged.halt is Some {
        lemma_authority_after_halt(
            store,
            context,
            manifest_next(operation, rows),
            PublicationAuthorityPurpose::Forward,
            staged,
        );
    }
    if pinned.halt is Some {
        lemma_stepped_halt(step, 0, rows.len(), pinned);
    }
    assert(ready.halt is None);
    lemma_fault_none(
        owned_rows_halt(
            store,
            context,
            operation,
            owners,
            preceding_row(store, context, operation),
            rows,
        ),
        rows.len(),
        i,
    );
    reveal(owned_row_halt);
    assert(rows.last() == rows[rows.len() - 1]);
}

/// The changes of a cleanup of staged rows.
spec fn sweep_rows(
    context: PublicationContext,
    operation: PublishOperationRecord,
    n: nat,
) -> Seq<PlanMutationView> {
    Seq::new(
        n,
        |i: int|
            PlanMutationView::Delete {
                key: staged_row(context, operation, operation.cleanup_staged_object_cursor + i),
            },
    )
}

/// A staged row is removed only under proof that its object is gone: where a
/// cleanup page of staged rows is planned, each of its updates is about the
/// very object and upload of the row that is removed, which is the next one to
/// remove, and ends with the object aborted and deleted. The command expects
/// the rows as the caller has seen them, removes them and takes the operation
/// to its next form; it changes nothing else.
pub proof fn cleanups_remove_rows_of_gone_objects(
    store: MetaShard,
    request: CleanupPublishBatchRequest,
)
    requires
        cleanup_draft(store, request).halt is None,
        request.expected_operation.record.cleanup_staged_object_cursor
            < request.expected_operation.record.staged_object_cursor,
    ensures
        ({
            let plan = cleanup_draft(store, request).plan;
            let context = request.context;
            let operation = request.expected_operation.record;
            let updates = request.staged_object_updates@;
            &&& operation.phase == PublishPhase::Cleaning
            &&& 1 <= updates.len() <= 192
            &&& operation.cleanup_staged_object_cursor + updates.len()
                <= operation.staged_object_cursor
            &&& writes(
                plan,
                operation_row(context, operation),
                store.next_payload.unwrap().unwrap()@,
            )
            &&& plan.mutations.len() == updates.len() + 1
            &&& plan.events.len() == 0
            &&& forall|i: int|
                0 <= i < updates.len() ==> {
                    let (a, b) = ((#[trigger] updates[i]).expected.record, updates[i].next.record);
                    let key = staged_row(
                        context,
                        operation,
                        operation.cleanup_staged_object_cursor + i,
                    );
                    &&& one_object(a, b)
                    &&& one_upload(a, b)
                    &&& a.object_sequence == operation.cleanup_staged_object_cursor + i
                    &&& a.artifact_revision_id == operation.artifact_revision_id
                    &&& b.provider_state == StagedProviderState::Aborted
                    &&& b.cleanup_state == StagedCleanupState::Deleted
                    &&& expects(plan, key, Some(updates[i].expected.payload.unwrap()@))
                    &&& removes(plan, key)
                }
        }),
{
    let context = request.context;
    let expected = request.expected_operation;
    let operation = expected.record;
    let updates = request.staged_object_updates@;
    let n = updates.len();
    let opened = halted(
        live(empty_plan()),
        batch_opening_halt(store, context, expected, PublishPhase::Cleaning),
    );
    let sized = halted(
        opened,
        failing(staged_sweep_fault("cleanup staged objects", operation, n)),
    );
    let step = cleanup_step(context, operation, updates);
    let changes = sweep_rows(context, operation, n);
    let before = Seq::new(n, |i: int| Some(payload_of(updates[i].expected)));
    let checked = |i: int|
        {
            &&& cleanup_update_fault(updates[i].expected, updates[i].next) is None
            &&& swept_row_fault(operation, updates[i].expected.record, i) is None
        };
    assert(step_adds(step, changes, before, checked)) by {
        assert forall|i: int, draft: Draft| 0 <= i < changes.len() implies {
            let after = #[trigger] step(i, draft);
            &&& adds_rows(draft, after, seq![changes[i]])
            &&& after.halt is None ==> checked(i) && expects(
                after.plan,
                changes[i].key(),
                before[i],
            ) && after.plan.events == draft.plan.events
        } by {
            lemma_sweep_adds(
                context,
                operation,
                updates[i].expected,
                cleanup_update_fault(updates[i].expected, updates[i].next),
                i,
                draft,
            );
        }
    }
    lemma_steps_add(step, changes, before, checked, n, sized);
    let swept = stepped(step, n, sized);
    let ready = cleanup_ready(store, request);
    let advanced = advancing(store, context, expected, ready);
    let draft = cleanup_draft(store, request);
    lemma_advance_adds(store, context, expected, ready);
    lemma_sealed_adds(
        store,
        context,
        swept_next(store, operation, n),
        PublicationAuthorityPurpose::Cleanup,
        advanced,
    );
    assert(changes.take(n as int) =~= changes);
    assert(opened.plan.mutations =~= Seq::empty());
    let change = operation_change(store, context, operation);
    assert(draft.plan.mutations =~= changes + seq![change]);
    assert(draft.plan.mutations[n as int] == change);
    assert forall|i: int| 0 <= i < updates.len() implies {
        let (a, b) = ((#[trigger] updates[i]).expected.record, updates[i].next.record);
        let key = staged_row(context, operation, operation.cleanup_staged_object_cursor + i);
        &&& one_object(a, b)
        &&& one_upload(a, b)
        &&& a.object_sequence == operation.cleanup_staged_object_cursor + i
        &&& a.artifact_revision_id == operation.artifact_revision_id
        &&& b.provider_state == StagedProviderState::Aborted
        &&& b.cleanup_state == StagedCleanupState::Deleted
        &&& expects(draft.plan, key, Some(updates[i].expected.payload.unwrap()@))
        &&& removes(draft.plan, key)
    } by {
        assert(checked(i));
        assert(expects(swept.plan, changes[i].key(), before[i]));
        lemma_expects_stays(ready, advanced, seq![change], changes[i].key(), before[i]);
        lemma_expects_stays(advanced, draft, Seq::empty(), changes[i].key(), before[i]);
        assert(draft.plan.mutations[i] == changes[i]);
    }
}

proof fn lemma_sweep_adds(
    context: PublicationContext,
    operation: PublishOperationRecord,
    row: Coded<StagedObjectRecord>,
    fault: Option<PublicationError>,
    i: int,
    draft: Draft,
)
    ensures
        ({
            let key = staged_row(context, operation, operation.cleanup_staged_object_cursor + i);
            let after = sweep_row(context, operation, row, fault, i, draft);
            &&& adds_rows(draft, after, seq![PlanMutationView::Delete { key }])
            &&& after.halt is None ==> {
                &&& fault is None
                &&& swept_row_fault(operation, row.record, i) is None
                &&& expects(after.plan, key, Some(payload_of(row)))
                &&& after.plan.events == draft.plan.events
            }
        }),
{
    let checked = halted(
        draft,
        failing(
            first_fault(
                fault,
                first_fault(swept_row_fault(operation, row.record, i), payload_fault(row)),
            ),
        ),
    );
    let key = staged_key_of(context, operation, operation.cleanup_staged_object_cursor + i);
    lemma_delete_adds(checked, key, payload_of(row));
}

/// The changes of a page of manifest rows that a scan has found.
spec fn scanned_changes(rows: Seq<ScannedRow>) -> Seq<PlanMutationView> {
    Seq::new(
        rows.len(),
        |i: int|
            PlanMutationView::Delete {
                key: RowKeyView::Raw {
                    family: MetadataFamily::ArtifactManifest,
                    key: rows[i].key@,
                },
            },
    )
}

proof fn lemma_scan_adds(rows: Seq<ScannedRow>, draft: Draft)
    ensures
        adds_rows(draft, stepped(scanned_step(rows), rows.len(), draft), scanned_changes(rows)),
        stepped(scanned_step(rows), rows.len(), draft).halt is None ==> {
            &&& stepped(scanned_step(rows), rows.len(), draft).plan.events == draft.plan.events
            &&& forall|i: int|
                0 <= i < rows.len() ==> expects(
                    stepped(scanned_step(rows), rows.len(), draft).plan,
                    #[trigger] scanned_changes(rows)[i].key(),
                    Some(rows[i].value@),
                )
        },
{
    let step = scanned_step(rows);
    let changes = scanned_changes(rows);
    let before = Seq::new(rows.len(), |i: int| Some(rows[i].value@));
    let checked = |i: int| true;
    assert(step_adds(step, changes, before, checked)) by {
        assert forall|i: int, d: Draft| 0 <= i < changes.len() implies {
            let after = #[trigger] step(i, d);
            &&& adds_rows(d, after, seq![changes[i]])
            &&& after.halt is None ==> checked(i) && expects(
                after.plan,
                changes[i].key(),
                before[i],
            ) && after.plan.events == d.plan.events
        } by {
            lemma_delete_adds(
                d,
                RowKeyView::Raw { family: MetadataFamily::ArtifactManifest, key: rows[i].key@ },
                rows[i].value@,
            );
        }
    }
    lemma_steps_add(step, changes, before, checked, rows.len(), draft);
    assert(changes.take(rows.len() as int) =~= changes);
    let after = stepped(step, rows.len(), draft);
    if after.halt is None {
        assert forall|i: int| 0 <= i < rows.len() implies expects(
            after.plan,
            #[trigger] changes[i].key(),
            Some(rows[i].value@),
        ) by {
            assert(expects(after.plan, changes[i].key(), before[i]));
        }
    }
}

/// Whether a plan removes exactly the manifest rows that a scan has found, as
/// they were found, and takes the operation to its next form.
pub open spec fn removes_scanned_rows(
    plan: PlanView,
    store: MetaShard,
    context: PublicationContext,
    operation: PublishOperationRecord,
) -> bool {
    let rows = store.scanned.unwrap().unwrap()@;
    &&& rows.len() > 0
    &&& plan.mutations.len() == rows.len() + 1
    &&& plan.events.len() == 0
    &&& writes(plan, operation_row(context, operation), store.next_payload.unwrap().unwrap()@)
    &&& forall|i: int|
        0 <= i < rows.len() ==> {
            let key = RowKeyView::Raw {
                family: MetadataFamily::ArtifactManifest,
                key: (#[trigger] rows[i]).key@,
            };
            expects(plan, key, Some(rows[i].value@)) && removes(plan, key)
        }
}

proof fn lemma_scanned_plan(
    store: MetaShard,
    context: PublicationContext,
    expected: Coded<PublishOperationRecord>,
    opened: Draft,
    scanned: Draft,
    ready: Draft,
    draft: Draft,
)
    requires
        opened.plan.mutations.len() == 0,
        opened.plan.events.len() == 0,
        scanned == stepped(scanned_step(scanned_rows(store)), scanned_rows(store).len(), opened),
        ready.halt is None ==> ready == scanned,
        scanned_rows(store).len() > 0,
        adds_rows(advancing(store, context, expected, ready), draft, Seq::empty()),
        draft.halt is None,
        draft.plan.events == ready.plan.events,
    ensures
        removes_scanned_rows(draft.plan, store, context, expected.record),
{
    let rows = scanned_rows(store);
    let changes = scanned_changes(rows);
    let advanced = advancing(store, context, expected, ready);
    lemma_scan_adds(rows, opened);
    lemma_advance_adds(store, context, expected, ready);
    let change = operation_change(store, context, expected.record);
    assert(draft.plan.mutations =~= changes + seq![change]);
    assert(draft.plan.mutations[rows.len() as int] == change);
    assert forall|i: int| 0 <= i < rows.len() implies {
        let key = RowKeyView::Raw {
            family: MetadataFamily::ArtifactManifest,
            key: (#[trigger] rows[i]).key@,
        };
        expects(draft.plan, key, Some(rows[i].value@)) && removes(draft.plan, key)
    } by {
        let key = changes[i].key();
        let found = Some(rows[i].value@);
        assert(expects(scanned.plan, changes[i].key(), found));
        lemma_expects_stays(ready, advanced, seq![change], key, found);
        lemma_expects_stays(advanced, draft, Seq::empty(), key, found);
        assert(draft.plan.mutations[i] == changes[i]);
    }
}

/// Once every staged row is removed, a cleanup removes manifest rows: the ones
/// that the scan of the operation's own revision has found, while some are
/// left to remove, and no staged row comes along.
pub proof fn cleanups_then_remove_manifest_rows(
    store: MetaShard,
    request: CleanupPublishBatchRequest,
)
    requires
        cleanup_draft(store, request).halt is None,
        request.expected_operation.record.cleanup_staged_object_cursor
            >= request.expected_operation.record.staged_object_cursor,
    ensures
        request.expected_operation.record.phase == PublishPhase::Cleaning,
        request.staged_object_updates@.len() == 0,
        request.expected_operation.record.cleanup_manifest_cursor
            != request.expected_operation.record.manifest_cursor,
        removes_scanned_rows(
            cleanup_draft(store, request).plan,
            store,
            request.context,
            request.expected_operation.record,
        ),
{
    let context = request.context;
    let expected = request.expected_operation;
    let operation = expected.record;
    let n = request.staged_object_updates@.len();
    let opened = halted(
        live(empty_plan()),
        batch_opening_halt(store, context, expected, PublishPhase::Cleaning),
    );
    let fault = manifest_sweep_fault(
        "cleanup staged objects",
        "cleanup manifest",
        operation,
        n,
        false,
    );
    let started = halted(
        opened,
        first_fault(failing(fault), scan_halt(store, context, operation)),
    );
    let rows = scanned_rows(store);
    let scanned = stepped(scanned_step(rows), rows.len(), started);
    let ready = cleanup_ready(store, request);
    let draft = cleanup_draft(store, request);
    reveal(manifest_sweep_draft);
    lemma_scan_adds(rows, started);
    lemma_sealed_adds(
        store,
        context,
        swept_next(store, operation, n),
        PublicationAuthorityPurpose::Cleanup,
        advancing(store, context, expected, ready),
    );
    lemma_advance_adds(store, context, expected, ready);
    assert(started.halt is None);
    lemma_scanned_plan(store, context, expected, started, scanned, ready, draft);
}

/// Which rows a sweep asks for: manifest rows of the operation's own revision,
/// at the version of the request, no more than are left and than fit a batch.
pub proof fn sweeps_ask_for_their_own_rows(
    store: MetaShard,
    context: PublicationContext,
    operation: PublishOperationRecord,
)
    requires
        operation.cleanup_manifest_cursor <= operation.manifest_cursor,
        store.scanned is None,
    ensures
        ({
            let left = operation.manifest_cursor - operation.cleanup_manifest_cursor;
            scan_halt(store, context, operation) == Some(
                StopView::ScanManifest {
                    version: context.read_version,
                    revision: operation.artifact_revision_id,
                    limit: (if left < 192 {
                        left
                    } else {
                        192
                    }) as usize,
                },
            )
        }),
{
}

/// What a sweep asks to be stored of its operation: the cursor of what is
/// removed moves on by the page, of staged rows first and of manifest rows
/// then, and nothing else of the operation changes.
pub proof fn sweeps_advance_their_cursor(
    store: MetaShard,
    operation: PublishOperationRecord,
    count: nat,
)
    requires
        operation.cleanup_staged_object_cursor < operation.staged_object_cursor ==> operation
            .cleanup_staged_object_cursor + count <= u32::MAX,
        operation.cleanup_staged_object_cursor >= operation.staged_object_cursor ==> operation
            .cleanup_manifest_cursor + store.scanned.unwrap().unwrap()@.len() <= u32::MAX,
    ensures
        ({
            let next = swept_next(store, operation, count);
            let staged = operation.cleanup_staged_object_cursor < operation.staged_object_cursor;
            &&& next.cleanup_staged_object_cursor == operation.cleanup_staged_object_cursor + (
            if staged {
                count as int
            } else {
                0
            })
            &&& next.cleanup_manifest_cursor == operation.cleanup_manifest_cursor + (if staged {
                0
            } else {
                store.scanned.unwrap().unwrap()@.len() as int
            })
            &&& next == (PublishOperationRecord {
                cleanup_staged_object_cursor: next.cleanup_staged_object_cursor,
                cleanup_manifest_cursor: next.cleanup_manifest_cursor,
                ..operation
            })
        }),
{
}

/// What is asked to be stored after a page of a cleanup.
pub proof fn cleanups_ask_for_the_swept_operation(
    store: MetaShard,
    request: CleanupPublishBatchRequest,
    next: PublishOperationRecord,
)
    requires
        store.next_payload is None,
        cleanup_draft(store, request).halt == Some(StopView::Encode { operation: next }),
    ensures
        next == swept_next(
            store,
            request.expected_operation.record,
            request.staged_object_updates@.len(),
        ),
{
    let context = request.context;
    let expected = request.expected_operation;
    let operation = expected.record;
    let updates = request.staged_object_updates@;
    let n = updates.len();
    let ready = cleanup_ready(store, request);
    reveal(next_payload_halt);
    assert(ready.halt is Some);
    lemma_authority_after_halt(
        store,
        context,
        swept_next(store, operation, n),
        PublicationAuthorityPurpose::Cleanup,
        ready,
    );
    lemma_opening_asks_nothing(store, context, expected, PublishPhase::Cleaning);
    let opened = halted(
        live(empty_plan()),
        batch_opening_halt(store, context, expected, PublishPhase::Cleaning),
    );
    let sized = halted(
        opened,
        failing(staged_sweep_fault("cleanup staged objects", operation, n)),
    );
    let step = cleanup_step(context, operation, updates);
    assert(step_asks_nothing(step));
    lemma_steps_ask_nothing(step, n, sized);
    let fault = manifest_sweep_fault(
        "cleanup staged objects",
        "cleanup manifest",
        operation,
        n,
        false,
    );
    lemma_manifest_sweep_asks(store, context, operation, fault, "cleanup manifest", opened);
}

proof fn lemma_manifest_sweep_asks(
    store: MetaShard,
    context: PublicationContext,
    operation: PublishOperationRecord,
    fault: Option<PublicationError>,
    manifest_batch: &'static str,
    draft: Draft,
)
    requires
        asks_nothing(draft),
    ensures
        manifest_sweep_draft(
            store,
            context,
            operation,
            fault,
            manifest_batch,
            draft,
        ).halt matches Some(stop) ==> !(stop is Encode),
{
    reveal(manifest_sweep_draft);
    let rows = scanned_rows(store);
    let step = scanned_step(rows);
    let started = halted(draft, first_fault(failing(fault), scan_halt(store, context, operation)));
    assert(keeps_halts(step));
    if started.halt is Some {
        lemma_stepped_halt(step, 0, rows.len(), started);
    } else {
        assert(step_asks_nothing(step));
        lemma_steps_ask_nothing(step, rows.len(), started);
    }
}

/// A page of a quarantined operation's staged rows removes the next rows of
/// the operation, as the caller has seen them, under the operator's verdict on
/// the revision, which the command expects to hold, and takes the operation to
/// its next form. It changes nothing else.
pub proof fn reconciliations_remove_the_next_rows(
    store: MetaShard,
    request: ReconcileQuarantinedPublishBatchRequest,
)
    requires
        reconcile_draft(store, request).halt is None,
        request.expected_operation.record.cleanup_staged_object_cursor
            < request.expected_operation.record.staged_object_cursor,
    ensures
        ({
            let plan = reconcile_draft(store, request).plan;
            let context = request.context;
            let operation = request.expected_operation.record;
            let rows = request.staged_object_rows@;
            &&& operation.phase == PublishPhase::Quarantined
            &&& 1 <= rows.len() <= 192
            &&& operation.cleanup_staged_object_cursor + rows.len()
                <= operation.staged_object_cursor
            &&& keeps_the_verdict(plan, store, context, operation, request.resolution)
            &&& writes(
                plan,
                operation_row(context, operation),
                store.next_payload.unwrap().unwrap()@,
            )
            &&& plan.mutations.len() == rows.len() + 1
            &&& plan.events.len() == 0
            &&& forall|i: int|
                0 <= i < rows.len() ==> {
                    let row = (#[trigger] rows[i]).record;
                    let key = staged_row(
                        context,
                        operation,
                        operation.cleanup_staged_object_cursor + i,
                    );
                    &&& row.object_sequence == operation.cleanup_staged_object_cursor + i
                    &&& row.artifact_revision_id == operation.artifact_revision_id
                    &&& expects(plan, key, Some(rows[i].payload.unwrap()@))
                    &&& removes(plan, key)
                }
        }),
{
    let context = request.context;
    let expected = request.expected_operation;
    let operation = expected.record;
    let rows = request.staged_object_rows@;
    let n = rows.len();
    let opened = halted(
        live(empty_plan()),
        batch_opening_halt(store, context, expected, PublishPhase::Quarantined),
    );
    let judged = verdict_draft(store, context, operation, request.resolution, opened);
    let sized = halted(
        judged,
        failing(staged_sweep_fault("reconcile staged objects", operation, n)),
    );
    let step = reconcile_step(context, operation, rows);
    let changes = sweep_rows(context, operation, n);
    let before = Seq::new(n, |i: int| Some(payload_of(rows[i])));
    let checked = |i: int| swept_row_fault(operation, rows[i].record, i) is None;
    assert(step_adds(step, changes, before, checked)) by {
        assert forall|i: int, draft: Draft| 0 <= i < changes.len() implies {
            let after = #[trigger] step(i, draft);
            &&& adds_rows(draft, after, seq![changes[i]])
            &&& after.halt is None ==> checked(i) && expects(
                after.plan,
                changes[i].key(),
                before[i],
            ) && after.plan.events == draft.plan.events
        } by {
            lemma_sweep_adds(context, operation, rows[i], validity_fault(rows[i]), i, draft);
        }
    }
    lemma_steps_add(step, changes, before, checked, n, sized);
    let swept = stepped(step, n, sized);
    let ready = reconcile_ready(store, request);
    let advanced = advancing(store, context, expected, ready);
    let draft = reconcile_draft(store, request);
    lemma_advance_adds(store, context, expected, ready);
    lemma_verdict_holds(store, context, operation, request.resolution, opened);
    assert(changes.take(n as int) =~= changes);
    let change = operation_change(store, context, operation);
    assert(draft == advanced);
    assert(draft.plan.mutations =~= changes + seq![change]);
    assert(draft.plan.mutations[n as int] == change);
    let revision = RowKeyView::ArtifactRevision {
        root_id: context.root_id,
        revision: operation.artifact_revision_id,
    };
    let verdict = bytes_of(store, context.read_version, revision);
    lemma_expects_stays(judged, swept, changes, revision, verdict);
    lemma_expects_stays(swept, advanced, seq![change], revision, verdict);
    assert forall|i: int| 0 <= i < rows.len() implies {
        let row = (#[trigger] rows[i]).record;
        let key = staged_row(context, operation, operation.cleanup_staged_object_cursor + i);
        &&& row.object_sequence == operation.cleanup_staged_object_cursor + i
        &&& row.artifact_revision_id == operation.artifact_revision_id
        &&& expects(draft.plan, key, Some(rows[i].payload.unwrap()@))
        &&& removes(draft.plan, key)
    } by {
        assert(checked(i));
        assert(expects(swept.plan, changes[i].key(), before[i]));
        lemma_expects_stays(ready, advanced, seq![change], changes[i].key(), before[i]);
        assert(draft.plan.mutations[i] == changes[i]);
    }
}

/// Whether an operator's verdict on a revision agrees with what was read of
/// it, and the plan expects it to stay so.
pub open spec fn keeps_the_verdict(
    plan: PlanView,
    store: MetaShard,
    context: PublicationContext,
    operation: PublishOperationRecord,
    resolution: QuarantineReconcileResolution,
) -> bool {
    let key = RowKeyView::ArtifactRevision {
        root_id: context.root_id,
        revision: operation.artifact_revision_id,
    };
    let found = bytes_of(store, context.read_version, key);
    &&& expects(plan, key, found)
    &&& resolution == QuarantineReconcileResolution::RevisionPublished <==> found is Some
}

pub proof fn lemma_verdict_holds(
    store: MetaShard,
    context: PublicationContext,
    operation: PublishOperationRecord,
    resolution: QuarantineReconcileResolution,
    draft: Draft,
)
    ensures
        adds_rows(
            draft,
            verdict_draft(store, context, operation, resolution, draft),
            Seq::empty(),
        ),
        verdict_draft(store, context, operation, resolution, draft).halt is None ==> {
            &&& keeps_the_verdict(
                verdict_draft(store, context, operation, resolution, draft).plan,
                store,
                context,
                operation,
                resolution,
            )
            &&& verdict_draft(store, context, operation, resolution, draft).plan.events
                == draft.plan.events
        },
{
    reveal(verdict_draft);
    let after = verdict_draft(store, context, operation, resolution, draft);
    assert(draft.plan.mutations + Seq::<PlanMutationView>::empty() =~= draft.plan.mutations);
    if after.halt is None {
        let key = revision_key_of(context, operation.artifact_revision_id);
        assert(after.plan.predicates.last() == PlanPredicateView::Value {
            key,
            expected: bytes_of(store, context.read_version, key),
        });
    }
}

/// Once every staged row is removed, a reconciliation removes manifest rows in
/// the same way, under the verdict that the revision is not published.
pub proof fn reconciliations_then_remove_manifest_rows(
    store: MetaShard,
    request: ReconcileQuarantinedPublishBatchRequest,
)
    requires
        reconcile_draft(store, request).halt is None,
        request.expected_operation.record.cleanup_staged_object_cursor
            >= request.expected_operation.record.staged_object_cursor,
    ensures
        request.expected_operation.record.phase == PublishPhase::Quarantined,
        request.staged_object_rows@.len() == 0,
        request.resolution == QuarantineReconcileResolution::RevisionUnpublished,
        keeps_the_verdict(
            reconcile_draft(store, request).plan,
            store,
            request.context,
            request.expected_operation.record,
            request.resolution,
        ),
        removes_scanned_rows(
            reconcile_draft(store, request).plan,
            store,
            request.context,
            request.expected_operation.record,
        ),
{
    let context = request.context;
    let expected = request.expected_operation;
    let operation = expected.record;
    let n = request.staged_object_rows@.len();
    let opened = halted(
        live(empty_plan()),
        batch_opening_halt(store, context, expected, PublishPhase::Quarantined),
    );
    let judged = verdict_draft(store, context, operation, request.resolution, opened);
    let published = request.resolution == QuarantineReconcileResolution::RevisionPublished;
    let fault = manifest_sweep_fault(
        "reconcile staged objects",
        "reconcile manifest",
        operation,
        n,
        published,
    );
    let started = halted(
        judged,
        first_fault(failing(fault), scan_halt(store, context, operation)),
    );
    let rows = scanned_rows(store);
    let scanned = stepped(scanned_step(rows), rows.len(), started);
    let ready = reconcile_ready(store, request);
    let draft = reconcile_draft(store, request);
    let advanced = advancing(store, context, expected, ready);
    reveal(manifest_sweep_draft);
    lemma_scan_adds(rows, started);
    lemma_advance_adds(store, context, expected, ready);
    lemma_verdict_holds(store, context, operation, request.resolution, opened);
    assert(started.halt is None);
    assert(draft == advanced);
    assert(advanced.plan.mutations + Seq::<PlanMutationView>::empty()
        =~= advanced.plan.mutations);
    lemma_scanned_plan(store, context, expected, started, scanned, ready, draft);
    let key = RowKeyView::ArtifactRevision {
        root_id: context.root_id,
        revision: operation.artifact_revision_id,
    };
    let verdict = bytes_of(store, context.read_version, key);
    lemma_expects_stays(judged, scanned, scanned_changes(rows), key, verdict);
    lemma_expects_stays(
        ready,
        advanced,
        seq![operation_change(store, context, operation)],
        key,
        verdict,
    );
}

/// What is asked to be stored after a page of a reconciliation.
pub proof fn reconciliations_ask_for_the_swept_operation(
    store: MetaShard,
    request: ReconcileQuarantinedPublishBatchRequest,
    next: PublishOperationRecord,
)
    requires
        store.next_payload is None,
        reconcile_draft(store, request).halt == Some(StopView::Encode { operation: next }),
    ensures
        next == swept_next(
            store,
            request.expected_operation.record,
            request.staged_object_rows@.len(),
        ),
{
    let context = request.context;
    let expected = request.expected_operation;
    let operation = expected.record;
    let rows = request.staged_object_rows@;
    let n = rows.len();
    let ready = reconcile_ready(store, request);
    reveal(next_payload_halt);
    assert(ready.halt is Some);
    lemma_opening_asks_nothing(store, context, expected, PublishPhase::Quarantined);
    let opened = halted(
        live(empty_plan()),
        batch_opening_halt(store, context, expected, PublishPhase::Quarantined),
    );
    let judged = verdict_draft(store, context, operation, request.resolution, opened);
    assert(asks_nothing(judged)) by {
        reveal(verdict_draft);
        reveal(read_halt);
    }
    let sized = halted(
        judged,
        failing(staged_sweep_fault("reconcile staged objects", operation, n)),
    );
    let step = reconcile_step(context, operation, rows);
    assert(step_asks_nothing(step));
    lemma_steps_ask_nothing(step, n, sized);
    let fault = manifest_sweep_fault(
        "reconcile staged objects",
        "reconcile manifest",
        operation,
        n,
        request.resolution == QuarantineReconcileResolution::RevisionPublished,
    );
    lemma_manifest_sweep_asks(store, context, operation, fault, "reconcile manifest", judged);
}

} // verus!
