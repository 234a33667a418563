//! Which single steps of a publication are accepted, and which are not.

use crate::ids::{ArtifactRevisionId, Generation};
use crate::publication_admission_laws::last_manifest_row;
use crate::publication_batches::{staged_row_fault, upload_fault, StagedObjectUpdate};
use crate::publication_digests::{dependency_digest_of, dependency_seal_fault, fault_upto,
    manifest_digest_fault, manifest_succession_fault, manifest_validity_fault, seals_fault,
    staged_digest_fault, ManifestRowInput};
use crate::publication_effect_laws::removes;
use crate::publication_error::PublicationError;
use crate::publication_lifecycle::{begin_fault, heartbeat_fault, lease_clock_halt, takeover_halt,
    BeginPublishRequest, HeartbeatPublishRequest, TakeOverOrphanedPublishRequest};
use crate::publication_manifest::{completeness_difference, manifest_batch_fault,
    manifest_position_fault, manifest_rows_halt, owned_row_halt, StageManifestBatchRequest};
use crate::publication_owners::reference_fault;
use crate::publication_plan::{asserting, bounds_fault, deleting, key_taken, put_absent, replacing,
    Draft, PlanMutationView, PlanPredicateView, PlanView, PublicationContext, RowKeyView, StopView};
use crate::publication_records::{ArtifactRevisionView, PathEntryView};
use crate::publication_rules::{batch_cursor_fault, batch_size_fault, claimed_generation,
    cleanup_may_become, cleanup_update_fault, manifest_claim_matches, manifest_identity,
    manifest_publication, path_claim_fault, phase_fault, provider_may_become, purpose_of,
    staged_update_fault, PublicationAuthorityPurpose, RestoreManifestKind};
use crate::publication_store::{staged_object_halt, staged_object_of, MetaShard};
use crate::publication_sweeps::swept_row_fault;
use crate::publish_records::{ArtifactManifestRow, Coded, CommitManifestCondition, ObjectCoordinates,
    PublishClaim, PublishOperationRecord, PublishPhase, PublishTransition,
    RestoreDestinationBinding, StagedCleanupState, StagedObjectRecord, StagedProviderState};
use vstd::prelude::*;

verus! {

/// How far an object has come at its provider.
pub open spec fn provider_rank(state: StagedProviderState) -> int {
    match state {
        StagedProviderState::Planned => 0,
        StagedProviderState::Uploading => 1,
        StagedProviderState::Uploaded => 2,
        StagedProviderState::AbortPending => 3,
        StagedProviderState::Aborted => 4,
        StagedProviderState::Ambiguous => 5,
    }
}

/// An object moves forward at its provider or stays. It is aborted only after
/// it was uploaded or its abort was pending, and once aborted or ambiguous it
/// stays so.
pub proof fn provider_states_move_forward(a: StagedProviderState, b: StagedProviderState)
    ensures
        provider_may_become(a, b) <==> a == b || {
            &&& provider_rank(a) < provider_rank(b)
            &&& a != StagedProviderState::Aborted
            &&& b == StagedProviderState::Aborted ==> a == StagedProviderState::Uploaded || a
                == StagedProviderState::AbortPending
        },
{
}

/// An object is deleted only after its deletion was pending, may be
/// quarantined until it is deleted, and once deleted or quarantined stays so.
pub proof fn cleanup_states_move_forward(a: StagedCleanupState, b: StagedCleanupState)
    ensures
        cleanup_may_become(a, b) <==> {
            ||| a == b
            ||| a == StagedCleanupState::Owned && b == StagedCleanupState::DeletePending
            ||| a == StagedCleanupState::DeletePending && b == StagedCleanupState::Deleted
            ||| b == StagedCleanupState::Quarantined && a != StagedCleanupState::Deleted
        },
{
}

/// Whether two rows are about one object: the revision, the place in it, the
/// key, the length and the digest are the same.
pub open spec fn one_object(a: StagedObjectRecord, b: StagedObjectRecord) -> bool {
    &&& a.artifact_revision_id == b.artifact_revision_id
    &&& a.object_sequence == b.object_sequence
    &&& a.object_key.text@ == b.object_key.text@
    &&& a.expected_length == b.expected_length
    &&& a.expected_digest_uri@ == b.expected_digest_uri@
}

/// Whether two rows name one upload, or both none.
pub open spec fn one_upload(a: StagedObjectRecord, b: StagedObjectRecord) -> bool {
    match (a.multipart_upload_id, b.multipart_upload_id) {
        (None, None) => true,
        (Some(a), Some(b)) => a@ == b@,
        _ => false,
    }
}

/// An update between valid rows of one object that changes something and
/// moves both states forward is accepted whatever upload id it brings, where
/// the row had none; where the row had one, exactly if it stays. Any other
/// update between valid rows is refused with the row's place.
pub proof fn staged_updates_are_accepted_exactly(
    expected: Coded<StagedObjectRecord>,
    next: Coded<StagedObjectRecord>,
)
    requires
        expected.validity is None,
        next.validity is None,
    ensures
        ({
            let (a, b) = (expected.record, next.record);
            let accepted = {
                &&& one_object(a, b)
                &&& a.multipart_upload_id is Some ==> one_upload(a, b)
                &&& provider_may_become(a.provider_state, b.provider_state)
                &&& cleanup_may_become(a.cleanup_state, b.cleanup_state)
                &&& !one_upload(a, b) || a.provider_state != b.provider_state || a.cleanup_state
                    != b.cleanup_state
            };
            &&& accepted ==> staged_update_fault(expected, next) is None
            &&& !accepted ==> staged_update_fault(expected, next) == Some(
                PublicationError::InvalidStagedObjectTransition { sequence: a.object_sequence },
            )
        }),
{
}

/// An update with a row that its codec refuses is refused with what the codec
/// says, of the row before first.
pub proof fn invalid_rows_are_refused(
    expected: Coded<StagedObjectRecord>,
    next: Coded<StagedObjectRecord>,
)
    ensures
        expected.validity is Some ==> {
            let error = Some(PublicationError::OperationCodec(expected.validity.unwrap()));
            staged_update_fault(expected, next) == error && cleanup_update_fault(expected, next)
                == error
        },
        expected.validity is None && next.validity is Some ==> {
            let error = Some(PublicationError::OperationCodec(next.validity.unwrap()));
            staged_update_fault(expected, next) == error && cleanup_update_fault(expected, next)
                == error
        },
{
}

/// A cleanup proof between valid rows is accepted exactly where it is about
/// the very object and upload of the row, and ends with the object aborted and
/// deleted.
pub proof fn cleanup_proofs_are_accepted_exactly(
    expected: Coded<StagedObjectRecord>,
    next: Coded<StagedObjectRecord>,
)
    requires
        expected.validity is None,
        next.validity is None,
    ensures
        ({
            let (a, b) = (expected.record, next.record);
            let accepted = {
                &&& one_object(a, b)
                &&& one_upload(a, b)
                &&& b.provider_state == StagedProviderState::Aborted
                &&& b.cleanup_state == StagedCleanupState::Deleted
            };
            &&& accepted ==> cleanup_update_fault(expected, next) is None
            &&& !accepted ==> cleanup_update_fault(expected, next) == Some(
                PublicationError::InvalidStagedObjectTransition { sequence: a.object_sequence },
            )
        }),
{
}

/// A batch has at least one row and at most 192.
pub proof fn batches_are_bounded(batch: &'static str, count: nat)
    ensures
        batch_size_fault(batch, count) is None <==> 1 <= count <= 192,
        count == 0 ==> batch_size_fault(batch, count) == Some(
            PublicationError::EmptyBatch { batch },
        ),
        count > 192 ==> batch_size_fault(batch, count) == Some(
            PublicationError::BatchTooLarge { batch, count: count as usize, max: 192 },
        ),
{
}

/// A batch may reach what was planned, and not further.
pub proof fn batches_stay_within_the_plan(
    batch: &'static str,
    cursor: u32,
    count: nat,
    planned: u32,
)
    ensures
        batch_cursor_fault(batch, cursor, count, planned) is None <==> cursor + count <= planned,
        cursor + count > planned ==> batch_cursor_fault(batch, cursor, count, planned) == Some(
            PublicationError::BatchExceedsPlannedCount {
                batch,
                cursor,
                count: count as usize,
                planned,
            },
        ),
{
}

/// A step is taken in the phase that it needs.
pub proof fn steps_need_their_phase(operation: PublishOperationRecord, expected: PublishPhase)
    ensures
        phase_fault(operation, expected) is None <==> operation.phase == expected,
        operation.phase != expected ==> phase_fault(operation, expected) == Some(
            PublicationError::InvalidOperationPhase { expected, actual: operation.phase },
        ),
{
}

/// The generation that a claim asks the path to have, if it asks for one.
pub open spec fn claimed(claim: PublishClaim) -> Option<Generation> {
    match claim {
        PublishClaim::CreateOnly => None,
        PublishClaim::ReplaceOnly { expected_generation } => Some(expected_generation),
        PublishClaim::Append { expected_generation, .. } => Some(expected_generation),
    }
}

/// A claim is met by the path as it is: nothing there for a creation, and
/// exactly the claimed generation for a replacement; an append also names the
/// revision that is shown. The path then goes to the next generation.
pub proof fn claims_are_met_exactly(claim: PublishClaim, current: Option<PathEntryView>)
    ensures
        path_claim_fault(claim, current) is None <==> match (claimed(claim), current) {
            (None, None) => true,
            (Some(generation), Some(entry)) => {
                &&& entry.generation == generation
                &&& generation.value < u64::MAX
                &&& claim matches PublishClaim::Append { base_revision_id, .. }
                    ==> entry.artifact_revision_id == base_revision_id
            },
            _ => false,
        },
        claim is CreateOnly && current is Some ==> path_claim_fault(claim, current) == Some(
            PublicationError::PathAlreadyExists,
        ),
        !(claim is CreateOnly) && current is None ==> path_claim_fault(claim, current) == Some(
            PublicationError::PathNotFound,
        ),
        claimed(claim) is Some && current is Some && current.unwrap().generation != claimed(
            claim,
        ).unwrap() ==> path_claim_fault(claim, current) == Some(
            PublicationError::PathGenerationMismatch {
                expected: claimed(claim).unwrap().value,
                actual: current.unwrap().generation.value,
            },
        ),
        path_claim_fault(claim, current) is None ==> claimed_generation(claim) == (match current {
            None => 1,
            Some(entry) => entry.generation.value + 1,
        }),
{
}

/// A commit build takes the run manifest that it asked for: a creation for a
/// creation, and a replacement of the very generation.
pub proof fn commit_claims_match_exactly(expected: CommitManifestCondition, actual: PublishClaim)
    ensures
        manifest_claim_matches(expected, actual) <==> match expected {
            CommitManifestCondition::CreateOnly => actual is CreateOnly,
            CommitManifestCondition::ReplaceOnly { expected_generation } => {
                &&& actual is ReplaceOnly
                &&& claimed(actual) == Some(expected_generation)
            },
        },
{
}

/// A command moves a publication forward where it finalizes or publishes it,
/// and sheds it where it aborts, cleans up or quarantines it.
pub proof fn transitions_serve_their_purpose(transition: PublishTransition)
    ensures
        purpose_of(transition) == PublicationAuthorityPurpose::Forward <==> transition
            is BeginFinalization || transition is Publish,
{
}

/// Each of a restore's manifests has the identity and the publication that
/// stand under its own name.
pub proof fn restore_manifests_keep_their_names(binding: RestoreDestinationBinding)
    ensures
        manifest_identity(binding, RestoreManifestKind::Run) == binding.run_manifest_identity,
        manifest_identity(binding, RestoreManifestKind::Restore)
            == binding.restore_manifest_identity,
        binding.manifests is None ==> manifest_publication(binding, RestoreManifestKind::Run)
            is None && manifest_publication(binding, RestoreManifestKind::Restore) is None,
        binding.manifests is Some ==> {
            &&& manifest_publication(binding, RestoreManifestKind::Run) == Some(
                binding.manifests.unwrap().run_manifest,
            )
            &&& manifest_publication(binding, RestoreManifestKind::Restore) == Some(
                binding.manifests.unwrap().restore_manifest,
            )
        },
{
}

/// An object is staged at its place exactly where it is the next one of its
/// operation, freshly planned and owned, of the operation's revision, under
/// the canonical key of its coordinates, and under a key that no object before
/// it in the batch has.
pub proof fn objects_are_staged_in_order(
    context: PublicationContext,
    operation: PublishOperationRecord,
    rows: Seq<Coded<StagedObjectRecord>>,
    i: int,
)
    requires
        0 <= i < rows.len(),
        staged_digest_fault(rows[i]) is None,
    ensures
        staged_row_fault(context, operation, rows)(i) is None <==> {
            let row = rows[i].record;
            &&& row.object_sequence == operation.staged_object_cursor + i
            &&& row.artifact_revision_id == operation.artifact_revision_id
            &&& row.object_key.coordinates == Some(
                ObjectCoordinates {
                    logical_shard_id: context.logical_shard_id,
                    root_id: context.root_id,
                    artifact_revision_id: operation.artifact_revision_id,
                    object_index: (operation.staged_object_cursor + i) as u64,
                },
            )
            &&& row.provider_state == StagedProviderState::Planned
            &&& row.cleanup_state == StagedCleanupState::Owned
            &&& forall|j: int|
                0 <= j < i ==> (#[trigger] rows[j]).record.object_key.text@ != row.object_key.text@
        },
{
}

/// An upload is confirmed at its place exactly where the update is accepted,
/// is about the next object that is not confirmed yet, of the operation's
/// revision, and leaves it uploaded and owned.
pub proof fn uploads_are_confirmed_in_order(
    operation: PublishOperationRecord,
    updates: Seq<StagedObjectUpdate>,
    i: int,
)
    requires
        0 <= i < updates.len(),
        staged_digest_fault(updates[i].next) is None,
        updates[i].expected.payload is Ok,
        updates[i].next.payload is Ok,
    ensures
        upload_fault(operation, updates)(i) is None <==> {
            let update = updates[i];
            &&& staged_update_fault(update.expected, update.next) is None
            &&& update.expected.record.object_sequence == operation.uploaded_object_cursor + i
            &&& update.expected.record.artifact_revision_id == operation.artifact_revision_id
            &&& update.next.record.provider_state == StagedProviderState::Uploaded
            &&& update.next.record.cleanup_state == StagedCleanupState::Owned
        },
{
}

/// A staged row is removed at its place exactly where it is the next one of
/// its operation.
pub proof fn rows_are_swept_in_order(
    operation: PublishOperationRecord,
    row: StagedObjectRecord,
    i: int,
)
    ensures
        swept_row_fault(operation, row, i) is None <==> row.object_sequence
            == operation.cleanup_staged_object_cursor + i && row.artifact_revision_id
            == operation.artifact_revision_id,
{
}

/// An operation begins at its beginning: uploading, under its owner's own
/// epoch, with every cursor at zero.
pub proof fn operations_begin_at_their_beginning(request: BeginPublishRequest)
    requires
        seals_fault(request.operation) is None,
    ensures
        begin_fault(request) is None <==> {
            let operation = request.operation.record;
            &&& operation.initiating_owner_epoch == request.context.owner_epoch
            &&& operation.phase == PublishPhase::Uploading
            &&& operation.staged_object_cursor == 0
            &&& operation.uploaded_object_cursor == 0
            &&& operation.manifest_cursor == 0
            &&& operation.manifest_last_position is None
            &&& operation.cleanup_staged_object_cursor == 0
            &&& operation.cleanup_manifest_cursor == 0
        },
{
}

/// A lease is extended by its own owner, while the operation uploads or
/// finalizes, and to a later deadline.
pub proof fn leases_are_extended_by_their_owner(request: HeartbeatPublishRequest)
    requires
        seals_fault(request.expected_operation) is None,
    ensures
        heartbeat_fault(request) is None <==> {
            let operation = request.expected_operation.record;
            &&& request.context.owner_epoch == operation.initiating_owner_epoch
            &&& operation.phase == PublishPhase::Uploading || operation.phase
                == PublishPhase::Finalizing
            &&& request.activity_deadline_ms > operation.activity_deadline_ms
        },
{
}

/// A deadline is accepted exactly where it is ahead of the lease clock.
pub proof fn deadlines_are_ahead_of_the_clock(store: MetaShard, deadline_ms: u64)
    ensures
        store.lease_clock is None ==> lease_clock_halt(store, deadline_ms) == Some(
            StopView::LeaseClock,
        ),
        store.lease_clock matches Some(Ok(clock)) ==> {
            &&& lease_clock_halt(store, deadline_ms) is None <==> deadline_ms > clock
            &&& deadline_ms <= clock ==> lease_clock_halt(store, deadline_ms) == Some(
                StopView::Fail(
                    PublicationError::ActivityDeadlineNotFuture { clock, requested: deadline_ms },
                ),
            )
        },
{
}

/// An operation that uploads or finalizes is taken over by a newer owner at
/// once, by its own owner once the lease has run out with the clock's skew, and
/// by an older owner never.
pub proof fn orphans_are_taken_over_exactly(
    store: MetaShard,
    request: TakeOverOrphanedPublishRequest,
)
    ensures
        ({
            let operation = request.expected_operation.record;
            let epoch = request.context.owner_epoch.value;
            let initiating = operation.initiating_owner_epoch.value;
            let running = operation.phase == PublishPhase::Uploading || operation.phase
                == PublishPhase::Finalizing;
            &&& !running ==> takeover_halt(store, request) == Some(
                StopView::Fail(PublicationError::OwnerTakeoverPhase { actual: operation.phase }),
            )
            &&& running && epoch > initiating ==> takeover_halt(store, request) is None
            &&& running && epoch < initiating ==> takeover_halt(store, request) == Some(
                StopView::Fail(
                    PublicationError::OwnerTakeoverNotAllowed {
                        initiating: operation.initiating_owner_epoch,
                        current: request.context.owner_epoch,
                    },
                ),
            )
            &&& running && epoch == initiating ==> match store.observed_clock {
                None => takeover_halt(store, request) == Some(
                    StopView::ObserveClock { now_ms: request.observed_now_ms },
                ),
                Some(Err(error)) => takeover_halt(store, request) == Some(
                    StopView::Fail(PublicationError::Meta(error)),
                ),
                Some(Ok(clock)) => {
                    takeover_halt(store, request) is None <==> clock == u64::MAX || clock
                        >= operation.activity_deadline_ms + request.maximum_clock_skew_ms
                },
            }
        }),
{
}

/// Dependencies are accepted exactly where they are the ones that the
/// operation has sealed: as many, strictly increasing, within the limit, and
/// of the sealed digest.
pub proof fn dependencies_are_the_sealed_ones(
    operation: PublishOperationRecord,
    owners: Seq<ArtifactRevisionId>,
)
    ensures
        dependency_seal_fault(operation, owners) is None <==> {
            &&& owners.len() == operation.dependency_count
            &&& owners.len() <= 64
            &&& forall|i: int, j: int| 0 <= i < j < owners.len() ==> owners[i].bits < owners[j].bits
            &&& dependency_digest_of(owners) == operation.dependency_digest@
        },
{
}

/// References are counted within 64 bits: a revision takes a dependent while
/// its count can grow, and lets a path go while it counts one.
pub proof fn references_can_be_counted(
    record: ArtifactRevisionView,
    revision: ArtifactRevisionId,
    adds: bool,
    removes: bool,
)
    ensures
        reference_fault(record, revision, adds, removes) is None <==> {
            &&& record.reference_epoch.value < u64::MAX
            &&& adds ==> record.strong_reference_count < u64::MAX
            &&& removes && !adds ==> record.strong_reference_count > 0
        },
{
}

/// A batch of manifest rows is in order exactly where it fits one batch and
/// the manifest's limit, every planned object is staged and uploaded as sealed,
/// the dependencies are the sealed ones, each row is valid and at the next
/// place under the canonical key of its owner, each starts where the one before
/// ends, and the batch stays within the planned rows and behind the last one.
pub proof fn manifest_batches_are_in_order(store: MetaShard, request: StageManifestBatchRequest)
    ensures
        manifest_batch_fault(store, request) is None <==> {
            let operation = request.expected_operation.record;
            let rows = request.manifest_rows@;
            &&& 1 <= rows.len() <= 192
            &&& rows.len() <= store.policy.max_manifest_rows
            &&& operation.staged_object_cursor == operation.staged_object_count
            &&& operation.staged_object_rolling_digest@ == operation.staged_object_seal@
            &&& operation.uploaded_object_cursor == operation.staged_object_count
            &&& operation.uploaded_object_rolling_digest@ == operation.staged_object_seal@
            &&& dependency_seal_fault(operation, request.dependency_owner_revision_ids@) is None
            &&& operation.manifest_cursor + rows.len() <= operation.manifest_row_count
            &&& operation.manifest_last_position matches Some(last) ==> last.object_index
                < rows[0].object_index
            &&& forall|i: int| 0 <= i < rows.len() ==> row_is_placed(request, #[trigger] rows[i], i)
            &&& forall|i: int|
                0 < i < rows.len() ==> (#[trigger] rows[i]).row.record.logical_offset
                    == rows[i - 1].row.record.logical_offset + rows[i - 1].row.record.length
        },
{
    let operation = request.expected_operation.record;
    let rows = request.manifest_rows@;
    let n = rows.len();
    let a = manifest_position_fault(request.context, operation, rows);
    let b = manifest_validity_fault(rows);
    let c = manifest_succession_fault(rows);
    lemma_none_upto(a, n);
    lemma_none_upto(b, n);
    lemma_none_upto(c, n);
    if forall|i: int| 0 <= i < n ==> row_is_placed(request, #[trigger] rows[i], i) {
        assert forall|i: int| 0 <= i < n implies (#[trigger] a(i)) is None by {
            assert(row_is_placed(request, rows[i], i));
        }
        assert forall|i: int| 0 <= i < n implies (#[trigger] b(i)) is None by {
            assert(row_is_placed(request, rows[i], i));
        }
        if forall|i: int|
            0 < i < n ==> (#[trigger] rows[i]).row.record.logical_offset
                == rows[i - 1].row.record.logical_offset + rows[i - 1].row.record.length {
            assert forall|i: int| 0 <= i < n implies (#[trigger] c(i)) is None by {
                assert(row_is_placed(request, rows[i], i));
                if i > 0 {
                    assert(row_is_placed(request, rows[i - 1], i - 1));
                }
            }
        }
    }
    if (forall|i: int| 0 <= i < n ==> (#[trigger] a(i)) is None) && (forall|i: int|
        0 <= i < n ==> (#[trigger] b(i)) is None) {
        assert forall|i: int| 0 <= i < n implies row_is_placed(request, #[trigger] rows[i], i) by {
            assert(a(i) is None);
            assert(b(i) is None);
        }
    }
    if forall|i: int| 0 <= i < n ==> (#[trigger] c(i)) is None {
        assert forall|i: int| 0 < i < n implies (#[trigger] rows[i]).row.record.logical_offset
            == rows[i - 1].row.record.logical_offset + rows[i - 1].row.record.length by {
            assert(c(i) is None);
        }
    }
}

/// Whether a manifest row is valid, at its place, and under the canonical key
/// of its owner.
pub open spec fn row_is_placed(
    request: StageManifestBatchRequest,
    input: ManifestRowInput,
    i: int,
) -> bool {
    let row = input.row.record;
    &&& input.row.validity is None
    &&& input.object_index == request.expected_operation.record.manifest_cursor + i
    &&& row.object_key.coordinates == Some(
        ObjectCoordinates {
            logical_shard_id: request.context.logical_shard_id,
            root_id: request.context.root_id,
            artifact_revision_id: row.physical_owner_revision_id,
            object_index: row.physical_object_index,
        },
    )
}

proof fn lemma_none_upto<E>(g: spec_fn(int) -> Option<E>, n: nat)
    ensures
        fault_upto(g, n) is None <==> forall|i: int| 0 <= i < n ==> (#[trigger] g(i)) is None,
    decreases n,
{
    if n > 0 {
        lemma_none_upto(g, (n - 1) as nat);
        if fault_upto(g, n) is None {
            assert forall|i: int| 0 <= i < n implies (#[trigger] g(i)) is None by {
                if i == n - 1 {
                }
            }
        } else if forall|i: int| 0 <= i < n ==> (#[trigger] g(i)) is None {
            assert(g(n - 1) is None);
        }
    }
}

/// A manifest row belongs exactly where it is whole, stands behind an object of
/// the operation's own or of a dependency, and borrowed rows come first; a row
/// of the operation's own shows the next staged object as it was staged and
/// uploaded.
pub proof fn manifest_rows_belong_exactly(
    store: MetaShard,
    context: PublicationContext,
    operation: PublishOperationRecord,
    owners: Seq<ArtifactRevisionId>,
    previous: Option<ArtifactManifestRow>,
    input: ManifestRowInput,
)
    requires
        manifest_digest_fault(input) is None,
    ensures
        owned_row_halt(store, context, operation, owners, previous, input) is None <==> {
            let row = input.row.record;
            let own = row.physical_owner_revision_id == operation.artifact_revision_id;
            let after_own = previous is Some && previous.unwrap().physical_owner_revision_id
                == operation.artifact_revision_id;
            let key = RowKeyView::StagedObject {
                root_id: context.root_id,
                operation_id: operation.operation_id,
                sequence: row.physical_object_index,
            };
            let staged = staged_object_of(store, context.read_version, key);
            &&& row.offset == 0
            &&& own || owners.contains(row.physical_owner_revision_id)
            &&& after_own ==> own
            &&& own ==> {
                &&& row.physical_object_index == (if after_own {
                    previous.unwrap().physical_object_index + 1
                } else {
                    0
                })
                &&& row.physical_object_index < operation.staged_object_count
                &&& staged_object_halt(store, context.read_version, key) is None
                &&& staged is Some
                &&& staged.unwrap().artifact_revision_id == operation.artifact_revision_id
                &&& staged.unwrap().object_sequence == row.physical_object_index
                &&& staged.unwrap().object_key.coordinates == Some(
                    ObjectCoordinates {
                        logical_shard_id: context.logical_shard_id,
                        root_id: context.root_id,
                        artifact_revision_id: operation.artifact_revision_id,
                        object_index: row.physical_object_index,
                    },
                )
                &&& staged.unwrap().object_key.text@ == row.object_key.text@
                &&& staged.unwrap().expected_length == row.length
                &&& staged.unwrap().expected_digest_uri@ == row.digest_uri@
                &&& staged.unwrap().provider_state == StagedProviderState::Uploaded
                &&& staged.unwrap().cleanup_state == StagedCleanupState::Owned
            }
        },
{
    reveal(owned_row_halt);
}

/// A finished manifest shows every staged object: its last row shows the last
/// of them, or there were none.
pub proof fn finished_manifests_are_complete(
    operation: PublishOperationRecord,
    rows: Seq<ManifestRowInput>,
)
    requires
        rows.len() > 0,
        operation.manifest_cursor + rows.len() == operation.manifest_row_count,
    ensures
        completeness_difference(operation, rows) is None <==> {
            let last = rows[rows.len() - 1].row.record;
            operation.staged_object_count == (if last.physical_owner_revision_id
                == operation.artifact_revision_id {
                last.physical_object_index + 1
            } else {
                0
            })
        },
{
}

/// A manifest begins at zero, or where the last row before the batch ends.
pub proof fn manifests_go_on_where_they_ended(
    store: MetaShard,
    request: StageManifestBatchRequest,
)
    requires
        manifest_rows_halt(store, request) is None,
    ensures
        request.manifest_rows@[0].row.record.logical_offset == (match last_manifest_row(
            store,
            request.context,
            request.expected_operation.record,
        ) {
            None => 0,
            Some(row) => row.logical_offset + row.length,
        }),
        request.expected_operation.record.manifest_last_position is Some ==> last_manifest_row(
            store,
            request.context,
            request.expected_operation.record,
        ) is Some,
{
}

/// A row is pinned once in a command, and a second pin of it fails with its
/// family; a change of a row pins it first, and a removal or replacement also
/// keeps it in history.
pub proof fn rows_are_pinned_once(
    draft: Draft,
    key: RowKeyView,
    expected: Seq<u8>,
    value: Seq<u8>,
)
    requires
        draft.halt is None,
    ensures
        key_taken(draft.plan, key) ==> {
            let stop = Some(
                StopView::Fail(PublicationError::DuplicateCommandKey { family: key.family() }),
            );
            &&& asserting(draft, key, Some(expected)).halt == stop
            &&& put_absent(draft, key, value).halt == stop
            &&& replacing(draft, key, expected, value).halt == stop
            &&& deleting(draft, key, expected).halt == stop
        },
        !key_taken(draft.plan, key) ==> {
            let absent = PlanPredicateView::Value { key, expected: None };
            let present = PlanPredicateView::Value { key, expected: Some(expected) };
            let put = PlanMutationView::Put { key, value };
            let gone = PlanMutationView::Delete { key };
            &&& put_absent(draft, key, value).plan == (PlanView {
                predicates: draft.plan.predicates.push(absent),
                mutations: draft.plan.mutations.push(put),
                ..draft.plan
            })
            &&& replacing(draft, key, expected, value).plan == (PlanView {
                predicates: draft.plan.predicates.push(present),
                mutations: draft.plan.mutations.push(put),
                history: draft.plan.history.push(key),
                ..draft.plan
            })
            &&& deleting(draft, key, expected).plan == (PlanView {
                predicates: draft.plan.predicates.push(present),
                mutations: draft.plan.mutations.push(gone),
                history: draft.plan.history.push(key),
                ..draft.plan
            })
        },
{
}

/// A command has at most 256 items of each kind.
pub proof fn commands_are_bounded(plan: PlanView)
    ensures
        bounds_fault(plan) is None <==> {
            &&& plan.predicates.len() <= 256
            &&& plan.mutations.len() <= 256
            &&& plan.history.len() <= 256
            &&& plan.events.len() <= 256
        },
{
}

} // verus!
