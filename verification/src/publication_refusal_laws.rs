//! What a refusal says: which of several causes is named, and with which
//! values.

use crate::digest::sha256_of;
use crate::ids::{ArtifactRevisionId, OperationId, ReadVersion, RevisionState, WorkspaceState};
use crate::prose::{hex_char, hex_text};
use crate::publication_authority::{commit_authority_halt, restore_authority_halt, restore_shape,
    verdict_draft, workspace_fault};
use crate::publication_batches::{staged_row_fault, upload_fault, StagedObjectUpdate};
use crate::publication_commit_stage::{commit_workspace_fault, run_manifest_halt};
use crate::publication_digests::{dependency_digest_of, dependency_order_fault,
    dependency_seal_fault, digest_uri, identity_input, initialization_input,
    manifest_succession_fault, seals_fault, staged_digest_fault, ManifestRowInput};
use crate::publication_effect_laws::removes;
use crate::publication_error::{MetaError, PublicationError, QuarantineReconcileResolution};
use crate::publication_finalize::{sealed_inputs_fault, workspace_state_fault,
    FinalizePublishRequest};
use crate::publication_lifecycle::{begin_fault, heartbeat_fault, takeover_halt, BeginPublishRequest,
    HeartbeatPublishRequest, TakeOverOrphanedPublishRequest};
use crate::publication_manifest::{manifest_position_fault, owned_row_halt};
use crate::publication_owners::{available_halt, reference_fault, shown_halt};
use crate::publication_plan::{Draft, OperationKind, PublicationContext, RowKeyView, StopView};
use crate::publication_records::{ArtifactRevisionView, WorkspaceRecord};
use crate::publication_replay::current_version_halt;
use crate::publication_rules::staged_update_fault;
use crate::publication_store::{build_commit_halt, build_commit_of, bytes_of, manifest_row_halt,
    read_halt, restore_halt, restore_of, revision_halt, revision_of, revision_ref_halt,
    revision_ref_of, staged_object_halt, MetaShard};
use crate::publication_sweeps::{manifest_sweep_fault, swept_row_fault};
use crate::publish_records::{ArtifactManifestRow, Coded, ObjectCoordinates, PublishAuthority,
    PublishOperationRecord, PublishPhase, StagedCleanupState, StagedObjectRecord,
    StagedProviderState};
use crate::recovery_segment::sealed;
use vstd::prelude::*;

verus! {

/// A row to be staged is refused for its place, then its revision, then its
/// key, then its state, then for a key that an earlier row of the batch has.
pub proof fn staged_rows_are_refused_for_a_cause(
    context: PublicationContext,
    operation: PublishOperationRecord,
    rows: Seq<Coded<StagedObjectRecord>>,
    i: int,
)
    requires
        0 <= i < rows.len(),
        operation.staged_object_cursor + i <= u32::MAX,
    ensures
        ({
            let row = rows[i].record;
            let place = (operation.staged_object_cursor + i) as u32;
            let placed = row.object_sequence == place;
            let own = row.artifact_revision_id == operation.artifact_revision_id;
            let keyed = row.object_key.coordinates == Some(
                ObjectCoordinates {
                    logical_shard_id: context.logical_shard_id,
                    root_id: context.root_id,
                    artifact_revision_id: operation.artifact_revision_id,
                    object_index: place as u64,
                },
            );
            let fresh = row.provider_state == StagedProviderState::Planned && row.cleanup_state
                == StagedCleanupState::Owned;
            let again = exists|j: int|
                0 <= j < i && (#[trigger] rows[j]).record.object_key.text@ == row.object_key.text@;
            staged_row_fault(context, operation, rows)(i) == (if !placed {
                Some(
                    PublicationError::StagedObjectSequenceMismatch {
                        expected: place,
                        actual: row.object_sequence,
                    },
                )
            } else if !own {
                Some(PublicationError::StagedObjectRevisionMismatch)
            } else if !keyed {
                Some(PublicationError::StagedObjectKeyMismatch { sequence: place })
            } else if !fresh {
                Some(PublicationError::InvalidStagedObjectTransition { sequence: place })
            } else if again {
                Some(PublicationError::DuplicateStagedObjectKey { sequence: place })
            } else {
                staged_digest_fault(rows[i])
            })
        }),
{
}

/// A row to be swept is refused for its place, then its revision.
pub proof fn swept_rows_are_refused_for_a_cause(
    operation: PublishOperationRecord,
    row: StagedObjectRecord,
    i: int,
)
    requires
        0 <= i,
        operation.cleanup_staged_object_cursor + i <= u32::MAX,
    ensures
        ({
            let place = (operation.cleanup_staged_object_cursor + i) as u32;
            let fault = swept_row_fault(operation, row, i);
            &&& row.object_sequence != place ==> fault == Some(
                PublicationError::StagedObjectSequenceMismatch {
                    expected: place,
                    actual: row.object_sequence,
                },
            )
            &&& row.object_sequence == place && row.artifact_revision_id
                != operation.artifact_revision_id ==> fault == Some(
                PublicationError::StagedObjectRevisionMismatch,
            )
            &&& row.object_sequence == place && row.artifact_revision_id
                == operation.artifact_revision_id ==> fault is None
        }),
{
}

/// An upload whose update is in order is refused for its place, then its
/// revision, then because it does not end uploaded and owned.
pub proof fn uploads_are_refused_for_a_cause(
    operation: PublishOperationRecord,
    updates: Seq<StagedObjectUpdate>,
    i: int,
)
    requires
        0 <= i < updates.len(),
        operation.uploaded_object_cursor + i <= u32::MAX,
    ensures
        ({
            let expected = updates[i].expected.record;
            let next = updates[i].next.record;
            let place = (operation.uploaded_object_cursor + i) as u32;
            let update = staged_update_fault(updates[i].expected, updates[i].next);
            let fault = upload_fault(operation, updates)(i);
            &&& update is Some ==> fault == update
            &&& update is None && expected.object_sequence != place ==> fault == Some(
                PublicationError::StagedObjectSequenceMismatch {
                    expected: place,
                    actual: expected.object_sequence,
                },
            )
            &&& update is None && expected.object_sequence == place
                && expected.artifact_revision_id != operation.artifact_revision_id ==> fault
                == Some(PublicationError::StagedObjectRevisionMismatch)
            &&& update is None && expected.object_sequence == place
                && expected.artifact_revision_id == operation.artifact_revision_id && !(
            next.provider_state == StagedProviderState::Uploaded && next.cleanup_state
                == StagedCleanupState::Owned) ==> fault == Some(
                PublicationError::StagedObjectNotUploaded { sequence: place },
            )
        }),
{
}

/// A sweep of manifest rows takes no staged rows, needs rows that are left,
/// and is refused for a published revision, whose rows stay.
pub proof fn manifest_sweeps_are_refused_for_a_cause(
    staged_batch: &'static str,
    manifest_batch: &'static str,
    operation: PublishOperationRecord,
    count: usize,
    published: bool,
)
    requires
        operation.cleanup_manifest_cursor <= operation.manifest_cursor,
    ensures
        ({
            let left = operation.manifest_cursor - operation.cleanup_manifest_cursor;
            let fault = manifest_sweep_fault(
                staged_batch,
                manifest_batch,
                operation,
                count as nat,
                published,
            );
            &&& count != 0 ==> fault == Some(
                PublicationError::BatchExceedsPlannedCount {
                    batch: staged_batch,
                    cursor: operation.cleanup_staged_object_cursor,
                    count,
                    planned: operation.staged_object_cursor,
                },
            )
            &&& count == 0 && left == 0 ==> fault == Some(
                PublicationError::EmptyBatch { batch: manifest_batch },
            )
            &&& count == 0 && left > 0 && published ==> fault == Some(
                PublicationError::ReconcileManifestRowsRemain { remaining: left as u32 },
            )
            &&& count == 0 && left > 0 && !published ==> fault is None
        }),
{
}

/// Dependencies are refused for their number, at most 64, then for their
/// order; and against a seal for their number, their order and their digest.
pub proof fn dependencies_are_refused_for_a_cause(
    operation: PublishOperationRecord,
    owners: Seq<ArtifactRevisionId>,
)
    requires
        owners.len() <= usize::MAX,
    ensures
        ({
            let increasing = forall|i: int, j: int|
                0 <= i < j < owners.len() ==> (#[trigger] owners[i]).bits < (
                #[trigger] owners[j]).bits;
            let sealed = dependency_seal_fault(operation, owners);
            &&& owners.len() > 64 ==> dependency_order_fault(owners) == Some(
                PublicationError::DependencyCountMismatch {
                    expected: 64,
                    actual: owners.len() as usize,
                },
            )
            &&& owners.len() <= 64 && !increasing ==> dependency_order_fault(owners) == Some(
                PublicationError::DependencyOrder,
            )
            &&& owners.len() <= 64 && increasing ==> dependency_order_fault(owners) is None
            &&& owners.len() != operation.dependency_count ==> sealed == Some(
                PublicationError::DependencyCountMismatch {
                    expected: operation.dependency_count,
                    actual: owners.len() as usize,
                },
            )
            &&& owners.len() == operation.dependency_count && dependency_order_fault(owners)
                is Some ==> sealed == dependency_order_fault(owners)
            &&& owners.len() == operation.dependency_count && dependency_order_fault(owners)
                is None && dependency_digest_of(owners) != operation.dependency_digest@ ==> sealed
                == Some(PublicationError::DependencyDigestMismatch)
        }),
{
}

/// An operation is refused for the seal that it does not carry: that of its
/// identity before that of its plan.
pub proof fn seals_are_refused_for_a_cause(operation: Coded<PublishOperationRecord>)
    ensures
        ({
            let record = operation.record;
            let identity = record.identity_digest@ == sha256_of(identity_input(record));
            let plan = record.initialization_digest@ == sha256_of(initialization_input(record));
            seals_fault(operation) == (match operation.validity {
                Some(error) => Some(PublicationError::OperationCodec(error)),
                None => if !identity {
                    Some(PublicationError::InvalidOperationSeal { seal: "identity" })
                } else if !plan {
                    Some(PublicationError::InvalidOperationSeal { seal: "initialization" })
                } else {
                    None
                },
            })
        }),
{
}

/// A sealed operation cannot begin under another owner's epoch, in a later
/// phase, or with progress, and the refusal says which.
pub proof fn beginnings_are_refused_for_a_cause(request: BeginPublishRequest)
    requires
        seals_fault(request.operation) is None,
    ensures
        ({
            let operation = request.operation.record;
            let fault = begin_fault(request);
            let mine = operation.initiating_owner_epoch == request.context.owner_epoch;
            let uploading = operation.phase == PublishPhase::Uploading;
            let untouched = operation.staged_object_cursor == 0 && operation.uploaded_object_cursor
                == 0 && operation.manifest_cursor == 0 && operation.manifest_last_position is None
                && operation.cleanup_staged_object_cursor == 0 && operation.cleanup_manifest_cursor
                == 0;
            &&& !mine ==> fault == Some(
                PublicationError::InitiatingOwnerEpochMismatch {
                    expected: request.context.owner_epoch,
                    actual: operation.initiating_owner_epoch,
                },
            )
            &&& mine && !uploading ==> fault == Some(
                PublicationError::InvalidOperationPhase {
                    expected: PublishPhase::Uploading,
                    actual: operation.phase,
                },
            )
            &&& mine && uploading && !untouched ==> fault == Some(
                PublicationError::InvalidOperationSeal { seal: "initial cursor" },
            )
        }),
{
}

/// A heartbeat on a sealed operation is refused for its owner, then its phase,
/// then for a deadline that is not later.
pub proof fn heartbeats_are_refused_for_a_cause(request: HeartbeatPublishRequest)
    requires
        seals_fault(request.expected_operation) is None,
    ensures
        ({
            let operation = request.expected_operation.record;
            let fault = heartbeat_fault(request);
            let mine = operation.initiating_owner_epoch == request.context.owner_epoch;
            let active = operation.phase == PublishPhase::Uploading || operation.phase
                == PublishPhase::Finalizing;
            &&& !mine ==> fault == Some(
                PublicationError::HeartbeatOwnerMismatch {
                    initiating: operation.initiating_owner_epoch,
                    current: request.context.owner_epoch,
                },
            )
            &&& mine && !active ==> fault == Some(
                PublicationError::HeartbeatPhase { actual: operation.phase },
            )
            &&& mine && active && request.activity_deadline_ms <= operation.activity_deadline_ms
                ==> fault == Some(
                PublicationError::ActivityDeadlineNotExtended {
                    current: operation.activity_deadline_ms,
                    requested: request.activity_deadline_ms,
                },
            )
        }),
{
}

/// A takeover by the owner itself is refused while the lease may run: until the
/// clock has reached the deadline and the greatest skew of clocks.
pub proof fn running_leases_are_not_taken_over(
    store: MetaShard,
    request: TakeOverOrphanedPublishRequest,
    clock: u64,
)
    requires
        request.expected_operation.record.phase == PublishPhase::Uploading
            || request.expected_operation.record.phase == PublishPhase::Finalizing,
        request.context.owner_epoch == request.expected_operation.record.initiating_owner_epoch,
        store.observed_clock == Some(Ok::<u64, MetaError>(clock)),
        clock < request.expected_operation.record.activity_deadline_ms,
    ensures
        takeover_halt(store, request) == Some(
            StopView::Fail(
                PublicationError::ActivityLeaseNotExpired {
                    deadline_ms: request.expected_operation.record.activity_deadline_ms,
                    lease_clock_ms: clock,
                    maximum_clock_skew_ms: request.maximum_clock_skew_ms,
                },
            ),
        ),
{
}

/// A manifest row is refused for its place, then for a key that is not its
/// owner's; a row after another also for its order and for a gap.
pub proof fn manifest_places_are_refused_for_a_cause(
    context: PublicationContext,
    operation: PublishOperationRecord,
    rows: Seq<ManifestRowInput>,
    i: int,
)
    requires
        0 <= i < rows.len(),
    ensures
        ({
            let row = rows[i].row.record;
            let placed = rows[i].object_index == operation.manifest_cursor + i;
            let keyed = row.object_key.coordinates == Some(
                ObjectCoordinates {
                    logical_shard_id: context.logical_shard_id,
                    root_id: context.root_id,
                    artifact_revision_id: row.physical_owner_revision_id,
                    object_index: row.physical_object_index,
                },
            );
            let fault = manifest_position_fault(context, operation, rows)(i);
            &&& !placed ==> fault == Some(PublicationError::ManifestPositionMismatch)
            &&& placed && !keyed ==> fault == Some(
                PublicationError::ManifestOwnershipMismatch {
                    object_index: rows[i].object_index,
                    reason: "object key does not match the canonical physical owner coordinates",
                },
            )
        }),
        i > 0 ==> {
            let (row, before) = (rows[i].row.record, rows[i - 1].row.record);
            let end = before.logical_offset + before.length;
            let fault = manifest_succession_fault(rows)(i);
            &&& rows[i - 1].object_index >= rows[i].object_index ==> fault == Some(
                PublicationError::ManifestOrder,
            )
            &&& rows[i - 1].object_index < rows[i].object_index && row.logical_offset != end
                ==> fault == Some(
                PublicationError::ManifestLogicalOffsetMismatch {
                    expected: end as u64,
                    actual: row.logical_offset,
                },
            )
        },
{
}

/// A manifest row is refused for an owner that is neither the operation nor a
/// dependency, for being a part of an object, and for a borrowed row behind one
/// of the operation's own.
pub proof fn manifest_owners_are_refused_for_a_cause(
    store: MetaShard,
    context: PublicationContext,
    operation: PublishOperationRecord,
    owners: Seq<ArtifactRevisionId>,
    previous: Option<ArtifactManifestRow>,
    input: ManifestRowInput,
)
    ensures
        ({
            let row = input.row.record;
            let own = row.physical_owner_revision_id == operation.artifact_revision_id;
            let known = own || owners.contains(row.physical_owner_revision_id);
            let after_own = previous is Some && previous.unwrap().physical_owner_revision_id
                == operation.artifact_revision_id;
            let halt = owned_row_halt(store, context, operation, owners, previous, input);
            &&& !known ==> halt == Some(
                StopView::Fail(
                    PublicationError::ManifestPhysicalOwnerMissing {
                        owner: row.physical_owner_revision_id,
                    },
                ),
            )
            &&& known && row.offset != 0 ==> halt == Some(
                StopView::Fail(
                    PublicationError::ManifestOwnershipMismatch {
                        object_index: input.object_index,
                        reason: "packed object ranges are unsupported",
                    },
                ),
            )
            &&& known && row.offset == 0 && !own && after_own ==> halt == Some(
                StopView::Fail(
                    PublicationError::ManifestOwnershipMismatch {
                        object_index: input.object_index,
                        reason: "borrowed rows cannot follow child-owned rows",
                    },
                ),
            )
        }),
{
    reveal(owned_row_halt);
}

/// A revision's references are refused for an epoch that has no next, a count
/// that has no next, and a count that has no reference to lose.
pub proof fn references_are_refused_for_a_cause(
    record: ArtifactRevisionView,
    revision: ArtifactRevisionId,
    adds: bool,
    removes: bool,
)
    ensures
        ({
            let fault = reference_fault(record, revision, adds, removes);
            let last = record.reference_epoch.value == u64::MAX;
            let full = record.strong_reference_count == u64::MAX;
            let none = record.strong_reference_count == 0;
            &&& last ==> fault == Some(PublicationError::ReferenceEpochOverflow { revision })
            &&& !last && adds && full ==> fault == Some(
                PublicationError::ReferenceCountOverflow { revision },
            )
            &&& !last && !adds && removes && none ==> fault == Some(
                PublicationError::ReferenceCountUnderflow { revision },
            )
            &&& !last && !(adds && full) && !(!adds && removes && none) ==> fault is None
        }),
{
}

/// A workspace is refused because it is not there, because it is another
/// incarnation, because it is not open to the publication, and because it has no
/// next revision.
pub proof fn workspaces_are_refused_for_a_cause(
    workspace: WorkspaceRecord,
    operation: PublishOperationRecord,
)
    ensures
        workspace_fault(None, operation) == Some(PublicationError::WorkspaceNotFound),
        workspace_fault(Some(workspace), operation) == (if workspace.incarnation_id
            != operation.workspace_incarnation_id {
            Some(PublicationError::WorkspaceIncarnationMismatch)
        } else {
            None
        }),
        commit_workspace_fault(None, operation) == Some(PublicationError::WorkspaceNotFound),
        ({
            let open = workspace.state == WorkspaceState::Visible && workspace.owning_operation_id
                is None;
            let fault = workspace_state_fault(workspace, operation);
            let full = workspace.workspace_revision.value == u64::MAX;
            &&& commit_workspace_fault(Some(workspace), operation) == (if !open
                || workspace.incarnation_id != operation.workspace_incarnation_id {
                Some(PublicationError::CommitAuthorityMismatch)
            } else {
                None
            })
            &&& match operation.authority {
                PublishAuthority::RestoreStaging { restore_operation_id } => {
                    let staged = workspace.state == WorkspaceState::Staging
                        && workspace.owning_operation_id == Some(restore_operation_id);
                    &&& !staged ==> fault == Some(PublicationError::RestoreAuthorityMismatch)
                    &&& staged && full ==> fault == Some(
                        PublicationError::WorkspaceRevisionOverflow,
                    )
                    &&& staged && !full ==> fault is None
                },
                _ => {
                    &&& !open ==> fault == Some(PublicationError::WorkspaceUnavailable)
                    &&& open && full ==> fault == Some(PublicationError::WorkspaceRevisionOverflow)
                    &&& open && !full ==> fault is None
                },
            }
        }),
{
}

/// The inputs of a finalization are refused for dependencies that are not the
/// sealed ones, for a revision that depends on itself, and for another manifest.
pub proof fn sealed_inputs_are_refused_for_a_cause(request: FinalizePublishRequest)
    ensures
        ({
            let operation = request.expected_operation.record;
            let owners = request.dependency_owner_revision_ids@;
            let unsealed = dependency_seal_fault(operation, owners);
            let itself = owners.contains(operation.artifact_revision_id);
            let fault = sealed_inputs_fault(request);
            &&& unsealed is Some ==> fault == unsealed
            &&& unsealed is None && itself ==> fault == Some(
                PublicationError::RevisionIdentityCollision,
            )
            &&& unsealed is None && !itself && request.artifact.manifest_digest_uri@ != digest_uri(
                operation.manifest_seal@,
            ) ==> fault == Some(PublicationError::ManifestDigestMismatch)
        }),
{
}

/// A revision that a publication builds on is refused because it is not there,
/// or because it is being deleted.
pub proof fn owners_are_refused_for_a_cause(
    store: MetaShard,
    context: PublicationContext,
    revision: ArtifactRevisionId,
)
    requires
        revision_halt(
            store,
            context.read_version,
            RowKeyView::ArtifactRevision { root_id: context.root_id, revision },
        ) is None,
    ensures
        ({
            let found = revision_of(
                store,
                context.read_version,
                RowKeyView::ArtifactRevision { root_id: context.root_id, revision },
            );
            available_halt(store, context, revision) == (match found {
                None => Some(StopView::Fail(PublicationError::RevisionNotFound { revision })),
                Some(record) => if record.state == RevisionState::Deleting {
                    Some(StopView::Fail(PublicationError::RevisionUnavailable { revision }))
                } else {
                    None
                },
            })
        }),
{
    reveal(available_halt);
}

/// The revision that a path shows is refused as the one that is published, and
/// for a reference that is missing or younger than the revision's own epoch.
pub proof fn shown_revisions_are_refused_for_a_cause(
    store: MetaShard,
    context: PublicationContext,
    operation: PublishOperationRecord,
    owners: Seq<ArtifactRevisionId>,
    shown: ArtifactRevisionId,
)
    requires
        owners.contains(shown) || available_halt(store, context, shown) is None,
        revision_ref_halt(
            store,
            context.read_version,
            RowKeyView::PathRevisionRef {
                root_id: context.root_id,
                incarnation: operation.workspace_incarnation_id,
                path: operation.path@,
                revision: shown,
            },
        ) is None,
    ensures
        ({
            let reference = revision_ref_of(
                store,
                context.read_version,
                RowKeyView::PathRevisionRef {
                    root_id: context.root_id,
                    incarnation: operation.workspace_incarnation_id,
                    path: operation.path@,
                    revision: shown,
                },
            );
            let epoch = revision_of(
                store,
                context.read_version,
                RowKeyView::ArtifactRevision { root_id: context.root_id, revision: shown },
            ).unwrap().reference_epoch.value;
            shown_halt(store, context, operation, owners, shown) == (if shown
                == operation.artifact_revision_id {
                Some(StopView::Fail(PublicationError::RevisionIdentityCollision))
            } else {
                match reference {
                    None => Some(StopView::Fail(PublicationError::RevisionReferenceMissing)),
                    Some(record) => if record.reference_epoch_at_add.value > epoch {
                        Some(StopView::Fail(PublicationError::RevisionReferenceEpochAhead))
                    } else {
                        None
                    },
                }
            })
        }),
{
}

/// A restore's publication is refused for a path that is no manifest's, for its
/// shape, for a restore that is missing, and for one that is not its own.
pub proof fn restores_are_refused_for_a_cause(
    store: MetaShard,
    context: PublicationContext,
    operation: PublishOperationRecord,
    restore_operation_id: OperationId,
)
    ensures
        ({
            let key = RowKeyView::Operation {
                root_id: context.root_id,
                kind: OperationKind::Restore,
                operation_id: restore_operation_id,
            };
            let halt = restore_authority_halt(store, context, operation, restore_operation_id);
            let path = operation.path@;
            let named = path == store.policy.run_manifest_path@ || path
                == store.policy.restore_manifest_path@;
            &&& !named ==> halt == Some(
                StopView::Fail(PublicationError::RestoreManifestPathRequired),
            )
            &&& named && !restore_shape(operation) ==> halt == Some(
                StopView::Fail(PublicationError::RestoreAuthorityMismatch),
            )
            &&& named && restore_shape(operation) && restore_halt(store, context.read_version, key)
                is None && restore_of(store, context.read_version, key) is None ==> halt == Some(
                StopView::Fail(PublicationError::RestoreOperationMissing),
            )
            &&& named && restore_shape(operation) && restore_of(store, context.read_version, key)
                is Some ==> halt is None || halt == restore_halt(store, context.read_version, key)
                || halt == Some(StopView::Fail(PublicationError::RestoreAuthorityMismatch))
        }),
{
    reveal(restore_authority_halt);
}

/// A commit's publication is refused for a build that is missing, and for one
/// that does not await it.
pub proof fn commits_are_refused_for_a_cause(
    store: MetaShard,
    context: PublicationContext,
    operation: PublishOperationRecord,
    commit_operation_id: OperationId,
)
    requires
        build_commit_halt(
            store,
            context.read_version,
            RowKeyView::Operation {
                root_id: context.root_id,
                kind: OperationKind::BuildCommit,
                operation_id: commit_operation_id,
            },
        ) is None,
    ensures
        ({
            let found = build_commit_of(
                store,
                context.read_version,
                RowKeyView::Operation {
                    root_id: context.root_id,
                    kind: OperationKind::BuildCommit,
                    operation_id: commit_operation_id,
                },
            );
            let halt = commit_authority_halt(store, context, operation, commit_operation_id);
            &&& found is None ==> halt == Some(
                StopView::Fail(PublicationError::CommitOperationMissing),
            )
            &&& found is Some ==> halt is None || halt == Some(
                StopView::Fail(PublicationError::CommitAuthorityMismatch),
            )
        }),
{
}

/// A verdict that the stored revision contradicts is refused with both.
pub proof fn verdicts_are_refused_for_a_cause(
    store: MetaShard,
    context: PublicationContext,
    operation: PublishOperationRecord,
    resolution: QuarantineReconcileResolution,
    draft: Draft,
)
    requires
        draft.halt is None,
        read_halt(
            store,
            context.read_version,
            RowKeyView::ArtifactRevision {
                root_id: context.root_id,
                revision: operation.artifact_revision_id,
            },
        ) is None,
    ensures
        ({
            let published = bytes_of(
                store,
                context.read_version,
                RowKeyView::ArtifactRevision {
                    root_id: context.root_id,
                    revision: operation.artifact_revision_id,
                },
            ) is Some;
            let agrees = published <==> resolution
                == QuarantineReconcileResolution::RevisionPublished;
            !agrees ==> verdict_draft(store, context, operation, resolution, draft).halt == Some(
                StopView::Fail(
                    PublicationError::ReconcileResolutionMismatch {
                        resolution,
                        revision_published: published,
                    },
                ),
            )
        }),
{
    reveal(verdict_draft);
}

/// A commit's artifact is refused as not its run manifest wherever it is not
/// one, or its one row or its one object is not there or shows something else.
pub proof fn run_manifests_are_refused_for_a_cause(
    store: MetaShard,
    request: FinalizePublishRequest,
)
    requires
        run_manifest_halt(store, request) is Some,
        manifest_row_halt(
            store,
            request.context.read_version,
            RowKeyView::ArtifactManifest {
                root_id: request.context.root_id,
                revision: request.expected_operation.record.artifact_revision_id,
                object_index: 0,
            },
        ) is None,
        staged_object_halt(
            store,
            request.context.read_version,
            RowKeyView::StagedObject {
                root_id: request.context.root_id,
                operation_id: request.expected_operation.record.operation_id,
                sequence: 0,
            },
        ) is None,
    ensures
        run_manifest_halt(store, request) == Some(
            StopView::Fail(PublicationError::CommitManifestClosureMismatch),
        ),
{
    reveal(run_manifest_halt);
}

/// A replay is answered only where the shard still stands at the version that
/// was read, before and after; any other version is refused with both.
pub proof fn replays_are_refused_for_a_cause(
    store: MetaShard,
    context: PublicationContext,
    current: ReadVersion,
)
    ensures
        store.current_version == Some(Ok::<ReadVersion, MetaError>(current))
            ==> current_version_halt(store, context, false) == (if current.value
            == context.read_version.value {
            None
        } else {
            Some(
                StopView::Fail(
                    PublicationError::Meta(
                        MetaError::WriteReadVersionMismatch {
                            requested: context.read_version.value,
                            current: current.value,
                        },
                    ),
                ),
            )
        }),
        store.current_version_again == Some(Ok::<ReadVersion, MetaError>(current))
            ==> current_version_halt(store, context, true) == (if current.value
            == context.read_version.value {
            None
        } else {
            Some(
                StopView::Fail(
                    PublicationError::Meta(
                        MetaError::WriteReadVersionMismatch {
                            requested: context.read_version.value,
                            current: current.value,
                        },
                    ),
                ),
            )
        }),
        store.current_version is None ==> current_version_halt(store, context, false) == Some(
            StopView::CurrentVersion { again: false },
        ),
        store.current_version_again is None ==> current_version_halt(store, context, true) == Some(
            StopView::CurrentVersion { again: true },
        ),
{
}

/// A digest as text names its algorithm and holds two lower-case digits for
/// every byte.
pub proof fn digest_texts_are_hexadecimal(digest: Seq<u8>, i: int)
    requires
        digest.len() == 32,
        0 <= i < 32,
    ensures
        ({
            let text = digest_uri(digest);
            let digits = "0123456789abcdef"@;
            &&& text.len() == 71
            &&& text.take(7) == "sha256:"@
            &&& text[7 + 2 * i] == digits[digest[i] as int / 16]
            &&& text[8 + 2 * i] == digits[digest[i] as int % 16]
        }),
{
    reveal_strlit("sha256:");
    lemma_hex_digits(digest, i);
    assert(digest_uri(digest).take(7) =~= "sha256:"@);
    lemma_digit((digest[i] / 16) as nat);
    lemma_digit((digest[i] % 16) as nat);
}

proof fn lemma_digit(digit: nat)
    requires
        digit < 16,
    ensures
        hex_char(digit) == "0123456789abcdef"@[digit as int],
{
    reveal_strlit("0123456789abcdef");
}

proof fn lemma_hex_digits(bytes: Seq<u8>, i: int)
    requires
        0 <= i < bytes.len(),
    ensures
        hex_text(bytes).len() == 2 * bytes.len(),
        hex_text(bytes)[2 * i] == hex_char((bytes[i] / 16) as nat),
        hex_text(bytes)[2 * i + 1] == hex_char((bytes[i] % 16) as nat),
    decreases bytes.len(),
{
    let front = bytes.drop_last();
    if front.len() > 0 {
        if i < front.len() {
            lemma_hex_digits(front, i);
        } else {
            lemma_hex_digits(front, 0);
        }
    } else {
        assert(hex_text(front) =~= Seq::<char>::empty());
    }
}

} // verus!
