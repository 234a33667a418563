use std::cell::{Cell, RefCell};
use std::collections::BTreeMap;

use nokv_meta::change_events::{
    ChangeEventKind, ChangeEventRecord, PathIndexLocatorRecord, PathIndexLocatorState,
    SecondaryIndexRecord,
};
use nokv_meta::command::{
    CommandMutation, CommandPredicate, HistoryProjection, MetadataCommand, RootFenceAction,
    SCHEMA_ID,
};
use nokv_meta::ids::{
    ArtifactRevisionId, CommandDigest, CommitId, CommitVersion, GcClaimState, Generation,
    LogicalShardId, MetadataFamily, ObjectNamespaceId, OperationId, OwnerEpoch,
    PlacementGeneration, ReadVersion, ReferenceEpoch, RequestId, RootId, WorkspaceIncarnationId,
    WorkspaceRevision, WorkspaceState, FIXED_ID_BYTES,
};
use nokv_meta::index_keys::{
    path_index_digest, path_index_generation, path_index_locator_key, secondary_index_key,
};
use nokv_meta::publication_batches::{
    MarkObjectsUploadedBatchRequest as PlanUploads, StageObjectsBatchRequest as PlanStaging,
    StagedObjectUpdate as CodedUpdate,
};
use nokv_meta::publication_digests::{
    dependency_owner_digest as owner_digest, manifest_rows_digest as coded_rows_digest,
    reconcile_evidence_digest, seal_publish_operation, sha256_digest_uri,
    staged_object_ledger_digest as coded_ledger_digest, ManifestRowInput as CodedManifestRow,
};
use nokv_meta::publication_error::{MetaError, PublicationError, QuarantineReconcileResolution};
use nokv_meta::publication_finalize::{
    finalize_outcome, FinalizePublishOutcome, FinalizePublishRequest as PlanPublication,
    PublishedArtifact,
};
use nokv_meta::publication_index_stage::{
    encode_secondary_index_stage_result, secondary_index_stage_intent_digest,
    validate_secondary_index_stage_result, IndexRow,
};
use nokv_meta::publication_lifecycle::{
    decode_operation_outcome, execution_error, BeginPlan, BeginPublishRequest as PlanBegin,
    FinishReconcileQuarantinedPublishRequest as PlanResolution,
    HeartbeatPublishRequest as PlanHeartbeat, PublishCommandOutcome,
    TakeOverOrphanedPublishRequest as PlanTakeover, TransitionPublishRequest as PlanTransition,
};
use nokv_meta::publication_manifest::StageManifestBatchRequest as PlanManifest;
use nokv_meta::publication_plan::{
    OperationKind, PlanMutation, PlanPredicate, PlannedCommand, PublicationContext, RowKey,
    RowPrefix, Stop,
};
use nokv_meta::publication_records::{
    ArtifactRevisionClaimRecord, ArtifactRevisionRecord, GcCandidateRecord, PathEntry,
    WorkspaceRecord,
};
use nokv_meta::publication_rules::MAX_PUBLICATION_BATCH_ROWS;
use nokv_meta::publication_store::{
    CommandReceipt, DecodedRow, MetaShard as Answers, PublicationPolicy,
    PublicationService as Planner, RowRead, ScannedRow, StageKeys, StoredRow,
};
use nokv_meta::publication_sweeps::{
    CleanupPublishBatchRequest as PlanCleanup,
    ReconcileQuarantinedPublishBatchRequest as PlanReconciliation,
};
use nokv_meta::publish_records::{
    AppendSegment, ArtifactManifestRow, BuildCommitOperationRecord, BuildCommitPhase, Coded,
    CommitManifestBinding, CommitManifestCondition, ManifestPosition, ObjectCoordinates, ObjectKey,
    PublishAuthority, PublishClaim, PublishOperationRecord, PublishPhase, PublishRecordError,
    PublishResult, PublishTerminalError, PublishTerminalErrorKind, PublishTransition,
    RestoreCommitProvenance, RestoreDestinationBinding, RestoreDestinationManifests,
    RestoreManifestDescriptor, RestoreManifestIdentity, RestoreManifestPublication,
    RestoreOperationRecord, RestorePhase, StagedCleanupState, StagedObjectRecord,
    StagedProviderState,
};
use nokv_meta::query_records::{
    QueryFieldId, QueryFields, QueryScalar, TypedProjection, MAX_TYPED_PROJECTION_FIELDS,
};
use nokv_meta::text::{NormalizedRelativePath, WorkbenchId, MAX_PATH_BYTES};
use sha2::{Digest, Sha256};

const TEST_BATCH_ROWS: usize = 300;
const SHA256_BYTES: usize = 32;
const RUN_MANIFEST_PATH: &str = "metadata/run_manifest";
const RESTORE_MANIFEST_PATH: &str = "metadata/restore_manifest";
const RESTORE_MANIFEST_CONTENT_TYPE: &str = "application/json";

/// A step that the phase or the progress of an operation does not allow.
const INVALID_PHASE_PAYLOAD: u64 = 1;
/// A commit that lost against another writer.
const WRITE_CONFLICT: u64 = 2;
/// A predicate that does not hold.
const PREDICATE_FAILED: u64 = 3;
/// A command of an owner that is fenced off.
const OWNER_FENCED: u64 = 4;

fn policy() -> PublicationPolicy {
    PublicationPolicy {
        run_manifest_path: RUN_MANIFEST_PATH.to_owned(),
        restore_manifest_path: RESTORE_MANIFEST_PATH.to_owned(),
        restore_manifest_content_type: RESTORE_MANIFEST_CONTENT_TYPE.to_owned(),
        max_event_bytes: 60 * 1024,
        max_staged_objects: 100_000,
        max_manifest_rows: 100_000,
    }
}

/// A value that the bench stores as bytes.
trait Field: Sized {
    fn put(&self, out: &mut Vec<u8>);
    fn take(input: &mut &[u8]) -> Self;
}

fn take_bytes<const N: usize>(input: &mut &[u8]) -> [u8; N] {
    let (head, rest) = input.split_at(N);
    *input = rest;
    head.try_into().unwrap()
}

impl Field for u8 {
    fn put(&self, out: &mut Vec<u8>) {
        out.push(*self);
    }
    fn take(input: &mut &[u8]) -> Self {
        take_bytes::<1>(input)[0]
    }
}

impl Field for bool {
    fn put(&self, out: &mut Vec<u8>) {
        out.push(u8::from(*self));
    }
    fn take(input: &mut &[u8]) -> Self {
        u8::take(input) == 1
    }
}

impl Field for u32 {
    fn put(&self, out: &mut Vec<u8>) {
        out.extend(self.to_be_bytes());
    }
    fn take(input: &mut &[u8]) -> Self {
        u32::from_be_bytes(take_bytes(input))
    }
}

impl Field for u64 {
    fn put(&self, out: &mut Vec<u8>) {
        out.extend(self.to_be_bytes());
    }
    fn take(input: &mut &[u8]) -> Self {
        u64::from_be_bytes(take_bytes(input))
    }
}

impl Field for [u8; 32] {
    fn put(&self, out: &mut Vec<u8>) {
        out.extend(self);
    }
    fn take(input: &mut &[u8]) -> Self {
        take_bytes(input)
    }
}

impl Field for String {
    fn put(&self, out: &mut Vec<u8>) {
        u32::try_from(self.len()).unwrap().put(out);
        out.extend(self.as_bytes());
    }
    fn take(input: &mut &[u8]) -> Self {
        let length = u32::take(input) as usize;
        let (head, rest) = input.split_at(length);
        *input = rest;
        String::from_utf8(head.to_vec()).unwrap()
    }
}

impl<T: Field> Field for Option<T> {
    fn put(&self, out: &mut Vec<u8>) {
        match self {
            None => out.push(0),
            Some(value) => {
                out.push(1);
                value.put(out);
            }
        }
    }
    fn take(input: &mut &[u8]) -> Self {
        match u8::take(input) {
            0 => None,
            _ => Some(T::take(input)),
        }
    }
}

impl Field for WorkbenchId {
    fn put(&self, out: &mut Vec<u8>) {
        self.text.put(out);
    }
    fn take(input: &mut &[u8]) -> Self {
        WorkbenchId::new(&String::take(input)).unwrap()
    }
}

impl Field for NormalizedRelativePath {
    fn put(&self, out: &mut Vec<u8>) {
        self.text.put(out);
    }
    fn take(input: &mut &[u8]) -> Self {
        NormalizedRelativePath::new(&String::take(input)).unwrap()
    }
}

impl Field for OperationId {
    fn put(&self, out: &mut Vec<u8>) {
        out.extend(self.as_bytes());
    }
    fn take(input: &mut &[u8]) -> Self {
        OperationId::from_bytes(take_bytes(input))
    }
}

impl Field for ArtifactRevisionId {
    fn put(&self, out: &mut Vec<u8>) {
        out.extend(self.as_bytes());
    }
    fn take(input: &mut &[u8]) -> Self {
        ArtifactRevisionId::from_bytes(take_bytes(input))
    }
}

impl Field for WorkspaceIncarnationId {
    fn put(&self, out: &mut Vec<u8>) {
        out.extend(self.as_bytes());
    }
    fn take(input: &mut &[u8]) -> Self {
        WorkspaceIncarnationId::from_bytes(take_bytes(input))
    }
}

impl Field for RootId {
    fn put(&self, out: &mut Vec<u8>) {
        out.extend(self.as_bytes());
    }
    fn take(input: &mut &[u8]) -> Self {
        RootId::from_bytes(take_bytes(input))
    }
}

impl Field for LogicalShardId {
    fn put(&self, out: &mut Vec<u8>) {
        out.extend(self.as_bytes());
    }
    fn take(input: &mut &[u8]) -> Self {
        LogicalShardId::from_bytes(take_bytes(input))
    }
}

impl Field for CommitId {
    fn put(&self, out: &mut Vec<u8>) {
        out.extend(self.as_bytes());
    }
    fn take(input: &mut &[u8]) -> Self {
        CommitId::from_bytes(take_bytes(input))
    }
}

impl Field for OwnerEpoch {
    fn put(&self, out: &mut Vec<u8>) {
        self.get().put(out);
    }
    fn take(input: &mut &[u8]) -> Self {
        OwnerEpoch::new(u64::take(input)).unwrap()
    }
}

impl Field for Generation {
    fn put(&self, out: &mut Vec<u8>) {
        self.get().put(out);
    }
    fn take(input: &mut &[u8]) -> Self {
        Generation::new(u64::take(input)).unwrap()
    }
}

impl Field for WorkspaceRevision {
    fn put(&self, out: &mut Vec<u8>) {
        self.get().put(out);
    }
    fn take(input: &mut &[u8]) -> Self {
        WorkspaceRevision::new(u64::take(input))
    }
}

impl Field for PublishPhase {
    fn put(&self, out: &mut Vec<u8>) {
        match self {
            PublishPhase::Uploading => out.push(0),
            PublishPhase::Finalizing => out.push(1),
            PublishPhase::Published => out.push(2),
            PublishPhase::Aborting => out.push(3),
            PublishPhase::Cleaning => out.push(4),
            PublishPhase::Cleaned => out.push(5),
            PublishPhase::Quarantined => out.push(6),
        }
    }
    fn take(input: &mut &[u8]) -> Self {
        match u8::take(input) {
            0 => PublishPhase::Uploading,
            1 => PublishPhase::Finalizing,
            2 => PublishPhase::Published,
            3 => PublishPhase::Aborting,
            4 => PublishPhase::Cleaning,
            5 => PublishPhase::Cleaned,
            _ => PublishPhase::Quarantined,
        }
    }
}

impl Field for PublishAuthority {
    fn put(&self, out: &mut Vec<u8>) {
        match self {
            PublishAuthority::Visible => out.push(0),
            PublishAuthority::CommitStaging { commit_operation_id } => {
                out.push(1);
                commit_operation_id.put(out);
            }
            PublishAuthority::RestoreStaging { restore_operation_id } => {
                out.push(2);
                restore_operation_id.put(out);
            }
        }
    }
    fn take(input: &mut &[u8]) -> Self {
        match u8::take(input) {
            0 => PublishAuthority::Visible,
            1 => PublishAuthority::CommitStaging {
                commit_operation_id: Field::take(input),
            },
            _ => PublishAuthority::RestoreStaging {
                restore_operation_id: Field::take(input),
            },
        }
    }
}

impl Field for PublishClaim {
    fn put(&self, out: &mut Vec<u8>) {
        match self {
            PublishClaim::CreateOnly => out.push(0),
            PublishClaim::ReplaceOnly { expected_generation } => {
                out.push(1);
                expected_generation.put(out);
            }
            PublishClaim::Append { expected_generation, base_revision_id, append_offset } => {
                out.push(2);
                expected_generation.put(out);
                base_revision_id.put(out);
                append_offset.put(out);
            }
        }
    }
    fn take(input: &mut &[u8]) -> Self {
        match u8::take(input) {
            0 => PublishClaim::CreateOnly,
            1 => PublishClaim::ReplaceOnly {
                expected_generation: Field::take(input),
            },
            _ => PublishClaim::Append {
                expected_generation: Field::take(input),
                base_revision_id: Field::take(input),
                append_offset: Field::take(input),
            },
        }
    }
}

impl Field for ManifestPosition {
    fn put(&self, out: &mut Vec<u8>) {
        self.object_index.put(out);
    }
    fn take(input: &mut &[u8]) -> Self {
        ManifestPosition {
            object_index: Field::take(input),
        }
    }
}

impl Field for PublishResult {
    fn put(&self, out: &mut Vec<u8>) {
        self.path_generation.put(out);
        self.workspace_revision.put(out);
        self.logical_size.put(out);
        self.body_digest_uri.put(out);
    }
    fn take(input: &mut &[u8]) -> Self {
        PublishResult {
            path_generation: Field::take(input),
            workspace_revision: Field::take(input),
            logical_size: Field::take(input),
            body_digest_uri: Field::take(input),
        }
    }
}

impl Field for PublishTerminalErrorKind {
    fn put(&self, out: &mut Vec<u8>) {
        match self {
            PublishTerminalErrorKind::AbortedByCaller => out.push(0),
            PublishTerminalErrorKind::ActivityLeaseExpired => out.push(1),
            PublishTerminalErrorKind::CleanupFailed => out.push(2),
            PublishTerminalErrorKind::InvariantViolation => out.push(3),
            PublishTerminalErrorKind::OperatorReconciled => out.push(4),
        }
    }
    fn take(input: &mut &[u8]) -> Self {
        match u8::take(input) {
            0 => PublishTerminalErrorKind::AbortedByCaller,
            1 => PublishTerminalErrorKind::ActivityLeaseExpired,
            2 => PublishTerminalErrorKind::CleanupFailed,
            3 => PublishTerminalErrorKind::InvariantViolation,
            _ => PublishTerminalErrorKind::OperatorReconciled,
        }
    }
}

impl Field for PublishTerminalError {
    fn put(&self, out: &mut Vec<u8>) {
        self.kind.put(out);
        self.message.put(out);
        self.evidence_digest.put(out);
    }
    fn take(input: &mut &[u8]) -> Self {
        PublishTerminalError {
            kind: Field::take(input),
            message: Field::take(input),
            evidence_digest: Field::take(input),
        }
    }
}

impl Field for PublishOperationRecord {
    fn put(&self, out: &mut Vec<u8>) {
        self.operation_id.put(out);
        self.identity_digest.put(out);
        self.initialization_digest.put(out);
        self.initiating_owner_epoch.put(out);
        self.activity_deadline_ms.put(out);
        self.authority.put(out);
        self.workbench_id.put(out);
        self.workspace_incarnation_id.put(out);
        self.path.put(out);
        self.artifact_revision_id.put(out);
        self.claim.put(out);
        self.phase.put(out);
        self.staged_object_count.put(out);
        self.staged_object_seal.put(out);
        self.staged_object_cursor.put(out);
        self.staged_object_rolling_digest.put(out);
        self.uploaded_object_cursor.put(out);
        self.uploaded_object_rolling_digest.put(out);
        self.manifest_row_count.put(out);
        self.manifest_seal.put(out);
        self.manifest_cursor.put(out);
        self.manifest_rolling_digest.put(out);
        self.manifest_last_position.put(out);
        self.dependency_count.put(out);
        self.dependency_depth.put(out);
        self.dependency_digest.put(out);
        self.cleanup_staged_object_cursor.put(out);
        self.cleanup_manifest_cursor.put(out);
        self.publication_absence_proof.put(out);
        self.result.put(out);
        self.terminal_error.put(out);
    }
    fn take(input: &mut &[u8]) -> Self {
        PublishOperationRecord {
            operation_id: Field::take(input),
            identity_digest: Field::take(input),
            initialization_digest: Field::take(input),
            initiating_owner_epoch: Field::take(input),
            activity_deadline_ms: Field::take(input),
            authority: Field::take(input),
            workbench_id: Field::take(input),
            workspace_incarnation_id: Field::take(input),
            path: Field::take(input),
            artifact_revision_id: Field::take(input),
            claim: Field::take(input),
            phase: Field::take(input),
            staged_object_count: Field::take(input),
            staged_object_seal: Field::take(input),
            staged_object_cursor: Field::take(input),
            staged_object_rolling_digest: Field::take(input),
            uploaded_object_cursor: Field::take(input),
            uploaded_object_rolling_digest: Field::take(input),
            manifest_row_count: Field::take(input),
            manifest_seal: Field::take(input),
            manifest_cursor: Field::take(input),
            manifest_rolling_digest: Field::take(input),
            manifest_last_position: Field::take(input),
            dependency_count: Field::take(input),
            dependency_depth: Field::take(input),
            dependency_digest: Field::take(input),
            cleanup_staged_object_cursor: Field::take(input),
            cleanup_manifest_cursor: Field::take(input),
            publication_absence_proof: Field::take(input),
            result: Field::take(input),
            terminal_error: Field::take(input),
        }
    }
}

impl Field for StagedProviderState {
    fn put(&self, out: &mut Vec<u8>) {
        match self {
            StagedProviderState::Planned => out.push(0),
            StagedProviderState::Uploading => out.push(1),
            StagedProviderState::Uploaded => out.push(2),
            StagedProviderState::AbortPending => out.push(3),
            StagedProviderState::Aborted => out.push(4),
            StagedProviderState::Ambiguous => out.push(5),
        }
    }
    fn take(input: &mut &[u8]) -> Self {
        match u8::take(input) {
            0 => StagedProviderState::Planned,
            1 => StagedProviderState::Uploading,
            2 => StagedProviderState::Uploaded,
            3 => StagedProviderState::AbortPending,
            4 => StagedProviderState::Aborted,
            _ => StagedProviderState::Ambiguous,
        }
    }
}

impl Field for StagedCleanupState {
    fn put(&self, out: &mut Vec<u8>) {
        match self {
            StagedCleanupState::Owned => out.push(0),
            StagedCleanupState::DeletePending => out.push(1),
            StagedCleanupState::Deleted => out.push(2),
            StagedCleanupState::Quarantined => out.push(3),
        }
    }
    fn take(input: &mut &[u8]) -> Self {
        match u8::take(input) {
            0 => StagedCleanupState::Owned,
            1 => StagedCleanupState::DeletePending,
            2 => StagedCleanupState::Deleted,
            _ => StagedCleanupState::Quarantined,
        }
    }
}

impl Field for ObjectCoordinates {
    fn put(&self, out: &mut Vec<u8>) {
        self.logical_shard_id.put(out);
        self.root_id.put(out);
        self.artifact_revision_id.put(out);
        self.object_index.put(out);
    }
    fn take(input: &mut &[u8]) -> Self {
        ObjectCoordinates {
            logical_shard_id: Field::take(input),
            root_id: Field::take(input),
            artifact_revision_id: Field::take(input),
            object_index: Field::take(input),
        }
    }
}

impl Field for ObjectKey {
    fn put(&self, out: &mut Vec<u8>) {
        self.text.put(out);
        self.coordinates.put(out);
    }
    fn take(input: &mut &[u8]) -> Self {
        ObjectKey {
            text: Field::take(input),
            coordinates: Field::take(input),
        }
    }
}

impl Field for StagedObjectRecord {
    fn put(&self, out: &mut Vec<u8>) {
        self.artifact_revision_id.put(out);
        self.object_sequence.put(out);
        self.object_key.put(out);
        self.multipart_upload_id.put(out);
        self.expected_length.put(out);
        self.expected_digest_uri.put(out);
        self.provider_state.put(out);
        self.cleanup_state.put(out);
    }
    fn take(input: &mut &[u8]) -> Self {
        StagedObjectRecord {
            artifact_revision_id: Field::take(input),
            object_sequence: Field::take(input),
            object_key: Field::take(input),
            multipart_upload_id: Field::take(input),
            expected_length: Field::take(input),
            expected_digest_uri: Field::take(input),
            provider_state: Field::take(input),
            cleanup_state: Field::take(input),
        }
    }
}

impl Field for AppendSegment {
    fn put(&self, out: &mut Vec<u8>) {
        self.segment_sequence.put(out);
        self.segment_offset.put(out);
    }
    fn take(input: &mut &[u8]) -> Self {
        AppendSegment {
            segment_sequence: Field::take(input),
            segment_offset: Field::take(input),
        }
    }
}

impl Field for ArtifactManifestRow {
    fn put(&self, out: &mut Vec<u8>) {
        self.physical_owner_revision_id.put(out);
        self.physical_object_index.put(out);
        self.object_key.put(out);
        self.logical_offset.put(out);
        self.offset.put(out);
        self.length.put(out);
        self.digest_uri.put(out);
        self.append_segment.put(out);
    }
    fn take(input: &mut &[u8]) -> Self {
        ArtifactManifestRow {
            physical_owner_revision_id: Field::take(input),
            physical_object_index: Field::take(input),
            object_key: Field::take(input),
            logical_offset: Field::take(input),
            offset: Field::take(input),
            length: Field::take(input),
            digest_uri: Field::take(input),
            append_segment: Field::take(input),
        }
    }
}

impl Field for RestorePhase {
    fn put(&self, out: &mut Vec<u8>) {
        match self {
            RestorePhase::SourceSealed => out.push(0),
            RestorePhase::DestinationBuilding => out.push(1),
            RestorePhase::DestinationSealing => out.push(2),
            RestorePhase::Ready => out.push(3),
            RestorePhase::Complete => out.push(4),
            RestorePhase::Aborting => out.push(5),
            RestorePhase::Cleaning => out.push(6),
            RestorePhase::Other => out.push(7),
        }
    }
    fn take(input: &mut &[u8]) -> Self {
        match u8::take(input) {
            0 => RestorePhase::SourceSealed,
            1 => RestorePhase::DestinationBuilding,
            2 => RestorePhase::DestinationSealing,
            3 => RestorePhase::Ready,
            4 => RestorePhase::Complete,
            5 => RestorePhase::Aborting,
            6 => RestorePhase::Cleaning,
            _ => RestorePhase::Other,
        }
    }
}

impl Field for RestoreManifestIdentity {
    fn put(&self, out: &mut Vec<u8>) {
        self.publication_operation_id.put(out);
        self.artifact_revision_id.put(out);
    }
    fn take(input: &mut &[u8]) -> Self {
        RestoreManifestIdentity {
            publication_operation_id: Field::take(input),
            artifact_revision_id: Field::take(input),
        }
    }
}

impl Field for RestoreManifestPublication {
    fn put(&self, out: &mut Vec<u8>) {
        self.publication_operation_id.put(out);
        self.workspace_incarnation_id.put(out);
        self.artifact_revision_id.put(out);
        self.body_digest_uri.put(out);
        self.manifest_digest_uri.put(out);
        self.logical_size.put(out);
        self.content_type.put(out);
    }
    fn take(input: &mut &[u8]) -> Self {
        RestoreManifestPublication {
            publication_operation_id: Field::take(input),
            workspace_incarnation_id: Field::take(input),
            artifact_revision_id: Field::take(input),
            body_digest_uri: Field::take(input),
            manifest_digest_uri: Field::take(input),
            logical_size: Field::take(input),
            content_type: Field::take(input),
        }
    }
}

impl Field for RestoreDestinationManifests {
    fn put(&self, out: &mut Vec<u8>) {
        self.run_manifest.put(out);
        self.restore_manifest.put(out);
    }
    fn take(input: &mut &[u8]) -> Self {
        RestoreDestinationManifests {
            run_manifest: Field::take(input),
            restore_manifest: Field::take(input),
        }
    }
}

impl Field for RestoreDestinationBinding {
    fn put(&self, out: &mut Vec<u8>) {
        self.run_manifest_identity.put(out);
        self.restore_manifest_identity.put(out);
        self.manifests.put(out);
    }
    fn take(input: &mut &[u8]) -> Self {
        RestoreDestinationBinding {
            run_manifest_identity: Field::take(input),
            restore_manifest_identity: Field::take(input),
            manifests: Field::take(input),
        }
    }
}

impl Field for RestoreCommitProvenance {
    fn put(&self, out: &mut Vec<u8>) {
        match self {
            RestoreCommitProvenance::V5 { destination_binding } => {
                out.push(0);
                destination_binding.put(out);
            }
            RestoreCommitProvenance::Other => out.push(1),
        }
    }
    fn take(input: &mut &[u8]) -> Self {
        match u8::take(input) {
            0 => RestoreCommitProvenance::V5 {
                destination_binding: Field::take(input),
            },
            _ => RestoreCommitProvenance::Other,
        }
    }
}

impl Field for RestoreManifestDescriptor {
    fn put(&self, out: &mut Vec<u8>) {
        self.body_digest_uri.put(out);
        self.logical_size.put(out);
        self.content_type.put(out);
    }
    fn take(input: &mut &[u8]) -> Self {
        RestoreManifestDescriptor {
            body_digest_uri: Field::take(input),
            logical_size: Field::take(input),
            content_type: Field::take(input),
        }
    }
}

impl Field for RestoreOperationRecord {
    fn put(&self, out: &mut Vec<u8>) {
        self.operation_id.put(out);
        self.destination_workbench_id.put(out);
        self.destination_workspace_incarnation_id.put(out);
        self.restore_manifest.put(out);
        self.commit_provenance.put(out);
        self.phase.put(out);
    }
    fn take(input: &mut &[u8]) -> Self {
        RestoreOperationRecord {
            operation_id: Field::take(input),
            destination_workbench_id: Field::take(input),
            destination_workspace_incarnation_id: Field::take(input),
            restore_manifest: Field::take(input),
            commit_provenance: Field::take(input),
            phase: Field::take(input),
        }
    }
}

impl Field for BuildCommitPhase {
    fn put(&self, out: &mut Vec<u8>) {
        match self {
            BuildCommitPhase::Building => out.push(0),
            BuildCommitPhase::Complete => out.push(1),
            BuildCommitPhase::Other => out.push(2),
        }
    }
    fn take(input: &mut &[u8]) -> Self {
        match u8::take(input) {
            0 => BuildCommitPhase::Building,
            1 => BuildCommitPhase::Complete,
            _ => BuildCommitPhase::Other,
        }
    }
}

impl Field for CommitManifestCondition {
    fn put(&self, out: &mut Vec<u8>) {
        match self {
            CommitManifestCondition::CreateOnly => out.push(0),
            CommitManifestCondition::ReplaceOnly { expected_generation } => {
                out.push(1);
                expected_generation.put(out);
            }
        }
    }
    fn take(input: &mut &[u8]) -> Self {
        match u8::take(input) {
            0 => CommitManifestCondition::CreateOnly,
            _ => CommitManifestCondition::ReplaceOnly {
                expected_generation: Field::take(input),
            },
        }
    }
}

impl Field for CommitManifestBinding {
    fn put(&self, out: &mut Vec<u8>) {
        self.logical_size.put(out);
        self.body_digest_uri.put(out);
        self.manifest_digest_uri.put(out);
        self.content_type.put(out);
    }
    fn take(input: &mut &[u8]) -> Self {
        CommitManifestBinding {
            logical_size: Field::take(input),
            body_digest_uri: Field::take(input),
            manifest_digest_uri: Field::take(input),
            content_type: Field::take(input),
        }
    }
}

impl Field for BuildCommitOperationRecord {
    fn put(&self, out: &mut Vec<u8>) {
        self.operation_id.put(out);
        self.commit_id.put(out);
        self.workbench_id.put(out);
        self.source_workspace_incarnation_id.put(out);
        self.tree_manifest_revision_id.put(out);
        self.run_manifest_condition.put(out);
        self.commit_staged_run_manifest.put(out);
        self.phase.put(out);
        self.member_count.put(out);
        self.has_member_cursor.put(out);
        self.revision_ref_count.put(out);
    }
    fn take(input: &mut &[u8]) -> Self {
        BuildCommitOperationRecord {
            operation_id: Field::take(input),
            commit_id: Field::take(input),
            workbench_id: Field::take(input),
            source_workspace_incarnation_id: Field::take(input),
            tree_manifest_revision_id: Field::take(input),
            run_manifest_condition: Field::take(input),
            commit_staged_run_manifest: Field::take(input),
            phase: Field::take(input),
            member_count: Field::take(input),
            has_member_cursor: Field::take(input),
            revision_ref_count: Field::take(input),
        }
    }
}

/// The bench's own codec of operations and staging rows.
trait Stored: Sized {
    fn encode(&self) -> Result<Vec<u8>, PublishRecordError>;
    fn decode(payload: &[u8]) -> Result<Self, PublishRecordError>;
}

impl<T: Field> Stored for T {
    fn encode(&self) -> Result<Vec<u8>, PublishRecordError> {
        let mut out = Vec::new();
        self.put(&mut out);
        Ok(out)
    }
    fn decode(payload: &[u8]) -> Result<Self, PublishRecordError> {
        let mut input = payload;
        Ok(T::take(&mut input))
    }
}

fn coded<T: Field>(record: T) -> Coded<T> {
    let payload = record.encode();
    Coded {
        record,
        validity: None,
        payload,
    }
}

const INVALID_STEP: PublishRecordError = PublishRecordError {
    ticket: INVALID_PHASE_PAYLOAD,
};

/// The life of a publish operation.
trait OperationLife: Sized {
    fn has_complete_publication_closure(&self) -> bool;
    fn swept(&self) -> bool;
    fn validate(&self) -> Result<(), PublishRecordError>;
    fn apply(&self, transition: PublishTransition) -> Result<Self, PublishRecordError>;
}

impl OperationLife for PublishOperationRecord {
    fn has_complete_publication_closure(&self) -> bool {
        self.staged_object_cursor == self.staged_object_count
            && self.staged_object_rolling_digest == self.staged_object_seal
            && self.uploaded_object_cursor == self.staged_object_count
            && self.manifest_cursor == self.manifest_row_count
            && self.manifest_rolling_digest == self.manifest_seal
    }

    fn swept(&self) -> bool {
        self.cleanup_staged_object_cursor == self.staged_object_cursor
            && self.cleanup_manifest_cursor == self.manifest_cursor
    }

    fn validate(&self) -> Result<(), PublishRecordError> {
        let failed = matches!(
            self.phase,
            PublishPhase::Aborting
                | PublishPhase::Cleaning
                | PublishPhase::Cleaned
                | PublishPhase::Quarantined
        );
        if failed == self.terminal_error.is_some()
            && (self.phase == PublishPhase::Published) == self.result.is_some()
        {
            Ok(())
        } else {
            Err(INVALID_STEP)
        }
    }

    fn apply(&self, transition: PublishTransition) -> Result<Self, PublishRecordError> {
        let mut next = self.clone();
        match (self.phase, transition) {
            (PublishPhase::Uploading, PublishTransition::BeginFinalization)
                if self.has_complete_publication_closure() =>
            {
                next.phase = PublishPhase::Finalizing;
            }
            (PublishPhase::Finalizing, PublishTransition::Publish { result }) => {
                next.phase = PublishPhase::Published;
                next.result = Some(result);
            }
            (PublishPhase::Uploading, PublishTransition::BeginAbort { terminal_error }) => {
                next.phase = PublishPhase::Aborting;
                next.terminal_error = Some(terminal_error);
            }
            (PublishPhase::Aborting, PublishTransition::BeginCleaning) => {
                next.phase = PublishPhase::Cleaning;
            }
            (PublishPhase::Cleaning, PublishTransition::FinishCleanup) if self.swept() => {
                next.phase = PublishPhase::Cleaned;
            }
            (PublishPhase::Cleaning, PublishTransition::Quarantine { terminal_error }) => {
                next.phase = PublishPhase::Quarantined;
                next.terminal_error = Some(terminal_error);
            }
            _ => return Err(INVALID_STEP),
        }
        Ok(next)
    }
}

/// Why a restore ended, as its owner would put it.
struct RestoreTerminalError {
    message: String,
}

/// A step of a restore.
enum RestoreTransition {
    BeginDestinationBuilding {
        manifests: RestoreDestinationManifests,
    },
    BeginAbort {
        terminal_error: RestoreTerminalError,
    },
    BeginCleaning,
    FinishCleanup,
}

/// The life of a restore operation.
trait RestoreLife: Sized {
    fn validate(&self) -> Result<(), PublishRecordError>;
    fn apply(
        &self,
        expected: RestorePhase,
        transition: RestoreTransition,
    ) -> Result<Self, PublishRecordError>;
}

impl RestoreLife for RestoreOperationRecord {
    fn validate(&self) -> Result<(), PublishRecordError> {
        if self.restore_manifest.content_type == RESTORE_MANIFEST_CONTENT_TYPE {
            Ok(())
        } else {
            Err(INVALID_STEP)
        }
    }

    fn apply(
        &self,
        expected: RestorePhase,
        transition: RestoreTransition,
    ) -> Result<Self, PublishRecordError> {
        if self.phase != expected {
            return Err(INVALID_STEP);
        }
        let mut next = self.clone();
        match transition {
            RestoreTransition::BeginDestinationBuilding { manifests } => {
                let RestoreCommitProvenance::V5 {
                    destination_binding: Some(binding),
                } = &mut next.commit_provenance
                else {
                    return Err(INVALID_STEP);
                };
                binding.manifests = Some(manifests);
                next.phase = RestorePhase::DestinationBuilding;
            }
            RestoreTransition::BeginAbort { terminal_error } => {
                assert!(!terminal_error.message.is_empty());
                next.phase = RestorePhase::Aborting;
            }
            RestoreTransition::BeginCleaning => next.phase = RestorePhase::Cleaning,
            RestoreTransition::FinishCleanup => next.phase = RestorePhase::Other,
        }
        Ok(next)
    }
}

/// The bytes of a row key.
fn lower(key: &RowKey) -> Vec<u8> {
    let mut out = Vec::new();
    match key {
        RowKey::Operation {
            root_id,
            kind,
            operation_id,
        } => {
            out.extend(root_id.as_bytes());
            out.push(match kind {
                OperationKind::Publish => 1,
                OperationKind::Restore => 2,
                OperationKind::BuildCommit => 3,
            });
            out.extend(operation_id.as_bytes());
        }
        RowKey::ArtifactRevisionClaim { root_id, revision } => {
            out.extend(root_id.as_bytes());
            out.extend(revision.as_bytes());
            out.extend(b"claim");
        }
        RowKey::ArtifactRevision { root_id, revision } => {
            out.extend(root_id.as_bytes());
            out.extend(revision.as_bytes());
        }
        RowKey::StagedObject {
            root_id,
            operation_id,
            sequence,
        } => {
            out.extend(root_id.as_bytes());
            out.extend(operation_id.as_bytes());
            out.extend(sequence.to_be_bytes());
        }
        RowKey::ArtifactManifest {
            root_id,
            revision,
            object_index,
        } => {
            out.extend(root_id.as_bytes());
            out.extend(revision.as_bytes());
            out.extend(object_index.to_be_bytes());
        }
        RowKey::PathCurrent {
            root_id,
            incarnation,
            path,
        } => {
            out.extend(root_id.as_bytes());
            out.extend(incarnation.as_bytes());
            out.extend(path.as_bytes());
        }
        RowKey::WorkspaceCurrent {
            root_id,
            workbench_id,
        } => {
            out.extend(root_id.as_bytes());
            out.extend(workbench_id.as_bytes());
        }
        RowKey::PathRevisionRef {
            root_id,
            incarnation,
            path,
            revision,
        } => {
            out.extend(root_id.as_bytes());
            out.extend(revision.as_bytes());
            out.push(1);
            out.extend(incarnation.as_bytes());
            out.extend(path.as_bytes());
        }
        RowKey::DependencyRef {
            root_id,
            revision,
            dependency,
        } => {
            out.extend(root_id.as_bytes());
            out.extend(dependency.as_bytes());
            out.push(2);
            out.extend(revision.as_bytes());
        }
        RowKey::CommitRef {
            root_id,
            commit_id,
            revision,
        } => {
            out.extend(root_id.as_bytes());
            out.extend(revision.as_bytes());
            out.push(3);
            out.extend(commit_id.as_bytes());
        }
        RowKey::GcCandidate {
            root_id,
            revision,
            epoch,
        } => {
            out.extend(root_id.as_bytes());
            out.extend(revision.as_bytes());
            out.extend(epoch.get().to_be_bytes());
        }
        RowKey::Raw { key, .. } => out.extend(key),
    }
    out
}

fn lower_prefix(prefix: &RowPrefix) -> (MetadataFamily, Vec<u8>) {
    match prefix {
        RowPrefix::StagedObjects {
            root_id,
            operation_id,
        } => (
            MetadataFamily::StagedObject,
            staged_object_prefix(*root_id, *operation_id),
        ),
        RowPrefix::ArtifactManifest { root_id, revision } => (
            MetadataFamily::ArtifactManifest,
            artifact_manifest_prefix(*root_id, *revision),
        ),
    }
}

fn operation_key(root_id: RootId, kind: OperationKind, operation_id: OperationId) -> Vec<u8> {
    lower(&RowKey::Operation {
        root_id,
        kind,
        operation_id,
    })
}

fn artifact_revision_key(root_id: RootId, revision: ArtifactRevisionId) -> Vec<u8> {
    lower(&RowKey::ArtifactRevision { root_id, revision })
}

fn artifact_revision_claim_key(root_id: RootId, revision: ArtifactRevisionId) -> Vec<u8> {
    lower(&RowKey::ArtifactRevisionClaim { root_id, revision })
}

fn staged_object_key(root_id: RootId, operation_id: OperationId, sequence: u64) -> Vec<u8> {
    lower(&RowKey::StagedObject {
        root_id,
        operation_id,
        sequence,
    })
}

fn staged_object_prefix(root_id: RootId, operation_id: OperationId) -> Vec<u8> {
    [root_id.as_bytes(), operation_id.as_bytes()].concat()
}

fn artifact_manifest_key(
    root_id: RootId,
    revision: ArtifactRevisionId,
    object_index: u64,
) -> Vec<u8> {
    lower(&RowKey::ArtifactManifest {
        root_id,
        revision,
        object_index,
    })
}

fn artifact_manifest_prefix(root_id: RootId, revision: ArtifactRevisionId) -> Vec<u8> {
    [root_id.as_bytes(), revision.as_bytes()].concat()
}

fn path_current_key(
    root_id: RootId,
    incarnation: WorkspaceIncarnationId,
    path: &NormalizedRelativePath,
) -> Vec<u8> {
    lower(&RowKey::PathCurrent {
        root_id,
        incarnation,
        path: path.clone(),
    })
}

fn workspace_current_key(root_id: RootId, workbench_id: &WorkbenchId) -> Vec<u8> {
    lower(&RowKey::WorkspaceCurrent {
        root_id,
        workbench_id: workbench_id.clone(),
    })
}

fn gc_candidate_key(
    root_id: RootId,
    revision: ArtifactRevisionId,
    epoch: ReferenceEpoch,
) -> Vec<u8> {
    lower(&RowKey::GcCandidate {
        root_id,
        revision,
        epoch,
    })
}

fn object_block_key(
    logical_shard_id: LogicalShardId,
    root_id: RootId,
    artifact_revision_id: ArtifactRevisionId,
    object_index: u64,
) -> ObjectKey {
    ObjectKey {
        text: format!(
            "{:032x}/{:032x}/{:032x}/{object_index:016x}",
            u128::from_be_bytes(logical_shard_id.as_bytes()),
            u128::from_be_bytes(root_id.as_bytes()),
            u128::from_be_bytes(artifact_revision_id.as_bytes()),
        ),
        coordinates: Some(ObjectCoordinates {
            logical_shard_id,
            root_id,
            artifact_revision_id,
            object_index,
        }),
    }
}

type Rows = BTreeMap<(u8, Vec<u8>), Vec<u8>>;

/// A metadata shard in memory that keeps every version of its rows.
struct MetaShard {
    versions: RefCell<Vec<Rows>>,
    receipts: RefCell<BTreeMap<[u8; FIXED_ID_BYTES], CommandReceipt>>,
    clock: Cell<u64>,
    owner: Cell<u64>,
    /// How many commits will still succeed before one fails.
    commits_before_failure: Cell<Option<u32>>,
}

impl MetaShard {
    fn empty() -> MetaShard {
        MetaShard {
            versions: RefCell::new(vec![Rows::new()]),
            receipts: RefCell::new(BTreeMap::new()),
            clock: Cell::new(0),
            owner: Cell::new(1),
            commits_before_failure: Cell::new(None),
        }
    }

    /// The shard as another process finds it.
    fn reopen(self) -> MetaShard {
        MetaShard {
            versions: self.versions,
            receipts: self.receipts,
            ..MetaShard::empty()
        }
    }

    /// Lets one more commit succeed and the next one fail.
    fn arm(&self) {
        self.commits_before_failure.set(Some(1));
    }

    fn current_read_version(&self) -> Result<ReadVersion, MetaError> {
        Ok(ReadVersion::new(self.versions.borrow().len() as u64).unwrap())
    }

    fn recovery_state(&self) -> Result<usize, MetaError> {
        Ok(self.receipts.borrow().len())
    }

    fn advance_owner_epoch(
        &self,
        expected: Option<OwnerEpoch>,
        next: OwnerEpoch,
    ) -> Result<(), MetaError> {
        if let Some(expected) = expected {
            assert_eq!(self.owner.get(), expected.get());
        }
        self.owner.set(next.get());
        Ok(())
    }

    fn row(&self, version: ReadVersion, family: MetadataFamily, key: &[u8]) -> Option<Vec<u8>> {
        self.versions.borrow()[version.get() as usize - 1]
            .get(&(family.format_tag(), key.to_vec()))
            .cloned()
    }

    fn read_at(
        &self,
        _root: RootId,
        _placement: PlacementGeneration,
        _owner: OwnerEpoch,
        family: MetadataFamily,
        key: &[u8],
        version: ReadVersion,
    ) -> Result<Option<Vec<u8>>, MetaError> {
        Ok(self.row(version, family, key))
    }

    fn scan(
        &self,
        version: ReadVersion,
        family: MetadataFamily,
        prefix: &[u8],
        limit: usize,
    ) -> Vec<ScannedRow> {
        self.versions.borrow()[version.get() as usize - 1]
            .iter()
            .filter(|((tag, key), _)| *tag == family.format_tag() && key.starts_with(prefix))
            .take(limit)
            .map(|((_, key), value)| ScannedRow {
                key: key.clone(),
                value: value.clone(),
            })
            .collect()
    }

    fn commit(
        &self,
        request_id: RequestId,
        read_version: ReadVersion,
        owner_epoch: OwnerEpoch,
        predicates: &[CommandPredicate],
        mutations: &[CommandMutation],
        deterministic_result: &[u8],
    ) -> Result<CommandReceipt, MetaError> {
        if let Some(receipt) = self.receipts.borrow().get(&request_id.as_bytes()) {
            return Ok(CommandReceipt {
                replayed: true,
                ..receipt.clone()
            });
        }
        let current = self.versions.borrow().len() as u64;
        if read_version.get() != current {
            return Err(MetaError::WriteReadVersionMismatch {
                requested: read_version.get(),
                current,
            });
        }
        if owner_epoch.get() != self.owner.get() {
            return Err(MetaError::Other {
                ticket: OWNER_FENCED,
            });
        }
        match self.commits_before_failure.get() {
            Some(0) => {
                self.commits_before_failure.set(None);
                return Err(MetaError::Other {
                    ticket: WRITE_CONFLICT,
                });
            }
            Some(left) => self.commits_before_failure.set(Some(left - 1)),
            None => {}
        }
        for predicate in predicates {
            let holds = match predicate {
                CommandPredicate::Value {
                    family,
                    key,
                    expected,
                } => self.row(read_version, *family, key) == *expected,
                CommandPredicate::PrefixEmpty { family, prefix } => {
                    self.scan(read_version, *family, prefix, 1).is_empty()
                }
            };
            if !holds {
                return Err(MetaError::Other {
                    ticket: PREDICATE_FAILED,
                });
            }
        }
        let mut rows = self.versions.borrow().last().unwrap().clone();
        for mutation in mutations {
            match mutation {
                CommandMutation::Put { family, key, value } => {
                    rows.insert((family.format_tag(), key.clone()), value.clone());
                }
                CommandMutation::Delete { family, key } => {
                    rows.remove(&(family.format_tag(), key.clone()));
                }
            }
        }
        self.versions.borrow_mut().push(rows);
        let receipt = CommandReceipt {
            commit_version: CommitVersion::new(current + 1).unwrap(),
            deterministic_result: deterministic_result.to_vec(),
            replayed: false,
        };
        self.receipts
            .borrow_mut()
            .insert(request_id.as_bytes(), receipt.clone());
        Ok(receipt)
    }

    fn execute(&self, command: &MetadataCommand) -> Result<CommandReceipt, MetaError> {
        self.commit(
            command.request_id,
            command.read_version,
            command.owner_epoch,
            &command.predicates,
            &command.mutations,
            &command.deterministic_result,
        )
    }

    fn run(&self, command: &PlannedCommand) -> Result<CommandReceipt, MetaError> {
        if let Some(deadline) = command.lease_deadline_ms {
            if deadline <= self.clock.get() {
                return Err(MetaError::LeaseDeadlineReached {
                    lease_clock_ms: self.clock.get(),
                    requested_deadline_ms: deadline,
                });
            }
        }
        let predicates = command
            .plan
            .predicates
            .iter()
            .map(|predicate| match predicate {
                PlanPredicate::Value { key, expected } => CommandPredicate::Value {
                    family: key.family(),
                    key: lower(key),
                    expected: expected.clone(),
                },
                PlanPredicate::PrefixEmpty { prefix } => {
                    let (family, prefix) = lower_prefix(prefix);
                    CommandPredicate::PrefixEmpty { family, prefix }
                }
            })
            .collect::<Vec<_>>();
        let mutations = command
            .plan
            .mutations
            .iter()
            .map(|mutation| match mutation {
                PlanMutation::Put { key, value } => CommandMutation::Put {
                    family: key.family(),
                    key: lower(key),
                    value: value.clone(),
                },
                PlanMutation::Delete { key } => CommandMutation::Delete {
                    family: key.family(),
                    key: lower(key),
                },
            })
            .collect::<Vec<_>>();
        self.commit(
            command.context.request_id,
            command.context.read_version,
            command.context.owner_epoch,
            &predicates,
            &mutations,
            &command.deterministic_result,
        )
    }

    fn answer(&self, version: ReadVersion, key: RowKey) -> RowRead {
        let row = self.row(version, key.family(), &lower(&key)).map(|payload| {
            let decoded = match &key {
                RowKey::Operation { kind, .. } => match kind {
                    OperationKind::Publish => {
                        DecodedRow::Publish(PublishOperationRecord::decode(&payload))
                    }
                    OperationKind::Restore => {
                        DecodedRow::Restore(Ok(RestoreOperationRecord::decode(&payload).unwrap()))
                    }
                    OperationKind::BuildCommit => DecodedRow::BuildCommit(Ok(
                        BuildCommitOperationRecord::decode(&payload).unwrap(),
                    )),
                },
                RowKey::StagedObject { .. } => {
                    DecodedRow::StagedObject(StagedObjectRecord::decode(&payload))
                }
                RowKey::ArtifactManifest { .. } => {
                    DecodedRow::ManifestRow(ArtifactManifestRow::decode(&payload))
                }
                _ => DecodedRow::Plain,
            };
            StoredRow { payload, decoded }
        });
        RowRead {
            version,
            key,
            answer: Ok(row),
        }
    }
}

#[derive(Clone)]
struct BeginPublishRequest {
    context: PublicationContext,
    operation: PublishOperationRecord,
}

#[derive(Clone)]
struct TransitionPublishRequest {
    context: PublicationContext,
    expected_operation: PublishOperationRecord,
    transition: PublishTransition,
}

#[derive(Clone)]
struct HeartbeatPublishRequest {
    context: PublicationContext,
    expected_operation: PublishOperationRecord,
    activity_deadline_ms: u64,
}

#[derive(Clone)]
struct TakeOverOrphanedPublishRequest {
    context: PublicationContext,
    expected_operation: PublishOperationRecord,
    observed_now_ms: u64,
    maximum_clock_skew_ms: u64,
    terminal_error: PublishTerminalError,
}

#[derive(Clone)]
struct FinishReconcileQuarantinedPublishRequest {
    context: PublicationContext,
    expected_operation: PublishOperationRecord,
    resolution: QuarantineReconcileResolution,
    reason: String,
    operator_evidence_digest: [u8; SHA256_BYTES],
}

#[derive(Clone)]
struct StagedObjectUpdate {
    expected: StagedObjectRecord,
    next: StagedObjectRecord,
}

#[derive(Clone)]
struct StageObjectsBatchRequest {
    context: PublicationContext,
    expected_operation: PublishOperationRecord,
    staged_objects: Vec<StagedObjectRecord>,
}

#[derive(Clone)]
struct MarkObjectsUploadedBatchRequest {
    context: PublicationContext,
    expected_operation: PublishOperationRecord,
    staged_object_updates: Vec<StagedObjectUpdate>,
}

#[derive(Clone, Debug)]
struct ManifestRowInput {
    object_index: u64,
    row: ArtifactManifestRow,
}

#[derive(Clone)]
struct StageManifestBatchRequest {
    context: PublicationContext,
    expected_operation: PublishOperationRecord,
    manifest_rows: Vec<ManifestRowInput>,
    dependency_owner_revision_ids: Vec<ArtifactRevisionId>,
}

#[derive(Clone)]
struct CleanupPublishBatchRequest {
    context: PublicationContext,
    expected_operation: PublishOperationRecord,
    staged_object_updates: Vec<StagedObjectUpdate>,
}

#[derive(Clone)]
struct ReconcileQuarantinedPublishBatchRequest {
    context: PublicationContext,
    expected_operation: PublishOperationRecord,
    resolution: QuarantineReconcileResolution,
    staged_object_rows: Vec<StagedObjectRecord>,
}

#[derive(Clone)]
struct FinalizePublishRequest {
    context: PublicationContext,
    expected_operation: PublishOperationRecord,
    artifact: PublishedArtifact,
    dependency_owner_revision_ids: Vec<ArtifactRevisionId>,
}

fn coded_rows(rows: &[ManifestRowInput]) -> Vec<CodedManifestRow> {
    rows.iter()
        .map(|input| CodedManifestRow {
            object_index: input.object_index,
            row: coded(input.row.clone()),
        })
        .collect()
}

fn coded_updates(updates: Vec<StagedObjectUpdate>) -> Vec<CodedUpdate> {
    updates
        .into_iter()
        .map(|update| CodedUpdate {
            expected: coded(update.expected),
            next: coded(update.next),
        })
        .collect()
}

fn staged_object_ledger_digest(
    staged: &[StagedObjectRecord],
) -> Result<[u8; SHA256_BYTES], PublicationError> {
    let rows = staged.iter().cloned().map(coded).collect::<Vec<_>>();
    coded_ledger_digest(&rows, policy().max_staged_objects)
}

fn manifest_rows_digest(
    rows: &[ManifestRowInput],
) -> Result<[u8; SHA256_BYTES], PublicationError> {
    coded_rows_digest(&coded_rows(rows), policy().max_manifest_rows)
}

fn dependency_owner_digest(
    owners: &[ArtifactRevisionId],
) -> Result<[u8; SHA256_BYTES], PublicationError> {
    owner_digest(&owners.to_vec())
}

/// Runs the publication planner against a shard: answers its questions, and
/// executes what it plans.
struct PublicationService<'a> {
    store: &'a MetaShard,
}

impl<'a> PublicationService<'a> {
    fn new(store: &'a MetaShard) -> Self {
        PublicationService { store }
    }

    fn drive<P>(
        &self,
        plan: impl Fn(Planner<'_>) -> Result<P, Stop>,
    ) -> Result<P, PublicationError> {
        let mut answers = Answers {
            policy: policy(),
            reads: Vec::new(),
            lease_clock: None,
            current_version: None,
            current_version_again: None,
            observed_clock: None,
            scanned: None,
            stage_keys: None,
            request_result: None,
            executed: None,
            next_payload: None,
            transitioned: None,
            commit_payload: None,
        };
        loop {
            let stop = match plan(Planner::new(&answers)) {
                Ok(planned) => return Ok(planned),
                Err(stop) => stop,
            };
            match stop {
                Stop::Fail(error) => return Err(error),
                Stop::Read { version, key } => {
                    for near in neighbours(key) {
                        answers.reads.push(self.store.answer(version, near));
                    }
                }
                Stop::LeaseClock => answers.lease_clock = Some(Ok(self.store.clock.get())),
                Stop::CurrentVersion { again } => {
                    let current = Some(self.store.current_read_version());
                    if again {
                        answers.current_version_again = current;
                    } else {
                        answers.current_version = current;
                    }
                }
                Stop::ObserveClock { now_ms } => {
                    self.store.clock.set(self.store.clock.get().max(now_ms));
                    answers.observed_clock = Some(Ok(self.store.clock.get()));
                }
                Stop::ScanManifest {
                    version,
                    revision,
                    limit,
                } => {
                    answers.scanned = Some(Ok(self.store.scan(
                        version,
                        MetadataFamily::ArtifactManifest,
                        &artifact_manifest_prefix(root(), revision),
                        limit,
                    )));
                }
                Stop::RequestResult { request_id } => {
                    let receipt = self
                        .store
                        .receipts
                        .borrow()
                        .get(&request_id.as_bytes())
                        .map(|receipt| CommandReceipt {
                            replayed: true,
                            ..receipt.clone()
                        });
                    answers.request_result = Some(Ok(receipt));
                }
                Stop::Encode { operation } => answers.next_payload = Some(operation.encode()),
                Stop::Transition {
                    operation,
                    transition,
                } => answers.transitioned = Some(operation.apply(transition)),
                Stop::TakeOver {
                    operation,
                    proof,
                    terminal_error,
                } => {
                    let mut next = operation;
                    next.phase = PublishPhase::Aborting;
                    next.publication_absence_proof = Some(proof);
                    next.terminal_error = Some(terminal_error);
                    answers.transitioned = Some(Ok(next));
                }
                Stop::Reconcile {
                    operation,
                    terminal_error,
                } => {
                    answers.transitioned = Some(if operation.swept() {
                        let mut next = operation;
                        next.phase = PublishPhase::Cleaned;
                        next.terminal_error = Some(terminal_error);
                        Ok(next)
                    } else {
                        Err(INVALID_STEP)
                    });
                }
                Stop::EncodeCommit {
                    logical_size,
                    body_digest_uri,
                    manifest_digest_uri,
                    content_type,
                    revision_ref_count,
                } => {
                    let mut commit = answers
                        .reads
                        .iter()
                        .find_map(|read| match &read.answer {
                            Ok(Some(StoredRow {
                                decoded: DecodedRow::BuildCommit(Ok(commit)),
                                ..
                            })) => Some(commit.clone()),
                            _ => None,
                        })
                        .expect("the commit build was read before it is encoded");
                    commit.commit_staged_run_manifest = Some(CommitManifestBinding {
                        logical_size,
                        body_digest_uri,
                        manifest_digest_uri,
                        content_type,
                    });
                    commit.revision_ref_count = revision_ref_count;
                    answers.commit_payload = Some(Ok(commit.encode().unwrap()));
                }
                Stop::StageKeys {
                    operation,
                    workspace,
                    path,
                } => {
                    answers.stage_keys = Some(StageKeys {
                        operation: lower(&operation),
                        workspace: lower(&workspace),
                        path: lower(&path),
                    });
                }
                Stop::Execute { command } => answers.executed = Some(self.store.run(&command)),
            }
        }
    }

    fn carry_out(
        &self,
        command: PlannedCommand,
        operation_id: OperationId,
    ) -> Result<PublishCommandOutcome, PublicationError> {
        let receipt = self
            .store
            .run(&command)
            .map_err(|error| execution_error(error, command.lease_deadline_ms))?;
        let decoded = PublishOperationRecord::decode(&receipt.deterministic_result);
        decode_operation_outcome(&receipt, decoded, operation_id)
    }

    fn begin_publish(
        &self,
        request: BeginPublishRequest,
    ) -> Result<PublishCommandOutcome, PublicationError> {
        let operation_id = request.operation.operation_id;
        let request = PlanBegin {
            context: request.context,
            operation: coded(request.operation),
        };
        match self.drive(|planner| planner.begin_publish(&request))? {
            BeginPlan::Replayed(outcome) => Ok(outcome),
            BeginPlan::Execute(command) => self.carry_out(command, operation_id),
        }
    }

    fn transition_publish(
        &self,
        request: TransitionPublishRequest,
    ) -> Result<PublishCommandOutcome, PublicationError> {
        let operation_id = request.expected_operation.operation_id;
        let request = PlanTransition {
            context: request.context,
            expected_operation: coded(request.expected_operation),
            transition: request.transition,
        };
        let command = self.drive(|planner| planner.transition_publish(&request))?;
        self.carry_out(command, operation_id)
    }

    fn heartbeat_publish(
        &self,
        request: HeartbeatPublishRequest,
    ) -> Result<PublishCommandOutcome, PublicationError> {
        let operation_id = request.expected_operation.operation_id;
        let request = PlanHeartbeat {
            context: request.context,
            expected_operation: coded(request.expected_operation),
            activity_deadline_ms: request.activity_deadline_ms,
        };
        let command = self.drive(|planner| planner.heartbeat_publish(&request))?;
        self.carry_out(command, operation_id)
    }

    fn take_over_orphaned_publish(
        &self,
        request: TakeOverOrphanedPublishRequest,
    ) -> Result<PublishCommandOutcome, PublicationError> {
        let operation_id = request.expected_operation.operation_id;
        let request = PlanTakeover {
            context: request.context,
            expected_operation: coded(request.expected_operation),
            observed_now_ms: request.observed_now_ms,
            maximum_clock_skew_ms: request.maximum_clock_skew_ms,
            terminal_error: request.terminal_error,
        };
        let command = self.drive(|planner| planner.take_over_orphaned_publish(&request))?;
        self.carry_out(command, operation_id)
    }

    fn finish_reconcile_quarantined_publish(
        &self,
        request: FinishReconcileQuarantinedPublishRequest,
    ) -> Result<PublishCommandOutcome, PublicationError> {
        let operation_id = request.expected_operation.operation_id;
        let request = PlanResolution {
            context: request.context,
            expected_operation: coded(request.expected_operation),
            resolution: request.resolution,
            reason: request.reason,
            operator_evidence_digest: request.operator_evidence_digest,
        };
        let command = self.drive(|planner| planner.finish_reconcile_quarantined_publish(&request))?;
        self.carry_out(command, operation_id)
    }

    fn stage_objects_batch(
        &self,
        request: StageObjectsBatchRequest,
    ) -> Result<PublishCommandOutcome, PublicationError> {
        let operation_id = request.expected_operation.operation_id;
        let request = PlanStaging {
            context: request.context,
            expected_operation: coded(request.expected_operation),
            staged_objects: request.staged_objects.into_iter().map(coded).collect(),
        };
        let command = self.drive(|planner| planner.stage_objects_batch(&request))?;
        self.carry_out(command, operation_id)
    }

    fn mark_objects_uploaded_batch(
        &self,
        request: MarkObjectsUploadedBatchRequest,
    ) -> Result<PublishCommandOutcome, PublicationError> {
        let operation_id = request.expected_operation.operation_id;
        let request = PlanUploads {
            context: request.context,
            expected_operation: coded(request.expected_operation),
            staged_object_updates: coded_updates(request.staged_object_updates),
        };
        let command = self.drive(|planner| planner.mark_objects_uploaded_batch(&request))?;
        self.carry_out(command, operation_id)
    }

    fn stage_manifest_batch(
        &self,
        request: StageManifestBatchRequest,
    ) -> Result<PublishCommandOutcome, PublicationError> {
        let operation_id = request.expected_operation.operation_id;
        let request = PlanManifest {
            context: request.context,
            expected_operation: coded(request.expected_operation),
            manifest_rows: coded_rows(&request.manifest_rows),
            dependency_owner_revision_ids: request.dependency_owner_revision_ids,
        };
        let command = self.drive(|planner| planner.stage_manifest_batch(&request))?;
        self.carry_out(command, operation_id)
    }

    fn cleanup_publish_batch(
        &self,
        request: CleanupPublishBatchRequest,
    ) -> Result<PublishCommandOutcome, PublicationError> {
        let operation_id = request.expected_operation.operation_id;
        let request = PlanCleanup {
            context: request.context,
            expected_operation: coded(request.expected_operation),
            staged_object_updates: coded_updates(request.staged_object_updates),
        };
        let command = self.drive(|planner| planner.cleanup_publish_batch(&request))?;
        self.carry_out(command, operation_id)
    }

    fn reconcile_quarantined_publish_batch(
        &self,
        request: ReconcileQuarantinedPublishBatchRequest,
    ) -> Result<PublishCommandOutcome, PublicationError> {
        let operation_id = request.expected_operation.operation_id;
        let request = PlanReconciliation {
            context: request.context,
            expected_operation: coded(request.expected_operation),
            resolution: request.resolution,
            staged_object_rows: request.staged_object_rows.into_iter().map(coded).collect(),
        };
        let command = self.drive(|planner| planner.reconcile_quarantined_publish_batch(&request))?;
        self.carry_out(command, operation_id)
    }

    fn finalize_publish(
        &self,
        request: FinalizePublishRequest,
    ) -> Result<FinalizePublishOutcome, PublicationError> {
        let operation_id = request.expected_operation.operation_id;
        let request = PlanPublication {
            context: request.context,
            expected_operation: coded(request.expected_operation),
            artifact: request.artifact,
            dependency_owner_revision_ids: request.dependency_owner_revision_ids,
        };
        let planned = self.drive(|planner| planner.finalize_publish(&request))?;
        let outcome = self.carry_out(planned.command, operation_id)?;
        finalize_outcome(outcome, &planned.result)
    }
}

/// The rows that are worth reading together with `key`.
fn neighbours(key: RowKey) -> Vec<RowKey> {
    match key {
        RowKey::StagedObject {
            root_id,
            operation_id,
            sequence,
        } => (sequence..sequence + MAX_PUBLICATION_BATCH_ROWS as u64)
            .map(|sequence| RowKey::StagedObject {
                root_id,
                operation_id,
                sequence,
            })
            .collect(),
        key => vec![key],
    }
}

/// A command sealed for execution; the bench does not look at its digest.
trait Sealing {
    fn seal(self) -> Self;
}

impl Sealing for MetadataCommand {
    fn seal(self) -> Self {
        self
    }
}

/// A hand-made command on rows whose keys are in bytes.
#[derive(Default)]
struct CommandPlan {
    predicates: Vec<CommandPredicate>,
    mutations: Vec<CommandMutation>,
}

impl CommandPlan {
    fn replace(
        &mut self,
        family: MetadataFamily,
        key: Vec<u8>,
        expected: Vec<u8>,
        value: Vec<u8>,
    ) {
        self.predicates.push(CommandPredicate::Value {
            family,
            key: key.clone(),
            expected: Some(expected),
        });
        self.mutations
            .push(CommandMutation::Put { family, key, value });
    }

    fn put_absent(&mut self, family: MetadataFamily, key: Vec<u8>, value: Vec<u8>) {
        self.predicates.push(CommandPredicate::Value {
            family,
            key: key.clone(),
            expected: None,
        });
        self.mutations
            .push(CommandMutation::Put { family, key, value });
    }

    fn delete(&mut self, family: MetadataFamily, key: Vec<u8>, expected: Vec<u8>) {
        self.predicates.push(CommandPredicate::Value {
            family,
            key: key.clone(),
            expected: Some(expected),
        });
        self.mutations.push(CommandMutation::Delete { family, key });
    }

    fn run(self, store: &MetaShard, counter: &mut u128) {
        let context = publication_context(store, counter);
        store
            .commit(
                context.request_id,
                context.read_version,
                context.owner_epoch,
                &self.predicates,
                &self.mutations,
                &[],
            )
            .unwrap();
    }
}

/// The version and owner that a reader sees a root through.
struct RootReadContext {
    read_version: ReadVersion,
}

impl RootReadContext {
    fn current(
        store: &MetaShard,
        _root: RootId,
        _placement: PlacementGeneration,
        owner: OwnerEpoch,
    ) -> Result<RootReadContext, MetaError> {
        assert_eq!(owner.get(), store.owner.get());
        Ok(RootReadContext {
            read_version: store.current_read_version()?,
        })
    }
}

/// What a reader of a visible workbench sees under a path.
fn get_visible_path_at(
    store: &MetaShard,
    context: RootReadContext,
    workbench_id: &WorkbenchId,
    path: &NormalizedRelativePath,
) -> Result<Option<PathEntry>, MetaError> {
    let workspace = store
        .row(
            context.read_version,
            MetadataFamily::WorkspaceCurrent,
            &workspace_current_key(root(), workbench_id),
        )
        .map(|payload| WorkspaceRecord::decode(&payload).unwrap());
    let Some(workspace) = workspace else {
        return Ok(None);
    };
    if workspace.state != WorkspaceState::Visible {
        return Ok(None);
    }
    Ok(store
        .row(
            context.read_version,
            MetadataFamily::PathCurrent,
            &path_current_key(root(), workspace.incarnation_id, path),
        )
        .map(|payload| PathEntry::decode(&payload).unwrap()))
}

fn query_fields<const N: usize>(entries: [(QueryFieldId, QueryScalar); N]) -> QueryFields {
    let mut fields = QueryFields::new();
    for (field, value) in entries {
        fields.insert(field, value);
    }
    fields
}

fn ready_store(counter: &mut u128) -> MetaShard {
    let store = MetaShard::empty();
    let workspace = WorkspaceRecord {
        incarnation_id: incarnation(9),
        workspace_revision: WorkspaceRevision::new(0),
        state: WorkspaceState::Visible,
        owning_operation_id: None,
    };
    let mut plan = CommandPlan::default();
    plan.put_absent(
        MetadataFamily::WorkspaceCurrent,
        workspace_current_key(root(), &workbench()),
        workspace.encode().unwrap(),
    );
    plan.run(&store, counter);
    store
}

fn sealed_bound_restore_operation() -> RestoreOperationRecord {
    let record = RestoreOperationRecord {
        operation_id: operation_id(90_000),
        destination_workbench_id: workbench(),
        destination_workspace_incarnation_id: incarnation(9),
        restore_manifest: RestoreManifestDescriptor {
            body_digest_uri: canonical_digest_uri(0x42),
            logical_size: 128,
            content_type: RESTORE_MANIFEST_CONTENT_TYPE.to_owned(),
        },
        commit_provenance: RestoreCommitProvenance::V5 {
            destination_binding: Some(RestoreDestinationBinding {
                run_manifest_identity: restore_manifest_identity(
                    operation_id(90_001),
                    revision(90_001),
                ),
                restore_manifest_identity: restore_manifest_identity(
                    operation_id(90_002),
                    revision(90_002),
                ),
                manifests: None,
            }),
        },
        phase: RestorePhase::SourceSealed,
    };
    record.validate().unwrap();
    record
}

fn install_restore_publication_authority(
    store: &MetaShard,
    counter: &mut u128,
    restore: &RestoreOperationRecord,
) {
    let workspace_key = workspace_current_key(root(), &workbench());
    let workspace_payload = payload_at(
        store,
        MetadataFamily::WorkspaceCurrent,
        &workspace_key,
        store.current_read_version().unwrap(),
    )
    .unwrap();
    let workspace = WorkspaceRecord::decode(&workspace_payload).unwrap();
    let staging = WorkspaceRecord {
        state: WorkspaceState::Staging,
        owning_operation_id: Some(restore.operation_id),
        ..workspace
    };
    let mut plan = CommandPlan::default();
    plan.replace(
        MetadataFamily::WorkspaceCurrent,
        workspace_key,
        workspace_payload,
        staging.encode().unwrap(),
    );
    plan.put_absent(
        MetadataFamily::Operation,
        operation_key(root(), OperationKind::Restore, restore.operation_id),
        restore.encode().unwrap(),
    );
    plan.run(store, counter);
}

fn replace_restore_operation(
    store: &MetaShard,
    counter: &mut u128,
    expected: &RestoreOperationRecord,
    next: &RestoreOperationRecord,
) {
    let mut plan = CommandPlan::default();
    plan.replace(
        MetadataFamily::Operation,
        operation_key(root(), OperationKind::Restore, expected.operation_id),
        expected.encode().unwrap(),
        next.encode().unwrap(),
    );
    plan.run(store, counter);
}

fn install_publish_operation_for_test(
    store: &MetaShard,
    counter: &mut u128,
    operation: &PublishOperationRecord,
) {
    let mut plan = CommandPlan::default();
    plan.put_absent(
        MetadataFamily::Operation,
        operation_key(root(), OperationKind::Publish, operation.operation_id),
        operation.encode().unwrap(),
    );
    plan.run(store, counter);
}

fn replace_publish_operation_for_test(
    store: &MetaShard,
    counter: &mut u128,
    expected: &PublishOperationRecord,
    next: &PublishOperationRecord,
) {
    let mut plan = CommandPlan::default();
    plan.replace(
        MetadataFamily::Operation,
        operation_key(root(), OperationKind::Publish, expected.operation_id),
        expected.encode().unwrap(),
        next.encode().unwrap(),
    );
    plan.run(store, counter);
}

fn delete_restore_manifest_path_for_test(
    store: &MetaShard,
    counter: &mut u128,
    manifest_path: &str,
) {
    let key = path_current_key(root(), incarnation(9), &path(manifest_path));
    let payload = payload_at(
        store,
        MetadataFamily::PathCurrent,
        &key,
        store.current_read_version().unwrap(),
    )
    .unwrap();
    let mut plan = CommandPlan::default();
    plan.delete(MetadataFamily::PathCurrent, key, payload);
    plan.run(store, counter);
}

fn overwrite_revision_claim(
    store: &MetaShard,
    counter: &mut u128,
    revision_id: ArtifactRevisionId,
    next: Option<ArtifactRevisionClaimRecord>,
) {
    let key = artifact_revision_claim_key(root(), revision_id);
    let current = read_revision_claim(store, revision_id).expect("claim row exists");
    let mut plan = CommandPlan::default();
    match next {
        Some(record) => plan.replace(
            MetadataFamily::ArtifactRevision,
            key,
            current,
            record.encode().unwrap(),
        ),
        None => plan.delete(MetadataFamily::ArtifactRevision, key, current),
    }
    plan.run(store, counter);
}

fn budget_projection_with_prefix(prefix: &str, scalar_bytes: usize) -> TypedProjection {
    let mut fields = QueryFields::new();
    for index in 0..MAX_TYPED_PROJECTION_FIELDS {
        fields.insert(
            QueryFieldId::new(&format!("{prefix}.field.{index:02}")).unwrap(),
            QueryScalar::String("x".repeat(scalar_bytes)),
        );
    }
    TypedProjection::new(fields).unwrap()
}

fn fields_are_disjoint(prefix: &str, other: &TypedProjection) -> bool {
    (0..MAX_TYPED_PROJECTION_FIELDS).all(|index| {
        other
            .get(&QueryFieldId::new(&format!("{prefix}.field.{index:02}")).unwrap())
            .is_none()
    })
}

fn count_prefix(store: &MetaShard, family: MetadataFamily, prefix: &[u8]) -> usize {
    store
        .scan(
            store.current_read_version().unwrap(),
            family,
            prefix,
            usize::MAX,
        )
        .len()
}

fn shard() -> LogicalShardId {
    LogicalShardId::from_bytes([1; FIXED_ID_BYTES])
}

fn root() -> RootId {
    RootId::from_bytes([2; FIXED_ID_BYTES])
}

fn placement() -> PlacementGeneration {
    PlacementGeneration::new(7).unwrap()
}

fn owner() -> OwnerEpoch {
    OwnerEpoch::new(1).unwrap()
}

fn successor_owner() -> OwnerEpoch {
    OwnerEpoch::new(2).unwrap()
}

fn request(value: u128) -> RequestId {
    RequestId::from_bytes(value.to_be_bytes())
}

fn operation_id(value: u128) -> OperationId {
    OperationId::from_bytes(value.to_be_bytes())
}

fn revision(value: u128) -> ArtifactRevisionId {
    ArtifactRevisionId::from_bytes(value.to_be_bytes())
}

fn incarnation(value: u128) -> WorkspaceIncarnationId {
    WorkspaceIncarnationId::from_bytes(value.to_be_bytes())
}

fn path(value: &str) -> NormalizedRelativePath {
    NormalizedRelativePath::new(value).unwrap()
}

fn workbench() -> WorkbenchId {
    WorkbenchId::new("publication-tests").unwrap()
}

fn next_request(counter: &mut u128) -> RequestId {
    let value = *counter;
    *counter += 1;
    request(value)
}

fn publication_context(store: &MetaShard, counter: &mut u128) -> PublicationContext {
    publication_context_for_owner(store, counter, owner())
}

fn publication_context_for_owner(
    store: &MetaShard,
    counter: &mut u128,
    owner_epoch: OwnerEpoch,
) -> PublicationContext {
    PublicationContext {
        root_id: root(),
        logical_shard_id: shard(),
        object_namespace_id: ObjectNamespaceId::from_bytes([10; FIXED_ID_BYTES]),
        placement_generation: placement(),
        owner_epoch,
        request_id: next_request(counter),
        read_version: store.current_read_version().unwrap(),
    }
}

fn publication_context_at(
    owner_epoch: OwnerEpoch,
    request_id: RequestId,
    read_version: ReadVersion,
) -> PublicationContext {
    PublicationContext {
        root_id: root(),
        logical_shard_id: shard(),
        object_namespace_id: ObjectNamespaceId::from_bytes([10; FIXED_ID_BYTES]),
        placement_generation: placement(),
        owner_epoch,
        request_id,
        read_version,
    }
}

fn staged_rows(
    artifact_revision_id: ArtifactRevisionId,
    count: usize,
) -> Vec<StagedObjectRecord> {
    (0..count)
        .map(|index| {
            let sequence = u32::try_from(index).unwrap();
            StagedObjectRecord {
                artifact_revision_id,
                object_sequence: sequence,
                object_key: object_block_key(
                    shard(),
                    root(),
                    artifact_revision_id,
                    u64::from(sequence),
                ),
                multipart_upload_id: None,
                expected_length: 1,
                expected_digest_uri: format!("sha256:{sequence:064x}"),
                provider_state: StagedProviderState::Planned,
                cleanup_state: StagedCleanupState::Owned,
            }
        })
        .collect()
}

fn uploaded_rows(staged: &[StagedObjectRecord]) -> Vec<StagedObjectRecord> {
    staged
        .iter()
        .cloned()
        .map(|mut row| {
            row.provider_state = StagedProviderState::Uploaded;
            row
        })
        .collect()
}

fn manifest_rows(staged: &[StagedObjectRecord]) -> Vec<ManifestRowInput> {
    let mut logical_offset = 0_u64;
    staged
        .iter()
        .map(|staged| {
            let row = ManifestRowInput {
                object_index: u64::from(staged.object_sequence),
                row: ArtifactManifestRow {
                    physical_owner_revision_id: staged.artifact_revision_id,
                    physical_object_index: u64::from(staged.object_sequence),
                    object_key: staged.object_key.clone(),
                    logical_offset,
                    offset: 0,
                    length: staged.expected_length,
                    digest_uri: staged.expected_digest_uri.clone(),
                    append_segment: None,
                },
            };
            logical_offset = logical_offset
                .checked_add(staged.expected_length)
                .expect("test manifest logical length fits u64");
            row
        })
        .collect()
}

fn publish_operation(
    operation_id: OperationId,
    artifact_revision_id: ArtifactRevisionId,
    path: NormalizedRelativePath,
    claim: PublishClaim,
    staged: &[StagedObjectRecord],
    manifest: &[ManifestRowInput],
) -> PublishOperationRecord {
    let dependencies = Vec::new();
    let mut operation = PublishOperationRecord {
        operation_id,
        identity_digest: [0; SHA256_BYTES],
        initialization_digest: [0; SHA256_BYTES],
        initiating_owner_epoch: owner(),
        activity_deadline_ms: 1_000_000,
        authority: PublishAuthority::Visible,
        workbench_id: workbench(),
        workspace_incarnation_id: incarnation(9),
        path,
        artifact_revision_id,
        claim,
        phase: PublishPhase::Uploading,
        staged_object_count: u32::try_from(staged.len()).unwrap(),
        staged_object_seal: staged_object_ledger_digest(staged).unwrap(),
        staged_object_cursor: 0,
        staged_object_rolling_digest: [0; SHA256_BYTES],
        uploaded_object_cursor: 0,
        uploaded_object_rolling_digest: [0; SHA256_BYTES],
        manifest_row_count: u32::try_from(manifest.len()).unwrap(),
        manifest_seal: manifest_rows_digest(manifest).unwrap(),
        manifest_cursor: 0,
        manifest_rolling_digest: [0; SHA256_BYTES],
        manifest_last_position: None,
        dependency_count: 0,
        dependency_depth: 0,
        dependency_digest: dependency_owner_digest(&dependencies).unwrap(),
        cleanup_staged_object_cursor: 0,
        cleanup_manifest_cursor: 0,
        publication_absence_proof: None,
        result: None,
        terminal_error: None,
    };
    seal_publish_operation(&mut operation);
    operation
}

fn published_artifact(operation: &PublishOperationRecord) -> PublishedArtifact {
    PublishedArtifact {
        logical_size: u64::from(operation.manifest_row_count),
        body_digest_uri: format!(
            "sha256:body-{:032x}",
            u128::from_be_bytes(operation.artifact_revision_id.as_bytes())
        ),
        manifest_digest_uri: sha256_digest_uri(operation.manifest_seal),
        content_type: "application/octet-stream".to_owned(),
        producer: Some("publication-test".to_owned()),
        manifest_id: Some("manifest-test".to_owned()),
        typed_index_projection: TypedProjection::empty().encode().unwrap(),
    }
}

fn canonical_digest_uri(fill: u8) -> String {
    format!("sha256:{}", format!("{fill:02x}").repeat(SHA256_BYTES))
}

fn restore_manifest_identity(
    publication_operation_id: OperationId,
    artifact_revision_id: ArtifactRevisionId,
) -> RestoreManifestIdentity {
    RestoreManifestIdentity {
        publication_operation_id,
        artifact_revision_id,
    }
}

fn move_restore_into_abort_for_publication_test(
    store: &MetaShard,
    counter: &mut u128,
    restore: &RestoreOperationRecord,
    cleaning: bool,
) -> RestoreOperationRecord {
    let aborting = restore
        .apply(
            RestorePhase::SourceSealed,
            RestoreTransition::BeginAbort {
                terminal_error: RestoreTerminalError {
                    message: "publisher cleanup owns the remaining staging rows".to_owned(),
                },
            },
        )
        .unwrap();
    replace_restore_operation(store, counter, restore, &aborting);
    if cleaning {
        let next = aborting
            .apply(RestorePhase::Aborting, RestoreTransition::BeginCleaning)
            .unwrap();
        replace_restore_operation(store, counter, &aborting, &next);
        next
    } else {
        aborting
    }
}

fn load_staged_object_for_test(
    store: &MetaShard,
    operation: &PublishOperationRecord,
    sequence: u64,
) -> StagedObjectRecord {
    StagedObjectRecord::decode(
        &payload_at(
            store,
            MetadataFamily::StagedObject,
            &staged_object_key(root(), operation.operation_id, sequence),
            store.current_read_version().unwrap(),
        )
        .unwrap(),
    )
    .unwrap()
}

fn restore_staging_publish_operation(
    identity: RestoreManifestIdentity,
    manifest_path: &str,
    body_digest_uri: String,
    logical_size: u64,
) -> (
    PublishOperationRecord,
    Vec<StagedObjectRecord>,
    Vec<ManifestRowInput>,
) {
    let mut staged = staged_rows(identity.artifact_revision_id, 1);
    staged[0].expected_length = logical_size;
    staged[0].expected_digest_uri = body_digest_uri;
    let manifest = manifest_rows(&staged);
    let mut operation = publish_operation(
        identity.publication_operation_id,
        identity.artifact_revision_id,
        path(manifest_path),
        PublishClaim::CreateOnly,
        &staged,
        &manifest,
    );
    operation.authority = PublishAuthority::RestoreStaging {
        restore_operation_id: operation_id(90_000),
    };
    seal_publish_operation(&mut operation);
    (operation, staged, manifest)
}

fn drive_restore_staging_publish(
    service: &PublicationService<'_>,
    store: &MetaShard,
    counter: &mut u128,
    operation: PublishOperationRecord,
    staged: &[StagedObjectRecord],
    manifest: &[ManifestRowInput],
    content_type: &str,
) -> (PublishOperationRecord, FinalizePublishOutcome) {
    let initial = operation.clone();
    let operation = begin_operation(service, store, counter, operation);
    let operation = stage_all(service, store, counter, operation, staged, manifest);
    let operation = service
        .transition_publish(TransitionPublishRequest {
            context: publication_context(store, counter),
            expected_operation: operation,
            transition: PublishTransition::BeginFinalization,
        })
        .unwrap()
        .operation;
    let outcome = service
        .finalize_publish(FinalizePublishRequest {
            context: publication_context(store, counter),
            expected_operation: operation.clone(),
            artifact: PublishedArtifact {
                logical_size: staged[0].expected_length,
                body_digest_uri: staged[0].expected_digest_uri.clone(),
                manifest_digest_uri: sha256_digest_uri(operation.manifest_seal),
                content_type: content_type.to_owned(),
                producer: None,
                manifest_id: None,
                typed_index_projection: TypedProjection::empty().encode().unwrap(),
            },
            dependency_owner_revision_ids: Vec::new(),
        })
        .unwrap();
    (initial, outcome)
}

fn begin_operation(
    service: &PublicationService<'_>,
    store: &MetaShard,
    counter: &mut u128,
    operation: PublishOperationRecord,
) -> PublishOperationRecord {
    service
        .begin_publish(BeginPublishRequest {
            context: publication_context(store, counter),
            operation,
        })
        .unwrap()
        .operation
}

fn stage_all(
    service: &PublicationService<'_>,
    store: &MetaShard,
    counter: &mut u128,
    mut operation: PublishOperationRecord,
    staged: &[StagedObjectRecord],
    manifest: &[ManifestRowInput],
) -> PublishOperationRecord {
    operation = stage_uploaded_objects(service, store, counter, operation, staged);
    for batch in manifest.chunks(MAX_PUBLICATION_BATCH_ROWS) {
        operation = service
            .stage_manifest_batch(StageManifestBatchRequest {
                context: publication_context(store, counter),
                expected_operation: operation,
                manifest_rows: batch.to_vec(),
                dependency_owner_revision_ids: Vec::new(),
            })
            .unwrap()
            .operation;
    }
    operation
}

fn stage_uploaded_objects(
    service: &PublicationService<'_>,
    store: &MetaShard,
    counter: &mut u128,
    mut operation: PublishOperationRecord,
    staged: &[StagedObjectRecord],
) -> PublishOperationRecord {
    for batch in staged.chunks(MAX_PUBLICATION_BATCH_ROWS) {
        operation = service
            .stage_objects_batch(StageObjectsBatchRequest {
                context: publication_context(store, counter),
                expected_operation: operation,
                staged_objects: batch.to_vec(),
            })
            .unwrap()
            .operation;
    }
    let uploaded = uploaded_rows(staged);
    for (expected, next) in staged
        .chunks(MAX_PUBLICATION_BATCH_ROWS)
        .zip(uploaded.chunks(MAX_PUBLICATION_BATCH_ROWS))
    {
        let updates = expected
            .iter()
            .cloned()
            .zip(next.iter().cloned())
            .map(|(expected, next)| StagedObjectUpdate { expected, next })
            .collect();
        operation = service
            .mark_objects_uploaded_batch(MarkObjectsUploadedBatchRequest {
                context: publication_context(store, counter),
                expected_operation: operation,
                staged_object_updates: updates,
            })
            .unwrap()
            .operation;
    }
    operation
}

fn rejected_manifest_join(
    staged: Vec<StagedObjectRecord>,
    manifest: Vec<ManifestRowInput>,
) -> PublicationError {
    rejected_manifest_join_with_plan(staged, manifest.clone(), manifest)
}

fn rejected_manifest_join_with_plan(
    staged: Vec<StagedObjectRecord>,
    planned_manifest: Vec<ManifestRowInput>,
    manifest: Vec<ManifestRowInput>,
) -> PublicationError {
    let mut counter = 1;
    let store = ready_store(&mut counter);
    let service = PublicationService::new(&store);
    let revision_id = staged
        .first()
        .expect("join rejection fixture has staged rows")
        .artifact_revision_id;
    let operation = publish_operation(
        operation_id(700),
        revision_id,
        path("outputs/rejected-manifest.bin"),
        PublishClaim::CreateOnly,
        &staged,
        &planned_manifest,
    );
    let operation = begin_operation(&service, &store, &mut counter, operation);
    let operation = stage_uploaded_objects(&service, &store, &mut counter, operation, &staged);
    let before = store.current_read_version().unwrap();
    let error = service
        .stage_manifest_batch(StageManifestBatchRequest {
            context: publication_context(&store, &mut counter),
            expected_operation: operation,
            manifest_rows: manifest,
            dependency_owner_revision_ids: Vec::new(),
        })
        .unwrap_err();
    assert_eq!(store.current_read_version().unwrap(), before);
    assert_eq!(
        count_prefix(
            &store,
            MetadataFamily::ArtifactManifest,
            &artifact_manifest_prefix(root(), revision_id),
        ),
        0,
    );
    error
}

fn publish_full(
    service: &PublicationService<'_>,
    store: &MetaShard,
    counter: &mut u128,
    operation_id: OperationId,
    artifact_revision_id: ArtifactRevisionId,
    path: NormalizedRelativePath,
    claim: PublishClaim,
    row_count: usize,
) -> FinalizePublishOutcome {
    publish_full_with_projection(
        service,
        store,
        counter,
        operation_id,
        artifact_revision_id,
        path,
        claim,
        row_count,
        TypedProjection::empty(),
    )
}

fn publish_full_with_projection(
    service: &PublicationService<'_>,
    store: &MetaShard,
    counter: &mut u128,
    operation_id: OperationId,
    artifact_revision_id: ArtifactRevisionId,
    path: NormalizedRelativePath,
    claim: PublishClaim,
    row_count: usize,
    projection: TypedProjection,
) -> FinalizePublishOutcome {
    let staged = staged_rows(artifact_revision_id, row_count);
    let manifest = manifest_rows(&staged);
    let operation = publish_operation(
        operation_id,
        artifact_revision_id,
        path,
        claim,
        &staged,
        &manifest,
    );
    let operation = begin_operation(service, store, counter, operation);
    let operation = stage_all(service, store, counter, operation, &staged, &manifest);
    let operation = service
        .transition_publish(TransitionPublishRequest {
            context: publication_context(store, counter),
            expected_operation: operation,
            transition: PublishTransition::BeginFinalization,
        })
        .unwrap()
        .operation;
    let mut artifact = published_artifact(&operation);
    artifact.typed_index_projection = projection.encode().unwrap();
    service
        .finalize_publish(FinalizePublishRequest {
            context: publication_context(store, counter),
            artifact,
            expected_operation: operation,
            dependency_owner_revision_ids: Vec::new(),
        })
        .unwrap()
}

fn payload_at(
    store: &MetaShard,
    family: MetadataFamily,
    key: &[u8],
    read_version: ReadVersion,
) -> Option<Vec<u8>> {
    store
        .read_at(root(), placement(), owner(), family, key, read_version)
        .unwrap()
}

#[test]
fn begin_publish_resumes_exact_operation_identity_and_rejects_reuse() {
    let mut counter = 1;
    let store = ready_store(&mut counter);
    let service = PublicationService::new(&store);
    let revision_id = revision(650);
    let staged = staged_rows(revision_id, 2);
    let manifest = manifest_rows(&staged);
    let initial = publish_operation(
        operation_id(650),
        revision_id,
        path("outputs/resume.bin"),
        PublishClaim::CreateOnly,
        &staged,
        &manifest,
    );
    let begun = begin_operation(&service, &store, &mut counter, initial.clone());
    let progressed = service
        .stage_objects_batch(StageObjectsBatchRequest {
            context: publication_context(&store, &mut counter),
            expected_operation: begun,
            staged_objects: staged[..1].to_vec(),
        })
        .unwrap()
        .operation;

    let resumed = service
        .begin_publish(BeginPublishRequest {
            context: publication_context(&store, &mut counter),
            operation: initial.clone(),
        })
        .unwrap();
    assert!(resumed.replayed);
    assert_eq!(resumed.operation, progressed);

    let mut mismatched = initial;
    mismatched.artifact_revision_id = revision(651);
    seal_publish_operation(&mut mismatched);
    assert_eq!(
        service.begin_publish(BeginPublishRequest {
            context: publication_context(&store, &mut counter),
            operation: mismatched,
        }),
        Err(PublicationError::OperationInputMismatch)
    );
}

#[test]
fn successor_epoch_cannot_borrow_visible_or_commit_staging_operation_identity() {
    for (index, authority) in [
        PublishAuthority::Visible,
        PublishAuthority::CommitStaging {
            commit_operation_id: operation_id(91_100),
        },
    ]
    .into_iter()
    .enumerate()
    {
        let mut counter = 1;
        let store = ready_store(&mut counter);
        let revision_id = revision(91_101 + u128::try_from(index).unwrap());
        let staged = staged_rows(revision_id, 1);
        let manifest = manifest_rows(&staged);
        let mut durable = publish_operation(
            operation_id(91_101 + u128::try_from(index).unwrap()),
            revision_id,
            path("outputs/epoch-bound.bin"),
            PublishClaim::CreateOnly,
            &staged,
            &manifest,
        );
        durable.authority = authority;
        seal_publish_operation(&mut durable);
        install_publish_operation_for_test(&store, &mut counter, &durable);

        store
            .advance_owner_epoch(Some(owner()), successor_owner())
            .unwrap();
        let mut successor_candidate = durable.clone();
        successor_candidate.initiating_owner_epoch = successor_owner();
        seal_publish_operation(&mut successor_candidate);
        assert_eq!(
            PublicationService::new(&store).begin_publish(BeginPublishRequest {
                context: publication_context_for_owner(
                    &store,
                    &mut counter,
                    successor_owner(),
                ),
                operation: successor_candidate,
            }),
            Err(PublicationError::OperationInputMismatch),
            "only a restore-staging terminal receipt may cross an owner epoch",
        );
    }
}

#[test]
fn absent_publish_operation_never_accepts_an_old_initiating_owner() {
    let mut counter = 1;
    let store = ready_store(&mut counter);
    store
        .advance_owner_epoch(Some(owner()), successor_owner())
        .unwrap();
    let revision_id = revision(91_110);
    let staged = staged_rows(revision_id, 1);
    let manifest = manifest_rows(&staged);
    let operation = publish_operation(
        operation_id(91_110),
        revision_id,
        path("outputs/absent-old-owner.bin"),
        PublishClaim::CreateOnly,
        &staged,
        &manifest,
    );
    assert_eq!(
        PublicationService::new(&store).begin_publish(BeginPublishRequest {
            context: publication_context_for_owner(&store, &mut counter, successor_owner(),),
            operation,
        }),
        Err(PublicationError::InitiatingOwnerEpochMismatch {
            expected: successor_owner(),
            actual: owner(),
        }),
    );
}

#[test]
fn transition_publish_rejects_direct_publish_without_metadata_side_effects() {
    let mut counter = 1;
    let store = ready_store(&mut counter);
    let service = PublicationService::new(&store);
    let revision_id = revision(652);
    let publish_path = path("outputs/direct-publish-bypass.bin");
    let staged = staged_rows(revision_id, 1);
    let manifest = manifest_rows(&staged);
    let operation = publish_operation(
        operation_id(652),
        revision_id,
        publish_path.clone(),
        PublishClaim::CreateOnly,
        &staged,
        &manifest,
    );
    let operation = begin_operation(&service, &store, &mut counter, operation);
    let operation = stage_all(
        &service,
        &store,
        &mut counter,
        operation,
        &staged,
        &manifest,
    );
    let finalizing = service
        .transition_publish(TransitionPublishRequest {
            context: publication_context(&store, &mut counter),
            expected_operation: operation,
            transition: PublishTransition::BeginFinalization,
        })
        .unwrap()
        .operation;
    let artifact = published_artifact(&finalizing);
    let operation_key = operation_key(root(), OperationKind::Publish, finalizing.operation_id);
    let path_key = path_current_key(root(), finalizing.workspace_incarnation_id, &publish_path);
    let revision_key = artifact_revision_key(root(), revision_id);
    let claim_key = artifact_revision_claim_key(root(), revision_id);
    let version_before = store.current_read_version().unwrap();
    let operation_before = payload_at(
        &store,
        MetadataFamily::Operation,
        &operation_key,
        version_before,
    );
    let path_before = payload_at(
        &store,
        MetadataFamily::PathCurrent,
        &path_key,
        version_before,
    );
    let revision_before = payload_at(
        &store,
        MetadataFamily::ArtifactRevision,
        &revision_key,
        version_before,
    );
    let claim_before = payload_at(
        &store,
        MetadataFamily::ArtifactRevision,
        &claim_key,
        version_before,
    );
    assert!(path_before.is_none());
    assert!(revision_before.is_none());
    assert!(claim_before.is_some());

    assert_eq!(
        service.transition_publish(TransitionPublishRequest {
            context: publication_context(&store, &mut counter),
            expected_operation: finalizing.clone(),
            transition: PublishTransition::Publish {
                result: PublishResult {
                    path_generation: Generation::new(1).unwrap(),
                    workspace_revision: WorkspaceRevision::new(1),
                    logical_size: artifact.logical_size,
                    body_digest_uri: artifact.body_digest_uri.clone(),
                },
            },
        }),
        Err(PublicationError::MetadataLastFinalizationRequired),
    );
    assert_eq!(store.current_read_version().unwrap(), version_before);
    assert_eq!(
        payload_at(
            &store,
            MetadataFamily::Operation,
            &operation_key,
            version_before,
        ),
        operation_before,
    );
    assert_eq!(
        payload_at(
            &store,
            MetadataFamily::PathCurrent,
            &path_key,
            version_before,
        ),
        path_before,
    );
    assert_eq!(
        payload_at(
            &store,
            MetadataFamily::ArtifactRevision,
            &revision_key,
            version_before,
        ),
        revision_before,
    );
    assert_eq!(
        payload_at(
            &store,
            MetadataFamily::ArtifactRevision,
            &claim_key,
            version_before,
        ),
        claim_before,
    );

    let outcome = service
        .finalize_publish(FinalizePublishRequest {
            context: publication_context(&store, &mut counter),
            expected_operation: finalizing,
            artifact,
            dependency_owner_revision_ids: Vec::new(),
        })
        .unwrap();
    assert_eq!(outcome.operation.phase, PublishPhase::Published);
    assert!(read_revision_claim(&store, revision_id).is_none());
    let published_version = store.current_read_version().unwrap();
    assert!(payload_at(
        &store,
        MetadataFamily::PathCurrent,
        &path_key,
        published_version,
    )
    .is_some());
    assert!(payload_at(
        &store,
        MetadataFamily::ArtifactRevision,
        &revision_key,
        published_version,
    )
    .is_some());
}

#[test]
fn staged_admission_rejects_noncanonical_object_coordinates_atomically() {
    let revision_id = revision(705);
    let canonical_staged = staged_rows(revision_id, 1);
    let canonical_manifest = manifest_rows(&canonical_staged);
    let malformed_keys = [
        object_block_key(
            LogicalShardId::from_bytes([0x55; FIXED_ID_BYTES]),
            root(),
            revision_id,
            0,
        ),
        object_block_key(
            shard(),
            RootId::from_bytes([0x66; FIXED_ID_BYTES]),
            revision_id,
            0,
        ),
        object_block_key(shard(), root(), revision(706), 0),
        object_block_key(shard(), root(), revision_id, 1),
    ];

    for (case, malformed_key) in malformed_keys.into_iter().enumerate() {
        let mut counter = 1;
        let store = ready_store(&mut counter);
        let service = PublicationService::new(&store);
        let operation = publish_operation(
            operation_id(705 + u128::try_from(case).unwrap()),
            revision_id,
            path("outputs/noncanonical-staged.bin"),
            PublishClaim::CreateOnly,
            &canonical_staged,
            &canonical_manifest,
        );
        let operation = begin_operation(&service, &store, &mut counter, operation);
        let mut malformed_staged = canonical_staged.clone();
        malformed_staged[0].object_key.clone_from(&malformed_key);
        let mut agreeing_manifest = canonical_manifest.clone();
        agreeing_manifest[0]
            .row
            .object_key
            .clone_from(&malformed_key);
        assert_eq!(
            malformed_staged[0].object_key, agreeing_manifest[0].row.object_key,
            "fixture {case} must model a staged/manifest pair that agrees on the bad key"
        );

        let before = store.current_read_version().unwrap();
        assert_eq!(
            service
                .stage_objects_batch(StageObjectsBatchRequest {
                    context: publication_context(&store, &mut counter),
                    expected_operation: operation.clone(),
                    staged_objects: malformed_staged,
                })
                .unwrap_err(),
            PublicationError::StagedObjectKeyMismatch { sequence: 0 },
            "malformed coordinate case {case}"
        );
        assert_eq!(store.current_read_version().unwrap(), before);
        assert_eq!(
            count_prefix(
                &store,
                MetadataFamily::StagedObject,
                &staged_object_prefix(root(), operation.operation_id),
            ),
            0
        );
        let persisted = payload_at(
            &store,
            MetadataFamily::Operation,
            &operation_key(root(), OperationKind::Publish, operation.operation_id),
            before,
        )
        .expect("publish operation remains durable");
        assert_eq!(
            PublishOperationRecord::decode(&persisted).unwrap(),
            operation
        );
    }
}

#[test]
fn manifest_batches_require_cursor_contiguous_object_indexes_atomically() {
    let revision_id = revision(707);
    let staged = staged_rows(revision_id, 3);
    let manifest = manifest_rows(&staged);

    {
        let mut counter = 1;
        let store = ready_store(&mut counter);
        let service = PublicationService::new(&store);
        let operation = publish_operation(
            operation_id(707),
            revision_id,
            path("outputs/starting-gap.bin"),
            PublishClaim::CreateOnly,
            &staged,
            &manifest,
        );
        let operation = begin_operation(&service, &store, &mut counter, operation);
        let operation =
            stage_uploaded_objects(&service, &store, &mut counter, operation, &staged);
        let mut starting_gap = manifest.clone();
        for input in &mut starting_gap {
            input.object_index += 1;
        }

        let before = store.current_read_version().unwrap();
        assert_eq!(
            service
                .stage_manifest_batch(StageManifestBatchRequest {
                    context: publication_context(&store, &mut counter),
                    expected_operation: operation.clone(),
                    manifest_rows: starting_gap,
                    dependency_owner_revision_ids: Vec::new(),
                })
                .unwrap_err(),
            PublicationError::ManifestPositionMismatch
        );
        assert_eq!(store.current_read_version().unwrap(), before);
        assert_eq!(
            count_prefix(
                &store,
                MetadataFamily::ArtifactManifest,
                &artifact_manifest_prefix(root(), revision_id),
            ),
            0
        );
        let persisted = payload_at(
            &store,
            MetadataFamily::Operation,
            &operation_key(root(), OperationKind::Publish, operation.operation_id),
            before,
        )
        .expect("publish operation remains durable");
        assert_eq!(
            PublishOperationRecord::decode(&persisted).unwrap(),
            operation
        );
    }

    {
        let mut counter = 1;
        let store = ready_store(&mut counter);
        let service = PublicationService::new(&store);
        let operation = publish_operation(
            operation_id(708),
            revision_id,
            path("outputs/middle-gap.bin"),
            PublishClaim::CreateOnly,
            &staged,
            &manifest,
        );
        let operation = begin_operation(&service, &store, &mut counter, operation);
        let operation =
            stage_uploaded_objects(&service, &store, &mut counter, operation, &staged);
        let operation = service
            .stage_manifest_batch(StageManifestBatchRequest {
                context: publication_context(&store, &mut counter),
                expected_operation: operation,
                manifest_rows: manifest[..1].to_vec(),
                dependency_owner_revision_ids: Vec::new(),
            })
            .unwrap()
            .operation;
        let mut middle_gap = manifest[1..].to_vec();
        middle_gap[1].object_index += 1;

        let before = store.current_read_version().unwrap();
        assert_eq!(
            service
                .stage_manifest_batch(StageManifestBatchRequest {
                    context: publication_context(&store, &mut counter),
                    expected_operation: operation.clone(),
                    manifest_rows: middle_gap,
                    dependency_owner_revision_ids: Vec::new(),
                })
                .unwrap_err(),
            PublicationError::ManifestPositionMismatch
        );
        assert_eq!(store.current_read_version().unwrap(), before);
        assert_eq!(
            count_prefix(
                &store,
                MetadataFamily::ArtifactManifest,
                &artifact_manifest_prefix(root(), revision_id),
            ),
            1
        );
        let persisted = payload_at(
            &store,
            MetadataFamily::Operation,
            &operation_key(root(), OperationKind::Publish, operation.operation_id),
            before,
        )
        .expect("publish operation remains durable");
        assert_eq!(
            PublishOperationRecord::decode(&persisted).unwrap(),
            operation
        );
    }
}

#[test]
fn manifest_join_rejects_unmatched_child_owned_rows_atomically() {
    let revision_id = revision(710);

    let staged = staged_rows(revision_id, 1);
    let planned_manifest = manifest_rows(&staged);
    for wrong_key in [
        object_block_key(
            LogicalShardId::from_bytes([0x55; FIXED_ID_BYTES]),
            root(),
            revision_id,
            0,
        ),
        object_block_key(
            shard(),
            RootId::from_bytes([0x66; FIXED_ID_BYTES]),
            revision_id,
            0,
        ),
        object_block_key(shard(), root(), revision(711), 0),
        object_block_key(shard(), root(), revision_id, 1),
    ] {
        let mut wrong_manifest = manifest_rows(&staged);
        wrong_manifest[0].row.object_key = wrong_key;
        assert_eq!(
            rejected_manifest_join_with_plan(
                staged.clone(),
                planned_manifest.clone(),
                wrong_manifest,
            ),
            PublicationError::ManifestOwnershipMismatch {
                object_index: 0,
                reason: "object key does not match the canonical physical owner coordinates",
            }
        );
    }

    let mut wrong_digest = manifest_rows(&staged);
    wrong_digest[0].row.digest_uri = format!("sha256:{:064x}", 99);
    assert_eq!(
        rejected_manifest_join(staged.clone(), wrong_digest),
        PublicationError::ManifestOwnershipMismatch {
            object_index: 0,
            reason: "staged object digest differs from the child-owned row",
        }
    );

    let mut wrong_length = manifest_rows(&staged);
    wrong_length[0].row.length = 2;
    assert_eq!(
        rejected_manifest_join(staged.clone(), wrong_length),
        PublicationError::ManifestOwnershipMismatch {
            object_index: 0,
            reason: "staged object length differs from the child-owned row",
        }
    );

    let mut packed_range = manifest_rows(&staged);
    packed_range[0].row.offset = 1;
    assert_eq!(
        rejected_manifest_join(staged.clone(), packed_range),
        PublicationError::ManifestOwnershipMismatch {
            object_index: 0,
            reason: "packed object ranges are unsupported",
        }
    );

    let staged = staged_rows(revision_id, 2);
    let mut duplicate_physical_index = manifest_rows(&staged);
    duplicate_physical_index[1].row.physical_object_index = 0;
    duplicate_physical_index[1].row.object_key = staged[0].object_key.clone();
    assert_eq!(
        rejected_manifest_join(staged.clone(), duplicate_physical_index),
        PublicationError::ManifestOwnershipMismatch {
            object_index: 1,
            reason: "child-owned physical object indexes must be contiguous from zero",
        }
    );

    let incomplete_manifest = manifest_rows(&staged[..1]);
    assert_eq!(
        rejected_manifest_join(staged, incomplete_manifest),
        PublicationError::ManifestOwnershipMismatch {
            object_index: 0,
            reason: "child-owned row count differs from staged-object count",
        }
    );
}

#[test]
fn manifest_join_requires_each_durable_staged_row_to_remain_uploaded_and_owned() {
    let mut counter = 1;
    let store = ready_store(&mut counter);
    let service = PublicationService::new(&store);
    let revision_id = revision(711);
    let staged = staged_rows(revision_id, 1);
    let manifest = manifest_rows(&staged);
    let operation = publish_operation(
        operation_id(711),
        revision_id,
        path("outputs/staged-state-mismatch.bin"),
        PublishClaim::CreateOnly,
        &staged,
        &manifest,
    );
    let operation = begin_operation(&service, &store, &mut counter, operation);
    let operation = stage_uploaded_objects(&service, &store, &mut counter, operation, &staged);
    let staged_key = staged_object_key(root(), operation.operation_id, 0);
    let mut persisted = uploaded_rows(&staged)[0].clone();

    for next in [
        StagedObjectRecord {
            provider_state: StagedProviderState::Uploading,
            ..persisted.clone()
        },
        StagedObjectRecord {
            provider_state: StagedProviderState::Uploaded,
            cleanup_state: StagedCleanupState::DeletePending,
            ..persisted.clone()
        },
    ] {
        store
            .execute(
                &MetadataCommand {
                    schema_id: SCHEMA_ID.to_owned(),
                    root_id: root(),
                    logical_shard_id: shard(),
                    object_namespace_id: Some(ObjectNamespaceId::from_bytes(
                        [10; FIXED_ID_BYTES],
                    )),
                    placement_generation: placement(),
                    owner_epoch: owner(),
                    request_id: next_request(&mut counter),
                    command_digest: CommandDigest::from_bytes([0; SHA256_BYTES]),
                    read_version: store.current_read_version().unwrap(),
                    root_fence_action: RootFenceAction::RequireActive,
                    predicates: vec![CommandPredicate::Value {
                        family: MetadataFamily::StagedObject,
                        key: staged_key.clone(),
                        expected: Some(persisted.encode().unwrap()),
                    }],
                    mutations: vec![CommandMutation::Put {
                        family: MetadataFamily::StagedObject,
                        key: staged_key.clone(),
                        value: next.encode().unwrap(),
                    }],
                    history_projection: vec![HistoryProjection {
                        family: MetadataFamily::StagedObject,
                        key: staged_key.clone(),
                    }],
                    event_projection: Vec::new(),
                    deterministic_result: Vec::new(),
                }
                .seal(),
            )
            .unwrap();
        persisted = next;

        let before = store.current_read_version().unwrap();
        assert_eq!(
            service
                .stage_manifest_batch(StageManifestBatchRequest {
                    context: publication_context(&store, &mut counter),
                    expected_operation: operation.clone(),
                    manifest_rows: manifest.clone(),
                    dependency_owner_revision_ids: Vec::new(),
                })
                .unwrap_err(),
            PublicationError::ManifestOwnershipMismatch {
                object_index: 0,
                reason: "staged object is not durably uploaded and owned",
            }
        );
        assert_eq!(store.current_read_version().unwrap(), before);
        assert_eq!(
            count_prefix(
                &store,
                MetadataFamily::ArtifactManifest,
                &artifact_manifest_prefix(root(), revision_id),
            ),
            0,
        );
    }
}

#[test]
fn append_manifest_join_accepts_borrowed_prefix_and_child_owned_tail_across_batches() {
    let mut counter = 1;
    let store = ready_store(&mut counter);
    let service = PublicationService::new(&store);
    let base_revision_id = revision(720);
    let child_revision_id = revision(721);
    let staged = staged_rows(child_revision_id, 2);
    let mut manifest = (0_u64..2)
        .map(|index| ManifestRowInput {
            object_index: index,
            row: ArtifactManifestRow {
                physical_owner_revision_id: base_revision_id,
                physical_object_index: index,
                object_key: object_block_key(shard(), root(), base_revision_id, index),
                logical_offset: index,
                offset: 0,
                length: 1,
                digest_uri: format!("sha256:{:064x}", index + 100),
                append_segment: None,
            },
        })
        .collect::<Vec<_>>();
    manifest.extend(manifest_rows(&staged).into_iter().enumerate().map(
        |(index, mut input)| {
            input.object_index += 2;
            input.row.logical_offset += 2;
            input.row.append_segment = Some(AppendSegment {
                segment_sequence: 0,
                segment_offset: u64::try_from(index).unwrap(),
            });
            input
        },
    ));
    let dependencies = vec![base_revision_id];
    let mut operation = publish_operation(
        operation_id(721),
        child_revision_id,
        path("outputs/cross-batch-append.bin"),
        PublishClaim::Append {
            expected_generation: Generation::new(1).unwrap(),
            base_revision_id,
            append_offset: 2,
        },
        &staged,
        &manifest,
    );
    operation.dependency_count = 1;
    operation.dependency_depth = 1;
    operation.dependency_digest = dependency_owner_digest(&dependencies).unwrap();
    seal_publish_operation(&mut operation);
    let operation = begin_operation(&service, &store, &mut counter, operation);
    let operation = stage_uploaded_objects(&service, &store, &mut counter, operation, &staged);
    let operation = service
        .stage_manifest_batch(StageManifestBatchRequest {
            context: publication_context(&store, &mut counter),
            expected_operation: operation,
            manifest_rows: manifest[..2].to_vec(),
            dependency_owner_revision_ids: dependencies.clone(),
        })
        .unwrap()
        .operation;
    assert_eq!(operation.manifest_cursor, 2);
    let operation = service
        .stage_manifest_batch(StageManifestBatchRequest {
            context: publication_context(&store, &mut counter),
            expected_operation: operation,
            manifest_rows: manifest[2..].to_vec(),
            dependency_owner_revision_ids: dependencies,
        })
        .unwrap()
        .operation;
    assert_eq!(operation.manifest_cursor, 4);
    assert_eq!(operation.manifest_rolling_digest, operation.manifest_seal);
    assert_eq!(
        count_prefix(
            &store,
            MetadataFamily::ArtifactManifest,
            &artifact_manifest_prefix(root(), child_revision_id),
        ),
        4,
    );
}

#[test]
fn large_publication_batches_resume_and_create_atomically() {
    let mut counter = 1;
    let store = ready_store(&mut counter);
    let service = PublicationService::new(&store);
    let revision_id = revision(100);
    let staged = staged_rows(revision_id, TEST_BATCH_ROWS);
    let manifest = manifest_rows(&staged);
    let initial = publish_operation(
        operation_id(100),
        revision_id,
        path("outputs/large.bin"),
        PublishClaim::CreateOnly,
        &staged,
        &manifest,
    );
    let mut operation = begin_operation(&service, &store, &mut counter, initial);

    assert_eq!(
        count_prefix(
            &store,
            MetadataFamily::StagedObject,
            &staged_object_prefix(root(), operation.operation_id),
        ),
        0
    );
    assert_eq!(
        count_prefix(
            &store,
            MetadataFamily::ArtifactManifest,
            &artifact_manifest_prefix(root(), revision_id),
        ),
        0
    );

    let replay_context = publication_context(&store, &mut counter);
    let replay_request = StageObjectsBatchRequest {
        context: replay_context,
        expected_operation: operation.clone(),
        staged_objects: staged[..MAX_PUBLICATION_BATCH_ROWS].to_vec(),
    };
    let first = service.stage_objects_batch(replay_request.clone()).unwrap();
    let replay = service.stage_objects_batch(replay_request).unwrap();
    assert!(replay.replayed);
    assert_eq!(replay.commit_version, first.commit_version);
    assert_eq!(replay.operation, first.operation);
    operation = first.operation;

    operation = service
        .stage_objects_batch(StageObjectsBatchRequest {
            context: publication_context(&store, &mut counter),
            expected_operation: operation,
            staged_objects: staged[MAX_PUBLICATION_BATCH_ROWS..].to_vec(),
        })
        .unwrap()
        .operation;
    assert!(matches!(
        service.transition_publish(TransitionPublishRequest {
            context: publication_context(&store, &mut counter),
            expected_operation: operation.clone(),
            transition: PublishTransition::BeginFinalization,
        }),
        Err(PublicationError::OperationCodec(
            PublishRecordError {
                ticket: INVALID_PHASE_PAYLOAD
            }
        ))
    ));

    let uploaded = uploaded_rows(&staged);
    for (expected, next) in staged
        .chunks(MAX_PUBLICATION_BATCH_ROWS)
        .zip(uploaded.chunks(MAX_PUBLICATION_BATCH_ROWS))
    {
        operation = service
            .mark_objects_uploaded_batch(MarkObjectsUploadedBatchRequest {
                context: publication_context(&store, &mut counter),
                expected_operation: operation,
                staged_object_updates: expected
                    .iter()
                    .cloned()
                    .zip(next.iter().cloned())
                    .map(|(expected, next)| StagedObjectUpdate { expected, next })
                    .collect(),
            })
            .unwrap()
            .operation;
    }

    operation = service
        .stage_manifest_batch(StageManifestBatchRequest {
            context: publication_context(&store, &mut counter),
            expected_operation: operation,
            manifest_rows: manifest[..MAX_PUBLICATION_BATCH_ROWS].to_vec(),
            dependency_owner_revision_ids: Vec::new(),
        })
        .unwrap()
        .operation;
    assert!(matches!(
        service.transition_publish(TransitionPublishRequest {
            context: publication_context(&store, &mut counter),
            expected_operation: operation.clone(),
            transition: PublishTransition::BeginFinalization,
        }),
        Err(PublicationError::OperationCodec(
            PublishRecordError {
                ticket: INVALID_PHASE_PAYLOAD
            }
        ))
    ));
    operation = service
        .stage_manifest_batch(StageManifestBatchRequest {
            context: publication_context(&store, &mut counter),
            expected_operation: operation,
            manifest_rows: manifest[MAX_PUBLICATION_BATCH_ROWS..].to_vec(),
            dependency_owner_revision_ids: Vec::new(),
        })
        .unwrap()
        .operation;
    assert!(operation.has_complete_publication_closure());
    assert_eq!(
        count_prefix(
            &store,
            MetadataFamily::StagedObject,
            &staged_object_prefix(root(), operation.operation_id),
        ),
        TEST_BATCH_ROWS
    );
    assert_eq!(
        count_prefix(
            &store,
            MetadataFamily::ArtifactManifest,
            &artifact_manifest_prefix(root(), revision_id),
        ),
        TEST_BATCH_ROWS
    );

    operation = service
        .transition_publish(TransitionPublishRequest {
            context: publication_context(&store, &mut counter),
            expected_operation: operation,
            transition: PublishTransition::BeginFinalization,
        })
        .unwrap()
        .operation;
    let finalized = service
        .finalize_publish(FinalizePublishRequest {
            context: publication_context(&store, &mut counter),
            artifact: published_artifact(&operation),
            expected_operation: operation,
            dependency_owner_revision_ids: Vec::new(),
        })
        .unwrap();
    assert_eq!(finalized.operation.phase, PublishPhase::Published);
    assert_eq!(
        finalized.result.path_generation,
        Generation::new(1).unwrap()
    );
    let visible = get_visible_path_at(
        &store,
        RootReadContext::current(&store, root(), placement(), owner()).unwrap(),
        &workbench(),
        &path("outputs/large.bin"),
    )
    .unwrap()
    .unwrap();
    assert_eq!(visible.artifact_revision_id, revision_id);
    assert_eq!(visible.logical_size, TEST_BATCH_ROWS as u64);
}

#[test]
fn replace_creates_zero_reference_gc_candidate() {
    let mut counter = 1;
    let store = ready_store(&mut counter);
    let service = PublicationService::new(&store);
    let artifact_path = path("outputs/replace.bin");
    let old_revision = revision(200);
    publish_full(
        &service,
        &store,
        &mut counter,
        operation_id(200),
        old_revision,
        artifact_path.clone(),
        PublishClaim::CreateOnly,
        1,
    );
    let new_revision = revision(201);
    let replaced = publish_full(
        &service,
        &store,
        &mut counter,
        operation_id(201),
        new_revision,
        artifact_path.clone(),
        PublishClaim::ReplaceOnly {
            expected_generation: Generation::new(1).unwrap(),
        },
        1,
    );
    let version = store.current_read_version().unwrap();
    let old = store
        .read_at(
            root(),
            placement(),
            owner(),
            MetadataFamily::ArtifactRevision,
            &artifact_revision_key(root(), old_revision),
            version,
        )
        .unwrap()
        .map(|payload| ArtifactRevisionRecord::decode(&payload).unwrap())
        .unwrap();
    assert_eq!(old.strong_reference_count, 0);
    assert_eq!(old.reference_epoch, ReferenceEpoch::new(2));
    assert_eq!(old.last_zero_ref_version, Some(replaced.commit_version));
    let candidate = store
        .read_at(
            root(),
            placement(),
            owner(),
            MetadataFamily::GcCandidate,
            &gc_candidate_key(root(), old_revision, ReferenceEpoch::new(2)),
            version,
        )
        .unwrap()
        .map(|payload| GcCandidateRecord::decode(&payload).unwrap())
        .unwrap();
    assert_eq!(candidate.last_zero_ref_version, replaced.commit_version);
    assert_eq!(candidate.claim_state, GcClaimState::Candidate);
    let visible = get_visible_path_at(
        &store,
        RootReadContext::current(&store, root(), placement(), owner()).unwrap(),
        &workbench(),
        &artifact_path,
    )
    .unwrap()
    .unwrap();
    assert_eq!(visible.generation, Generation::new(2).unwrap());
    assert_eq!(visible.artifact_revision_id, new_revision);
}

#[test]
fn dependency_free_append_rematerialization_releases_old_head_for_gc() {
    let mut counter = 1;
    let store = ready_store(&mut counter);
    let service = PublicationService::new(&store);
    let artifact_path = path("outputs/rematerialized-append.bin");
    let base_revision = revision(205);
    publish_full(
        &service,
        &store,
        &mut counter,
        operation_id(205),
        base_revision,
        artifact_path.clone(),
        PublishClaim::CreateOnly,
        1,
    );

    let squashed_revision = revision(206);
    let appended = publish_full(
        &service,
        &store,
        &mut counter,
        operation_id(206),
        squashed_revision,
        artifact_path.clone(),
        PublishClaim::Append {
            expected_generation: Generation::new(1).unwrap(),
            base_revision_id: base_revision,
            append_offset: 1,
        },
        2,
    );
    let version = store.current_read_version().unwrap();
    let base = ArtifactRevisionRecord::decode(
        &payload_at(
            &store,
            MetadataFamily::ArtifactRevision,
            &artifact_revision_key(root(), base_revision),
            version,
        )
        .unwrap(),
    )
    .unwrap();
    assert_eq!(base.strong_reference_count, 0);
    assert_eq!(base.reference_epoch, ReferenceEpoch::new(2));
    assert_eq!(base.last_zero_ref_version, Some(appended.commit_version));
    let candidate = GcCandidateRecord::decode(
        &payload_at(
            &store,
            MetadataFamily::GcCandidate,
            &gc_candidate_key(root(), base_revision, ReferenceEpoch::new(2)),
            version,
        )
        .unwrap(),
    )
    .unwrap();
    assert_eq!(candidate.claim_state, GcClaimState::Candidate);

    let squashed = ArtifactRevisionRecord::decode(
        &payload_at(
            &store,
            MetadataFamily::ArtifactRevision,
            &artifact_revision_key(root(), squashed_revision),
            version,
        )
        .unwrap(),
    )
    .unwrap();
    assert_eq!(squashed.dependency_count, 0);
    assert_eq!(squashed.dependency_depth, 0);
    assert_eq!(
        squashed.dependency_digest,
        dependency_owner_digest(&[]).unwrap()
    );
    for object_index in 0..2 {
        let row = ArtifactManifestRow::decode(
            &payload_at(
                &store,
                MetadataFamily::ArtifactManifest,
                &artifact_manifest_key(root(), squashed_revision, object_index),
                version,
            )
            .unwrap(),
        )
        .unwrap();
        assert_eq!(row.physical_owner_revision_id, squashed_revision);
        assert_eq!(row.physical_object_index, object_index);
        assert!(row.append_segment.is_none());
    }
    let visible = get_visible_path_at(
        &store,
        RootReadContext::current(&store, root(), placement(), owner()).unwrap(),
        &workbench(),
        &artifact_path,
    )
    .unwrap()
    .unwrap();
    assert_eq!(visible.generation, Generation::new(2).unwrap());
    assert_eq!(visible.artifact_revision_id, squashed_revision);
}

#[test]
fn multi_megabyte_body_size_is_not_metadata_transaction_bytes() {
    let mut counter = 1;
    let store = ready_store(&mut counter);
    let service = PublicationService::new(&store);
    let revision_id = revision(216);
    let mut staged = staged_rows(revision_id, 1);
    staged[0].expected_length = 3_600_000;
    let manifest = manifest_rows(&staged);
    let operation = begin_operation(
        &service,
        &store,
        &mut counter,
        publish_operation(
            operation_id(216),
            revision_id,
            path("outputs/large-body.bin"),
            PublishClaim::CreateOnly,
            &staged,
            &manifest,
        ),
    );
    let operation = stage_all(
        &service,
        &store,
        &mut counter,
        operation,
        &staged,
        &manifest,
    );
    let operation = service
        .transition_publish(TransitionPublishRequest {
            context: publication_context(&store, &mut counter),
            expected_operation: operation,
            transition: PublishTransition::BeginFinalization,
        })
        .unwrap()
        .operation;
    let mut artifact = published_artifact(&operation);
    artifact.logical_size = 3_600_000;
    let finalized = service
        .finalize_publish(FinalizePublishRequest {
            context: publication_context(&store, &mut counter),
            expected_operation: operation,
            artifact,
            dependency_owner_revision_ids: Vec::new(),
        })
        .unwrap();

    assert_eq!(finalized.result.logical_size, 3_600_000);
    assert_eq!(finalized.operation.phase, PublishPhase::Published);
}

#[test]
fn maximum_valid_projection_union_rejects_before_metadata_side_effects() {
    let mut counter = 1;
    let store = ready_store(&mut counter);
    let service = PublicationService::new(&store);
    let artifact_path = path("outputs/disjoint-projections.bin");
    let old_projection = budget_projection_with_prefix("oldget", 997);
    let next_projection = budget_projection_with_prefix("newget", 993);
    assert_eq!(old_projection.encode().unwrap().len(), 61_143);
    assert_eq!(next_projection.encode().unwrap().len(), 60_903);
    assert!(fields_are_disjoint("oldget", &next_projection));
    publish_full_with_projection(
        &service,
        &store,
        &mut counter,
        operation_id(218),
        revision(218),
        artifact_path.clone(),
        PublishClaim::CreateOnly,
        1,
        old_projection,
    );

    let revision_id = revision(217);
    let staged = staged_rows(revision_id, 1);
    let manifest = manifest_rows(&staged);
    let operation = begin_operation(
        &service,
        &store,
        &mut counter,
        publish_operation(
            operation_id(217),
            revision_id,
            artifact_path.clone(),
            PublishClaim::ReplaceOnly {
                expected_generation: Generation::new(1).unwrap(),
            },
            &staged,
            &manifest,
        ),
    );
    let operation = stage_all(
        &service,
        &store,
        &mut counter,
        operation,
        &staged,
        &manifest,
    );
    let operation = service
        .transition_publish(TransitionPublishRequest {
            context: publication_context(&store, &mut counter),
            expected_operation: operation,
            transition: PublishTransition::BeginFinalization,
        })
        .unwrap()
        .operation;
    let mut artifact = published_artifact(&operation);
    artifact.typed_index_projection = next_projection.encode().unwrap();
    let version_before = store.current_read_version().unwrap();
    let recovery_before = store.recovery_state().unwrap();
    let path_key = path_current_key(root(), incarnation(9), &artifact_path);
    let path_before = payload_at(
        &store,
        MetadataFamily::PathCurrent,
        &path_key,
        version_before,
    )
    .unwrap();
    let error = service
        .finalize_publish(FinalizePublishRequest {
            context: publication_context(&store, &mut counter),
            expected_operation: operation.clone(),
            artifact,
            dependency_owner_revision_ids: Vec::new(),
        })
        .expect_err("maximum valid projection union must be rejected before commit");
    assert!(matches!(
        error,
        PublicationError::Meta(MetaError::InvalidCommand {
            reason: "event projection exceeds size bound"
        })
    ));
    assert_eq!(store.current_read_version().unwrap(), version_before);
    assert_eq!(store.recovery_state().unwrap(), recovery_before);
    assert_eq!(
        payload_at(
            &store,
            MetadataFamily::PathCurrent,
            &path_key,
            version_before,
        )
        .unwrap(),
        path_before
    );
    assert!(payload_at(
        &store,
        MetadataFamily::ArtifactRevision,
        &artifact_revision_key(root(), revision_id),
        version_before,
    )
    .is_none());
    assert!(read_revision_claim(&store, revision_id).is_some());
    let durable_operation = PublishOperationRecord::decode(
        &payload_at(
            &store,
            MetadataFamily::Operation,
            &operation_key(root(), OperationKind::Publish, operation.operation_id),
            version_before,
        )
        .unwrap(),
    )
    .unwrap();
    assert_eq!(durable_operation.phase, PublishPhase::Finalizing);
}

#[test]
fn secondary_indexes_switch_atomically_and_survive_reopen() {
    let mut counter = 1;
    let store = ready_store(&mut counter);
    let service = PublicationService::new(&store);
    let artifact_path = path("outputs/indexed.bin");
    let stage_field = QueryFieldId::new("run.stage").unwrap();
    let owner_field = QueryFieldId::new("run.owner").unwrap();
    let old_projection = TypedProjection::new(query_fields([
        (stage_field.clone(), QueryScalar::Unsigned(1)),
        (owner_field.clone(), QueryScalar::String("alpha".to_owned())),
    ]))
    .unwrap();
    let created = publish_full_with_projection(
        &service,
        &store,
        &mut counter,
        operation_id(220),
        revision(220),
        artifact_path.clone(),
        PublishClaim::CreateOnly,
        1,
        old_projection.duplicate(),
    );
    let old_read = ReadVersion::new(created.commit_version.get()).unwrap();
    let old_entry = PathEntry::decode(
        &payload_at(
            &store,
            MetadataFamily::PathCurrent,
            &path_current_key(root(), incarnation(9), &artifact_path),
            old_read,
        )
        .unwrap(),
    )
    .unwrap();
    let old_stage_key = secondary_index_key(
        root(),
        &stage_field,
        &QueryScalar::Unsigned(1),
        incarnation(9),
        old_entry.path_digest,
        old_entry.index_generation,
    );
    let old_owner_key = secondary_index_key(
        root(),
        &owner_field,
        &QueryScalar::String("alpha".to_owned()),
        incarnation(9),
        old_entry.path_digest,
        old_entry.index_generation,
    );
    assert!(store
        .read_at(
            root(),
            placement(),
            owner(),
            MetadataFamily::SecondaryIndex,
            &old_stage_key,
            old_read,
        )
        .unwrap()
        .is_some());

    let new_projection = TypedProjection::new(query_fields([(
        stage_field.clone(),
        QueryScalar::Unsigned(2),
    )]))
    .unwrap();
    let replaced = publish_full_with_projection(
        &service,
        &store,
        &mut counter,
        operation_id(221),
        revision(221),
        artifact_path.clone(),
        PublishClaim::ReplaceOnly {
            expected_generation: Generation::new(1).unwrap(),
        },
        1,
        new_projection.duplicate(),
    );
    let current_read = ReadVersion::new(replaced.commit_version.get()).unwrap();
    let new_entry = PathEntry::decode(
        &payload_at(
            &store,
            MetadataFamily::PathCurrent,
            &path_current_key(root(), incarnation(9), &artifact_path),
            current_read,
        )
        .unwrap(),
    )
    .unwrap();
    let new_stage_key = secondary_index_key(
        root(),
        &stage_field,
        &QueryScalar::Unsigned(2),
        incarnation(9),
        new_entry.path_digest,
        new_entry.index_generation,
    );
    assert!(store
        .read_at(
            root(),
            placement(),
            owner(),
            MetadataFamily::SecondaryIndex,
            &old_stage_key,
            current_read,
        )
        .unwrap()
        .is_some());
    assert!(store
        .read_at(
            root(),
            placement(),
            owner(),
            MetadataFamily::SecondaryIndex,
            &old_owner_key,
            current_read,
        )
        .unwrap()
        .is_some());
    let current_payload = store
        .read_at(
            root(),
            placement(),
            owner(),
            MetadataFamily::SecondaryIndex,
            &new_stage_key,
            current_read,
        )
        .unwrap()
        .unwrap();
    assert_eq!(
        SecondaryIndexRecord::decode(&current_payload).unwrap(),
        SecondaryIndexRecord {
            path_digest: new_entry.path_digest,
            index_generation: new_entry.index_generation,
        }
    );
    assert!(store
        .read_at(
            root(),
            placement(),
            owner(),
            MetadataFamily::SecondaryIndex,
            &old_stage_key,
            old_read,
        )
        .unwrap()
        .is_some());
    let reopened = store.reopen();
    assert_eq!(
        reopened
            .read_at(
                root(),
                placement(),
                owner(),
                MetadataFamily::SecondaryIndex,
                &new_stage_key,
                current_read,
            )
            .unwrap(),
        Some(current_payload)
    );
}

#[test]
fn secondary_index_stage_v2_replay_binds_immutable_write_intent() {
    let rows = vec![IndexRow {
        key: b"row-a".to_vec(),
        value: b"value-a".to_vec(),
    }];
    let expected = secondary_index_stage_intent_digest(
        root(),
        operation_id(229),
        b"operation-key",
        b"workspace-key",
        b"path-key",
        b"locator-key",
        b"locator-payload",
        &rows,
    );
    let encoded = encode_secondary_index_stage_result(expected);
    assert_eq!(
        validate_secondary_index_stage_result(&encoded, expected),
        Ok(())
    );

    let changed_locator = secondary_index_stage_intent_digest(
        root(),
        operation_id(229),
        b"operation-key",
        b"workspace-key",
        b"path-key",
        b"locator-key",
        b"different-locator-payload",
        &rows,
    );
    assert_eq!(
        validate_secondary_index_stage_result(&encoded, changed_locator),
        Err(PublicationError::OperationInputMismatch)
    );

    let changed_rows = vec![IndexRow {
        key: b"row-b".to_vec(),
        value: b"value-b".to_vec(),
    }];
    let changed_rows_digest = secondary_index_stage_intent_digest(
        root(),
        operation_id(229),
        b"operation-key",
        b"workspace-key",
        b"path-key",
        b"locator-key",
        b"locator-payload",
        &changed_rows,
    );
    assert_eq!(
        validate_secondary_index_stage_result(&encoded, changed_rows_digest),
        Err(PublicationError::OperationInputMismatch)
    );

    let mut old_version = encoded;
    old_version[0] = 1;
    assert_eq!(
        validate_secondary_index_stage_result(&old_version, expected),
        Err(PublicationError::ReplayResultMismatch)
    );
}

#[test]
fn finalize_resumes_a_durable_index_stage_after_workspace_and_heartbeat_updates() {
    let mut counter = 1;
    let store = ready_store(&mut counter);
    let service = PublicationService::new(&store);
    let artifact_path = path("outputs/resumable-index.bin");
    let staged_rows = staged_rows(revision(230), 1);
    let manifest = manifest_rows(&staged_rows);
    let operation = publish_operation(
        operation_id(230),
        revision(230),
        artifact_path.clone(),
        PublishClaim::CreateOnly,
        &staged_rows,
        &manifest,
    );
    let operation = begin_operation(&service, &store, &mut counter, operation);
    let operation = stage_all(
        &service,
        &store,
        &mut counter,
        operation,
        &staged_rows,
        &manifest,
    );
    let operation = service
        .transition_publish(TransitionPublishRequest {
            context: publication_context(&store, &mut counter),
            expected_operation: operation,
            transition: PublishTransition::BeginFinalization,
        })
        .unwrap()
        .operation;
    let projection = TypedProjection::new(query_fields([(
        QueryFieldId::new("run.stage").unwrap(),
        QueryScalar::Unsigned(1),
    )]))
    .unwrap();
    let mut artifact = published_artifact(&operation);
    artifact.typed_index_projection = projection.encode().unwrap();
    let first_context = publication_context(&store, &mut counter);
    let request = FinalizePublishRequest {
        context: first_context,
        artifact,
        expected_operation: operation,
        dependency_owner_revision_ids: Vec::new(),
    };

    store.arm();
    assert!(matches!(
        service.finalize_publish(request.clone()),
        Err(PublicationError::Meta(MetaError::Other {
            ticket: WRITE_CONFLICT
        }))
    ));
    let digest = path_index_digest(&artifact_path);
    let generation = path_index_generation(first_context.request_id);
    let locator_key = path_index_locator_key(root(), incarnation(9), digest, generation);
    let staged_locator = PathIndexLocatorRecord::decode(
        &payload_at(
            &store,
            MetadataFamily::PathIndexLocator,
            &locator_key,
            store.current_read_version().unwrap(),
        )
        .unwrap(),
    )
    .unwrap();
    assert_eq!(staged_locator.state, PathIndexLocatorState::Staged);
    publish_full(
        &service,
        &store,
        &mut counter,
        operation_id(231),
        revision(231),
        path("outputs/unrelated.bin"),
        PublishClaim::CreateOnly,
        1,
    );
    let heartbeated = service
        .heartbeat_publish(HeartbeatPublishRequest {
            context: publication_context(&store, &mut counter),
            expected_operation: request.expected_operation.clone(),
            activity_deadline_ms: 2_000_000,
        })
        .unwrap()
        .operation;

    let resumed = service
        .finalize_publish(FinalizePublishRequest {
            context: PublicationContext {
                read_version: store.current_read_version().unwrap(),
                ..first_context
            },
            expected_operation: heartbeated,
            ..request
        })
        .unwrap();
    assert!(!resumed.replayed);
    let published_locator = PathIndexLocatorRecord::decode(
        &payload_at(
            &store,
            MetadataFamily::PathIndexLocator,
            &locator_key,
            ReadVersion::new(resumed.commit_version.get()).unwrap(),
        )
        .unwrap(),
    )
    .unwrap();
    assert_eq!(published_locator.state, PathIndexLocatorState::Published);
}

#[test]
fn append_base_mismatch_fails_without_changing_the_path() {
    let mut counter = 1;
    let store = ready_store(&mut counter);
    let service = PublicationService::new(&store);
    let artifact_path = path("outputs/append.bin");
    let base_revision = revision(300);
    publish_full(
        &service,
        &store,
        &mut counter,
        operation_id(300),
        base_revision,
        artifact_path.clone(),
        PublishClaim::CreateOnly,
        1,
    );
    let staged = Vec::new();
    let manifest = Vec::new();
    let operation = publish_operation(
        operation_id(301),
        revision(301),
        artifact_path.clone(),
        PublishClaim::Append {
            expected_generation: Generation::new(1).unwrap(),
            base_revision_id: revision(999),
            append_offset: 1,
        },
        &staged,
        &manifest,
    );
    let operation = begin_operation(&service, &store, &mut counter, operation);
    let operation = service
        .transition_publish(TransitionPublishRequest {
            context: publication_context(&store, &mut counter),
            expected_operation: operation,
            transition: PublishTransition::BeginFinalization,
        })
        .unwrap()
        .operation;
    assert_eq!(
        service.finalize_publish(FinalizePublishRequest {
            context: publication_context(&store, &mut counter),
            artifact: published_artifact(&operation),
            expected_operation: operation,
            dependency_owner_revision_ids: Vec::new(),
        }),
        Err(PublicationError::AppendBaseRevisionMismatch)
    );
    let visible = get_visible_path_at(
        &store,
        RootReadContext::current(&store, root(), placement(), owner()).unwrap(),
        &workbench(),
        &artifact_path,
    )
    .unwrap()
    .unwrap();
    assert_eq!(visible.generation, Generation::new(1).unwrap());
    assert_eq!(visible.artifact_revision_id, base_revision);
}

#[test]
fn newer_owner_takeover_and_finalize_have_one_durable_winner() {
    let staged = Vec::new();
    let manifest = Vec::new();

    {
        let mut counter = 1;
        let store = ready_store(&mut counter);
        let service = PublicationService::new(&store);
        let operation = publish_operation(
            operation_id(400),
            revision(400),
            path("outputs/race.bin"),
            PublishClaim::CreateOnly,
            &staged,
            &manifest,
        );
        let operation = begin_operation(&service, &store, &mut counter, operation);
        let operation = service
            .transition_publish(TransitionPublishRequest {
                context: publication_context(&store, &mut counter),
                expected_operation: operation,
                transition: PublishTransition::BeginFinalization,
            })
            .unwrap()
            .operation;
        let finalized = service
            .finalize_publish(FinalizePublishRequest {
                context: publication_context(&store, &mut counter),
                artifact: published_artifact(&operation),
                expected_operation: operation.clone(),
                dependency_owner_revision_ids: Vec::new(),
            })
            .unwrap();
        assert_eq!(finalized.operation.phase, PublishPhase::Published);

        store
            .advance_owner_epoch(Some(owner()), successor_owner())
            .unwrap();
        let takeover = service.take_over_orphaned_publish(TakeOverOrphanedPublishRequest {
            context: publication_context_for_owner(&store, &mut counter, successor_owner()),
            expected_operation: operation,
            observed_now_ms: 0,
            maximum_clock_skew_ms: 30_000,
            terminal_error: PublishTerminalError {
                kind: PublishTerminalErrorKind::AbortedByCaller,
                message: "prior owner was fenced".to_owned(),
                evidence_digest: None,
            },
        });
        assert!(matches!(
            takeover,
            Err(PublicationError::ConcurrentMutation)
        ));
        assert!(get_visible_path_at(
            &store,
            RootReadContext::current(&store, root(), placement(), successor_owner()).unwrap(),
            &workbench(),
            &path("outputs/race.bin"),
        )
        .unwrap()
        .is_some());
    }

    {
        let mut counter = 1;
        let store = ready_store(&mut counter);
        let service = PublicationService::new(&store);
        let operation = publish_operation(
            operation_id(401),
            revision(401),
            path("outputs/race-abort.bin"),
            PublishClaim::CreateOnly,
            &staged,
            &manifest,
        );
        let operation = begin_operation(&service, &store, &mut counter, operation);
        let operation = service
            .transition_publish(TransitionPublishRequest {
                context: publication_context(&store, &mut counter),
                expected_operation: operation,
                transition: PublishTransition::BeginFinalization,
            })
            .unwrap()
            .operation;
        let same_owner = service.take_over_orphaned_publish(TakeOverOrphanedPublishRequest {
            context: publication_context(&store, &mut counter),
            expected_operation: operation.clone(),
            observed_now_ms: 999_999,
            maximum_clock_skew_ms: 30_000,
            terminal_error: PublishTerminalError {
                kind: PublishTerminalErrorKind::AbortedByCaller,
                message: "not durably expired".to_owned(),
                evidence_digest: None,
            },
        });
        assert_eq!(
            same_owner,
            Err(PublicationError::ActivityLeaseNotExpired {
                deadline_ms: 1_000_000,
                lease_clock_ms: 999_999,
                maximum_clock_skew_ms: 30_000,
            })
        );

        store
            .advance_owner_epoch(Some(owner()), successor_owner())
            .unwrap();
        let shared_version = store.current_read_version().unwrap();
        let takeover_context = publication_context_at(
            successor_owner(),
            next_request(&mut counter),
            shared_version,
        );
        let finalize_context = publication_context_at(
            successor_owner(),
            next_request(&mut counter),
            shared_version,
        );
        let abort_winner = service
            .take_over_orphaned_publish(TakeOverOrphanedPublishRequest {
                context: takeover_context,
                expected_operation: operation.clone(),
                observed_now_ms: 0,
                maximum_clock_skew_ms: 30_000,
                terminal_error: PublishTerminalError {
                    kind: PublishTerminalErrorKind::AbortedByCaller,
                    message: "prior owner was fenced".to_owned(),
                    evidence_digest: None,
                },
            })
            .unwrap();
        assert_eq!(abort_winner.operation.phase, PublishPhase::Aborting);
        assert!(abort_winner.operation.publication_absence_proof.is_some());
        let finalize_loser = service.finalize_publish(FinalizePublishRequest {
            context: finalize_context,
            artifact: published_artifact(&operation),
            expected_operation: operation,
            dependency_owner_revision_ids: Vec::new(),
        });
        assert!(matches!(
            finalize_loser,
            Err(PublicationError::Meta(
                MetaError::WriteReadVersionMismatch { .. }
            ))
        ));
        assert_eq!(
            get_visible_path_at(
                &store,
                RootReadContext::current(&store, root(), placement(), successor_owner(),)
                    .unwrap(),
                &workbench(),
                &path("outputs/race-abort.bin"),
            )
            .unwrap(),
            None
        );
    }
}

#[test]
fn stale_publication_driver_is_classified_as_concurrent_progress() {
    let mut counter = 1;
    let store = ready_store(&mut counter);
    let service = PublicationService::new(&store);
    let staged = staged_rows(revision(402), 2);
    let manifest = manifest_rows(&staged);
    let operation = publish_operation(
        operation_id(402),
        revision(402),
        path("outputs/concurrent-progress.bin"),
        PublishClaim::CreateOnly,
        &staged,
        &manifest,
    );
    let stale = begin_operation(&service, &store, &mut counter, operation);
    service
        .stage_objects_batch(StageObjectsBatchRequest {
            context: publication_context(&store, &mut counter),
            expected_operation: stale.clone(),
            staged_objects: staged[..1].to_vec(),
        })
        .unwrap();

    let error = service
        .stage_objects_batch(StageObjectsBatchRequest {
            context: publication_context(&store, &mut counter),
            expected_operation: stale,
            staged_objects: staged[..1].to_vec(),
        })
        .unwrap_err();
    assert_eq!(
        error.message(&policy(), ""),
        "publication state changed concurrently",
        "a stale driver must re-observe the durable operation before contextual authority"
    );
}

#[test]
fn stale_upload_marker_is_classified_before_noop_transition_validation() {
    let mut counter = 1;
    let store = ready_store(&mut counter);
    let service = PublicationService::new(&store);
    let staged = staged_rows(revision(404), 1);
    let manifest = manifest_rows(&staged);
    let operation = publish_operation(
        operation_id(404),
        revision(404),
        path("outputs/concurrent-upload.bin"),
        PublishClaim::CreateOnly,
        &staged,
        &manifest,
    );
    let operation = begin_operation(&service, &store, &mut counter, operation);
    let stale = service
        .stage_objects_batch(StageObjectsBatchRequest {
            context: publication_context(&store, &mut counter),
            expected_operation: operation,
            staged_objects: staged.clone(),
        })
        .unwrap()
        .operation;
    let mut uploaded = staged[0].clone();
    uploaded.provider_state = StagedProviderState::Uploaded;
    service
        .mark_objects_uploaded_batch(MarkObjectsUploadedBatchRequest {
            context: publication_context(&store, &mut counter),
            expected_operation: stale.clone(),
            staged_object_updates: vec![StagedObjectUpdate {
                expected: staged[0].clone(),
                next: uploaded.clone(),
            }],
        })
        .unwrap();

    assert_eq!(
        service.mark_objects_uploaded_batch(MarkObjectsUploadedBatchRequest {
            context: publication_context(&store, &mut counter),
            expected_operation: stale,
            staged_object_updates: vec![StagedObjectUpdate {
                expected: uploaded.clone(),
                next: uploaded,
            }],
        }),
        Err(PublicationError::ConcurrentMutation)
    );
}

#[test]
fn stale_publication_finalizer_joins_the_durable_winner() {
    let mut counter = 1;
    let store = ready_store(&mut counter);
    let service = PublicationService::new(&store);
    let staged = Vec::new();
    let manifest = Vec::new();
    let operation = publish_operation(
        operation_id(403),
        revision(403),
        path("outputs/concurrent-finalize.bin"),
        PublishClaim::CreateOnly,
        &staged,
        &manifest,
    );
    let operation = begin_operation(&service, &store, &mut counter, operation);
    let finalizing = service
        .transition_publish(TransitionPublishRequest {
            context: publication_context(&store, &mut counter),
            expected_operation: operation,
            transition: PublishTransition::BeginFinalization,
        })
        .unwrap()
        .operation;
    let artifact = published_artifact(&finalizing);
    let winner = service
        .finalize_publish(FinalizePublishRequest {
            context: publication_context(&store, &mut counter),
            artifact: artifact.clone(),
            expected_operation: finalizing.clone(),
            dependency_owner_revision_ids: Vec::new(),
        })
        .unwrap();
    assert_eq!(winner.operation.phase, PublishPhase::Published);

    assert_eq!(
        service.finalize_publish(FinalizePublishRequest {
            context: publication_context(&store, &mut counter),
            artifact,
            expected_operation: finalizing,
            dependency_owner_revision_ids: Vec::new(),
        }),
        Err(PublicationError::ConcurrentMutation)
    );
}

#[test]
fn begin_publish_binds_operation_to_admitting_owner_epoch() {
    let mut counter = 1;
    let store = ready_store(&mut counter);
    let service = PublicationService::new(&store);
    let mut operation = publish_operation(
        operation_id(402),
        revision(402),
        path("outputs/wrong-owner.bin"),
        PublishClaim::CreateOnly,
        &[],
        &[],
    );
    operation.initiating_owner_epoch = successor_owner();
    seal_publish_operation(&mut operation);

    assert_eq!(
        service.begin_publish(BeginPublishRequest {
            context: publication_context(&store, &mut counter),
            operation,
        }),
        Err(PublicationError::InitiatingOwnerEpochMismatch {
            expected: owner(),
            actual: successor_owner(),
        })
    );
}

#[test]
fn activity_heartbeat_is_initiator_only_extend_only_and_fences_expiry() {
    let mut counter = 1;
    let store = ready_store(&mut counter);
    let service = PublicationService::new(&store);
    let operation = begin_operation(
        &service,
        &store,
        &mut counter,
        publish_operation(
            operation_id(403),
            revision(403),
            path("outputs/leased-upload.bin"),
            PublishClaim::CreateOnly,
            &[],
            &[],
        ),
    );

    let heartbeated = service
        .heartbeat_publish(HeartbeatPublishRequest {
            context: publication_context(&store, &mut counter),
            expected_operation: operation,
            activity_deadline_ms: 2_000_000,
        })
        .unwrap()
        .operation;
    assert_eq!(heartbeated.activity_deadline_ms, 2_000_000);
    assert_eq!(heartbeated.phase, PublishPhase::Uploading);

    assert_eq!(
        service.heartbeat_publish(HeartbeatPublishRequest {
            context: publication_context(&store, &mut counter),
            expected_operation: heartbeated.clone(),
            activity_deadline_ms: 2_000_000,
        }),
        Err(PublicationError::ActivityDeadlineNotExtended {
            current: 2_000_000,
            requested: 2_000_000,
        })
    );
    assert_eq!(
        service.heartbeat_publish(HeartbeatPublishRequest {
            context: publication_context_for_owner(&store, &mut counter, successor_owner(),),
            expected_operation: heartbeated.clone(),
            activity_deadline_ms: 3_000_000,
        }),
        Err(PublicationError::HeartbeatOwnerMismatch {
            initiating: owner(),
            current: successor_owner(),
        })
    );

    assert_eq!(
        service.take_over_orphaned_publish(TakeOverOrphanedPublishRequest {
            context: publication_context(&store, &mut counter),
            expected_operation: heartbeated.clone(),
            observed_now_ms: 2_029_999,
            maximum_clock_skew_ms: 30_000,
            terminal_error: PublishTerminalError {
                kind: PublishTerminalErrorKind::ActivityLeaseExpired,
                message: "durable activity lease expired".to_owned(),
                evidence_digest: None,
            },
        }),
        Err(PublicationError::ActivityLeaseNotExpired {
            deadline_ms: 2_000_000,
            lease_clock_ms: 2_029_999,
            maximum_clock_skew_ms: 30_000,
        })
    );
    let taken_over = service
        .take_over_orphaned_publish(TakeOverOrphanedPublishRequest {
            context: publication_context(&store, &mut counter),
            expected_operation: heartbeated,
            observed_now_ms: 2_030_000,
            maximum_clock_skew_ms: 30_000,
            terminal_error: PublishTerminalError {
                kind: PublishTerminalErrorKind::ActivityLeaseExpired,
                message: "durable activity lease expired".to_owned(),
                evidence_digest: None,
            },
        })
        .unwrap()
        .operation;
    assert_eq!(taken_over.phase, PublishPhase::Aborting);
    assert_eq!(
        taken_over.terminal_error.unwrap().kind,
        PublishTerminalErrorKind::ActivityLeaseExpired
    );
}

#[test]
fn aborted_cleanup_removes_staged_and_manifest_rows_in_order() {
    let mut counter = 1;
    let store = ready_store(&mut counter);
    let service = PublicationService::new(&store);
    let revision_id = revision(500);
    let staged = staged_rows(revision_id, 3);
    let uploaded = uploaded_rows(&staged);
    let manifest = manifest_rows(&staged);
    let operation = publish_operation(
        operation_id(500),
        revision_id,
        path("outputs/cleanup.bin"),
        PublishClaim::CreateOnly,
        &staged,
        &manifest,
    );
    let operation = begin_operation(&service, &store, &mut counter, operation);
    let operation = stage_all(
        &service,
        &store,
        &mut counter,
        operation,
        &staged,
        &manifest,
    );
    let operation = service
        .transition_publish(TransitionPublishRequest {
            context: publication_context(&store, &mut counter),
            expected_operation: operation,
            transition: PublishTransition::BeginAbort {
                terminal_error: PublishTerminalError {
                    kind: PublishTerminalErrorKind::AbortedByCaller,
                    message: "caller cancelled".to_owned(),
                    evidence_digest: None,
                },
            },
        })
        .unwrap()
        .operation;
    let mut operation = service
        .transition_publish(TransitionPublishRequest {
            context: publication_context(&store, &mut counter),
            expected_operation: operation,
            transition: PublishTransition::BeginCleaning,
        })
        .unwrap()
        .operation;
    let cleanup_updates = uploaded
        .iter()
        .cloned()
        .map(|expected| {
            let mut next = expected.clone();
            next.provider_state = StagedProviderState::Aborted;
            next.cleanup_state = StagedCleanupState::Deleted;
            StagedObjectUpdate { expected, next }
        })
        .collect();
    operation = service
        .cleanup_publish_batch(CleanupPublishBatchRequest {
            context: publication_context(&store, &mut counter),
            expected_operation: operation,
            staged_object_updates: cleanup_updates,
        })
        .unwrap()
        .operation;
    assert_eq!(operation.cleanup_staged_object_cursor, 3);
    assert_eq!(operation.cleanup_manifest_cursor, 0);
    operation = service
        .cleanup_publish_batch(CleanupPublishBatchRequest {
            context: publication_context(&store, &mut counter),
            expected_operation: operation,
            staged_object_updates: Vec::new(),
        })
        .unwrap()
        .operation;
    assert_eq!(operation.cleanup_manifest_cursor, 3);
    operation = service
        .transition_publish(TransitionPublishRequest {
            context: publication_context(&store, &mut counter),
            expected_operation: operation,
            transition: PublishTransition::FinishCleanup,
        })
        .unwrap()
        .operation;
    assert_eq!(operation.phase, PublishPhase::Cleaned);
    assert_eq!(
        count_prefix(
            &store,
            MetadataFamily::StagedObject,
            &staged_object_prefix(root(), operation.operation_id),
        ),
        0
    );
    assert_eq!(
        count_prefix(
            &store,
            MetadataFamily::ArtifactManifest,
            &artifact_manifest_prefix(root(), revision_id),
        ),
        0
    );
}

fn read_revision_claim(store: &MetaShard, revision_id: ArtifactRevisionId) -> Option<Vec<u8>> {
    let version = store.current_read_version().unwrap();
    store
        .read_at(
            root(),
            placement(),
            owner(),
            MetadataFamily::ArtifactRevision,
            &artifact_revision_claim_key(root(), revision_id),
            version,
        )
        .unwrap()
}

#[test]
fn begin_publish_rejects_second_operation_for_same_revision_until_cleanup_completes() {
    // Staged rows derive permanent object keys from the revision id alone,
    // so two operations owning one revision could destroy each other's
    // published objects during abort cleanup. The
    // begin-time exclusive claim must reject the second operation and must
    // be released only when the first operation's cleanup completes.
    let mut counter = 1;
    let store = ready_store(&mut counter);
    let service = PublicationService::new(&store);
    let revision_id = revision(910);
    let staged = staged_rows(revision_id, 1);
    let manifest = manifest_rows(&staged);
    // Both operations would stage rows naming identical provider keys.
    assert_eq!(
        staged[0].object_key,
        object_block_key(shard(), root(), revision_id, 0)
    );

    let operation_a = publish_operation(
        operation_id(910),
        revision_id,
        path("outputs/duplicate-revision-claim.bin"),
        PublishClaim::CreateOnly,
        &staged,
        &manifest,
    );
    let begun_a = service
        .begin_publish(BeginPublishRequest {
            context: publication_context(&store, &mut counter),
            operation: operation_a.clone(),
        })
        .expect("operation A begins for revision R");
    assert!(!begun_a.replayed);
    let claim_payload =
        read_revision_claim(&store, revision_id).expect("begin creates the revision claim");
    assert_eq!(
        ArtifactRevisionClaimRecord::decode(&claim_payload).unwrap(),
        ArtifactRevisionClaimRecord {
            operation_id: operation_id(910),
        }
    );

    let operation_b = publish_operation(
        operation_id(911),
        revision_id,
        path("outputs/duplicate-revision-claim.bin"),
        PublishClaim::CreateOnly,
        &staged,
        &manifest,
    );
    assert_eq!(
        service.begin_publish(BeginPublishRequest {
            context: publication_context(&store, &mut counter),
            operation: operation_b.clone(),
        }),
        Err(PublicationError::RevisionClaimHeld {
            revision: revision_id,
            operation_id: operation_id(910),
        })
    );

    // Exact same-operation replay is unaffected by the held claim.
    let replayed = service
        .begin_publish(BeginPublishRequest {
            context: publication_context(&store, &mut counter),
            operation: operation_a,
        })
        .expect("operation A replays its begin");
    assert!(replayed.replayed);

    // The claim survives abort and cleaning: provider objects for the
    // revision may still exist until cleanup finishes.
    let aborting = service
        .transition_publish(TransitionPublishRequest {
            context: publication_context(&store, &mut counter),
            expected_operation: begun_a.operation,
            transition: PublishTransition::BeginAbort {
                terminal_error: PublishTerminalError {
                    kind: PublishTerminalErrorKind::AbortedByCaller,
                    message: "caller cancelled".to_owned(),
                    evidence_digest: None,
                },
            },
        })
        .unwrap()
        .operation;
    let cleaning = service
        .transition_publish(TransitionPublishRequest {
            context: publication_context(&store, &mut counter),
            expected_operation: aborting,
            transition: PublishTransition::BeginCleaning,
        })
        .unwrap()
        .operation;
    assert_eq!(
        service.begin_publish(BeginPublishRequest {
            context: publication_context(&store, &mut counter),
            operation: operation_b.clone(),
        }),
        Err(PublicationError::RevisionClaimHeld {
            revision: revision_id,
            operation_id: operation_id(910),
        })
    );

    let cleaned = service
        .transition_publish(TransitionPublishRequest {
            context: publication_context(&store, &mut counter),
            expected_operation: cleaning,
            transition: PublishTransition::FinishCleanup,
        })
        .unwrap()
        .operation;
    assert_eq!(cleaned.phase, PublishPhase::Cleaned);
    assert_eq!(read_revision_claim(&store, revision_id), None);

    // With the previous owner's cleanup durably complete, the revision
    // identity is claimable again.
    let begun_b = service
        .begin_publish(BeginPublishRequest {
            context: publication_context(&store, &mut counter),
            operation: operation_b,
        })
        .expect("operation B begins after operation A's cleanup completes");
    assert!(!begun_b.replayed);
}

#[test]
fn finish_cleanup_preserves_foreign_claim_and_tolerates_absent_claim() {
    // release_revision_claim must delete only the claim its own operation
    // holds: a foreign claim guards that operation's lifecycle, and an
    // absent claim means the operation predates claims entirely.
    let mut counter = 1;
    let store = ready_store(&mut counter);
    let service = PublicationService::new(&store);

    let finish_cleanup = |service: &PublicationService<'_>, counter: &mut u128, operation| {
        let aborting = service
            .transition_publish(TransitionPublishRequest {
                context: publication_context(&store, counter),
                expected_operation: operation,
                transition: PublishTransition::BeginAbort {
                    terminal_error: PublishTerminalError {
                        kind: PublishTerminalErrorKind::AbortedByCaller,
                        message: "caller cancelled".to_owned(),
                        evidence_digest: None,
                    },
                },
            })
            .unwrap()
            .operation;
        let cleaning = service
            .transition_publish(TransitionPublishRequest {
                context: publication_context(&store, counter),
                expected_operation: aborting,
                transition: PublishTransition::BeginCleaning,
            })
            .unwrap()
            .operation;
        service
            .transition_publish(TransitionPublishRequest {
                context: publication_context(&store, counter),
                expected_operation: cleaning,
                transition: PublishTransition::FinishCleanup,
            })
            .unwrap()
            .operation
    };

    // Foreign claim: swap ownership to another operation id before the
    // owner's cleanup finishes; the claim must survive it untouched.
    let foreign_revision = revision(930);
    let begun = service
        .begin_publish(BeginPublishRequest {
            context: publication_context(&store, &mut counter),
            operation: publish_operation(
                operation_id(930),
                foreign_revision,
                path("outputs/foreign-claim.bin"),
                PublishClaim::CreateOnly,
                &[],
                &[],
            ),
        })
        .unwrap()
        .operation;
    let foreign_claim = ArtifactRevisionClaimRecord {
        operation_id: operation_id(931),
    };
    overwrite_revision_claim(&store, &mut counter, foreign_revision, Some(foreign_claim));
    let cleaned = finish_cleanup(&service, &mut counter, begun);
    assert_eq!(cleaned.phase, PublishPhase::Cleaned);
    assert_eq!(
        read_revision_claim(&store, foreign_revision)
            .map(|payload| ArtifactRevisionClaimRecord::decode(&payload).unwrap()),
        Some(foreign_claim)
    );

    // Absent claim: a pre-claim legacy operation still cleans up.
    let legacy_revision = revision(940);
    let begun = service
        .begin_publish(BeginPublishRequest {
            context: publication_context(&store, &mut counter),
            operation: publish_operation(
                operation_id(940),
                legacy_revision,
                path("outputs/legacy-claimless.bin"),
                PublishClaim::CreateOnly,
                &[],
                &[],
            ),
        })
        .unwrap()
        .operation;
    overwrite_revision_claim(&store, &mut counter, legacy_revision, None);
    let cleaned = finish_cleanup(&service, &mut counter, begun);
    assert_eq!(cleaned.phase, PublishPhase::Cleaned);
    assert_eq!(read_revision_claim(&store, legacy_revision), None);
}

#[test]
fn finalize_publish_releases_revision_claim() {
    let mut counter = 1;
    let store = ready_store(&mut counter);
    let service = PublicationService::new(&store);
    let revision_id = revision(920);

    let outcome = publish_full(
        &service,
        &store,
        &mut counter,
        operation_id(920),
        revision_id,
        path("outputs/claim-release.bin"),
        PublishClaim::CreateOnly,
        1,
    );
    assert_eq!(outcome.operation.phase, PublishPhase::Published);

    // The same command that created the Available revision row released
    // the in-flight claim; only the 32-byte revision row remains.
    assert_eq!(read_revision_claim(&store, revision_id), None);
    let version = store.current_read_version().unwrap();
    assert!(store
        .read_at(
            root(),
            placement(),
            owner(),
            MetadataFamily::ArtifactRevision,
            &artifact_revision_key(root(), revision_id),
            version,
        )
        .unwrap()
        .is_some());
}

fn quarantine_after_abort(
    service: &PublicationService<'_>,
    store: &MetaShard,
    counter: &mut u128,
    operation: PublishOperationRecord,
    evidence: &[u8],
) -> PublishOperationRecord {
    let aborting = service
        .transition_publish(TransitionPublishRequest {
            context: publication_context(store, counter),
            expected_operation: operation,
            transition: PublishTransition::BeginAbort {
                terminal_error: PublishTerminalError {
                    kind: PublishTerminalErrorKind::AbortedByCaller,
                    message: "caller cancelled".to_owned(),
                    evidence_digest: None,
                },
            },
        })
        .unwrap()
        .operation;
    let cleaning = service
        .transition_publish(TransitionPublishRequest {
            context: publication_context(store, counter),
            expected_operation: aborting,
            transition: PublishTransition::BeginCleaning,
        })
        .unwrap()
        .operation;
    service
        .transition_publish(TransitionPublishRequest {
            context: publication_context(store, counter),
            expected_operation: cleaning,
            transition: PublishTransition::Quarantine {
                terminal_error: PublishTerminalError {
                    kind: PublishTerminalErrorKind::CleanupFailed,
                    message: "provider cleanup outcome is ambiguous".to_owned(),
                    evidence_digest: Some(Sha256::digest(evidence).into()),
                },
            },
        })
        .unwrap()
        .operation
}

#[test]
fn operator_reconcile_resolves_quarantined_publish_and_releases_claim() {
    // A quarantined operation keeps its revision claim fail-closed. The
    // operator reconciliation surface must sweep the durable staging rows,
    // transition Quarantined -> Cleaned with a durable operator audit
    // trail, and release the claim so the revision id is usable again.
    let mut counter = 1;
    let store = ready_store(&mut counter);
    let service = PublicationService::new(&store);
    let revision_id = revision(930);
    let staged = staged_rows(revision_id, 3);
    let uploaded = uploaded_rows(&staged);
    let manifest = manifest_rows(&staged);
    let operation = publish_operation(
        operation_id(930),
        revision_id,
        path("outputs/reconcile.bin"),
        PublishClaim::CreateOnly,
        &staged,
        &manifest,
    );
    let operation = begin_operation(&service, &store, &mut counter, operation);
    let operation = stage_all(
        &service,
        &store,
        &mut counter,
        operation,
        &staged,
        &manifest,
    );
    let operation = quarantine_after_abort(
        &service,
        &store,
        &mut counter,
        operation,
        b"ambiguous provider delete",
    );
    assert_eq!(operation.phase, PublishPhase::Quarantined);
    let original_evidence_digest = operation
        .terminal_error
        .as_ref()
        .and_then(|error| error.evidence_digest)
        .expect("quarantine retains evidence");

    let blocked = publish_operation(
        operation_id(931),
        revision_id,
        path("outputs/reconcile.bin"),
        PublishClaim::CreateOnly,
        &staged,
        &manifest,
    );
    assert_eq!(
        service.begin_publish(BeginPublishRequest {
            context: publication_context(&store, &mut counter),
            operation: blocked.clone(),
        }),
        Err(PublicationError::RevisionClaimHeld {
            revision: revision_id,
            operation_id: operation_id(930),
        })
    );

    // Staged rows sweep first; the phase and the claim stay fail-closed
    // between batches so an abandoned reconciliation changes nothing.
    let operation = service
        .reconcile_quarantined_publish_batch(ReconcileQuarantinedPublishBatchRequest {
            context: publication_context(&store, &mut counter),
            expected_operation: operation,
            resolution: QuarantineReconcileResolution::RevisionUnpublished,
            staged_object_rows: uploaded.clone(),
        })
        .unwrap()
        .operation;
    assert_eq!(operation.phase, PublishPhase::Quarantined);
    assert_eq!(operation.cleanup_staged_object_cursor, 3);
    assert!(read_revision_claim(&store, revision_id).is_some());

    let operation = service
        .reconcile_quarantined_publish_batch(ReconcileQuarantinedPublishBatchRequest {
            context: publication_context(&store, &mut counter),
            expected_operation: operation,
            resolution: QuarantineReconcileResolution::RevisionUnpublished,
            staged_object_rows: Vec::new(),
        })
        .unwrap()
        .operation;
    assert_eq!(operation.phase, PublishPhase::Quarantined);
    assert_eq!(operation.cleanup_manifest_cursor, 3);

    let finish_context = publication_context(&store, &mut counter);
    let finished = service
        .finish_reconcile_quarantined_publish(FinishReconcileQuarantinedPublishRequest {
            context: finish_context,
            expected_operation: operation.clone(),
            resolution: QuarantineReconcileResolution::RevisionUnpublished,
            reason: "verified every staged key absent at the provider".to_owned(),
            operator_evidence_digest: [7; SHA256_BYTES],
        })
        .unwrap();
    assert!(!finished.replayed);
    let resolved = finished.operation;
    assert_eq!(resolved.phase, PublishPhase::Cleaned);
    let terminal = resolved
        .terminal_error
        .as_ref()
        .expect("reconciled operation retains its terminal error");
    assert_eq!(terminal.kind, PublishTerminalErrorKind::OperatorReconciled);
    assert!(terminal
        .message
        .contains("verified every staged key absent at the provider"));
    assert_eq!(
        terminal.evidence_digest,
        Some(reconcile_evidence_digest(
            QuarantineReconcileResolution::RevisionUnpublished,
            Some(original_evidence_digest),
            [7; SHA256_BYTES],
        ))
    );
    assert_eq!(
        count_prefix(
            &store,
            MetadataFamily::StagedObject,
            &staged_object_prefix(root(), resolved.operation_id),
        ),
        0
    );
    assert_eq!(
        count_prefix(
            &store,
            MetadataFamily::ArtifactManifest,
            &artifact_manifest_prefix(root(), revision_id),
        ),
        0
    );
    assert_eq!(read_revision_claim(&store, revision_id), None);

    // An exact response-loss replay of the finish returns the stored
    // resolution without re-running it.
    let replayed = service
        .finish_reconcile_quarantined_publish(FinishReconcileQuarantinedPublishRequest {
            context: finish_context,
            expected_operation: operation,
            resolution: QuarantineReconcileResolution::RevisionUnpublished,
            reason: "verified every staged key absent at the provider".to_owned(),
            operator_evidence_digest: [7; SHA256_BYTES],
        })
        .unwrap();
    assert!(replayed.replayed);
    assert_eq!(replayed.operation, resolved);

    // The revision identity is claimable again.
    let begun = service
        .begin_publish(BeginPublishRequest {
            context: publication_context(&store, &mut counter),
            operation: blocked,
        })
        .expect("revision claimable after operator reconciliation");
    assert!(!begun.replayed);
}

#[test]
fn operator_reconcile_republished_revision_removes_bookkeeping_only() {
    // Rolling-upgrade shape: a claimless legacy loser shares its revision
    // id with a claimed winner that published. The loser's staged keys are
    // the winner's live provider objects, so the revision-published
    // verdict must delete only the loser's private bookkeeping rows and
    // must refuse the contradictory verdict loudly.
    let mut counter = 1;
    let store = ready_store(&mut counter);
    let service = PublicationService::new(&store);
    let revision_id = revision(940);

    let staged = staged_rows(revision_id, 2);
    let manifest = manifest_rows(&staged);
    let loser = publish_operation(
        operation_id(940),
        revision_id,
        path("outputs/reconcile-legacy.bin"),
        PublishClaim::CreateOnly,
        &staged,
        &manifest,
    );
    let loser = begin_operation(&service, &store, &mut counter, loser);
    overwrite_revision_claim(&store, &mut counter, revision_id, None);
    let loser = service
        .stage_objects_batch(StageObjectsBatchRequest {
            context: publication_context(&store, &mut counter),
            expected_operation: loser,
            staged_objects: staged.clone(),
        })
        .unwrap()
        .operation;
    let loser = quarantine_after_abort(
        &service,
        &store,
        &mut counter,
        loser,
        b"aborted publish cleanup found its artifact revision published",
    );

    let published = publish_full(
        &service,
        &store,
        &mut counter,
        operation_id(941),
        revision_id,
        path("outputs/reconcile-winner.bin"),
        PublishClaim::CreateOnly,
        1,
    );
    assert_eq!(published.operation.phase, PublishPhase::Published);

    // The absent-objects verdict contradicts the published revision row.
    assert_eq!(
        service.reconcile_quarantined_publish_batch(ReconcileQuarantinedPublishBatchRequest {
            context: publication_context(&store, &mut counter),
            expected_operation: loser.clone(),
            resolution: QuarantineReconcileResolution::RevisionUnpublished,
            staged_object_rows: staged.clone(),
        }),
        Err(PublicationError::ReconcileResolutionMismatch {
            resolution: QuarantineReconcileResolution::RevisionUnpublished,
            revision_published: true,
        })
    );

    let loser = service
        .reconcile_quarantined_publish_batch(ReconcileQuarantinedPublishBatchRequest {
            context: publication_context(&store, &mut counter),
            expected_operation: loser,
            resolution: QuarantineReconcileResolution::RevisionPublished,
            staged_object_rows: staged.clone(),
        })
        .unwrap()
        .operation;
    assert_eq!(loser.cleanup_staged_object_cursor, 2);
    let resolved = service
        .finish_reconcile_quarantined_publish(FinishReconcileQuarantinedPublishRequest {
            context: publication_context(&store, &mut counter),
            expected_operation: loser,
            resolution: QuarantineReconcileResolution::RevisionPublished,
            reason: "revision was published by operation 941".to_owned(),
            operator_evidence_digest: [9; SHA256_BYTES],
        })
        .unwrap()
        .operation;
    assert_eq!(resolved.phase, PublishPhase::Cleaned);

    // The winner's published revision, manifest, and claim state stay
    // exactly as publication left them; only loser bookkeeping is gone.
    let version = store.current_read_version().unwrap();
    assert!(payload_at(
        &store,
        MetadataFamily::ArtifactRevision,
        &artifact_revision_key(root(), revision_id),
        version,
    )
    .is_some());
    assert_eq!(
        count_prefix(
            &store,
            MetadataFamily::ArtifactManifest,
            &artifact_manifest_prefix(root(), revision_id),
        ),
        1
    );
    assert_eq!(
        count_prefix(
            &store,
            MetadataFamily::StagedObject,
            &staged_object_prefix(root(), resolved.operation_id),
        ),
        0
    );
    assert_eq!(read_revision_claim(&store, revision_id), None);
}

#[test]
fn operator_reconcile_enforces_quarantined_phase_and_sealed_cursors() {
    let mut counter = 1;
    let store = ready_store(&mut counter);
    let service = PublicationService::new(&store);
    let revision_id = revision(950);
    let staged = staged_rows(revision_id, 1);
    let uploaded = uploaded_rows(&staged);
    let manifest = manifest_rows(&staged);
    let operation = publish_operation(
        operation_id(950),
        revision_id,
        path("outputs/reconcile-guard.bin"),
        PublishClaim::CreateOnly,
        &staged,
        &manifest,
    );
    let operation = begin_operation(&service, &store, &mut counter, operation);
    let operation = stage_all(
        &service,
        &store,
        &mut counter,
        operation,
        &staged,
        &manifest,
    );
    let aborting = service
        .transition_publish(TransitionPublishRequest {
            context: publication_context(&store, &mut counter),
            expected_operation: operation,
            transition: PublishTransition::BeginAbort {
                terminal_error: PublishTerminalError {
                    kind: PublishTerminalErrorKind::AbortedByCaller,
                    message: "caller cancelled".to_owned(),
                    evidence_digest: None,
                },
            },
        })
        .unwrap()
        .operation;
    let cleaning = service
        .transition_publish(TransitionPublishRequest {
            context: publication_context(&store, &mut counter),
            expected_operation: aborting,
            transition: PublishTransition::BeginCleaning,
        })
        .unwrap()
        .operation;

    // Reconciliation is quarantine-only: normal cleanup owns Cleaning.
    assert_eq!(
        service.reconcile_quarantined_publish_batch(ReconcileQuarantinedPublishBatchRequest {
            context: publication_context(&store, &mut counter),
            expected_operation: cleaning.clone(),
            resolution: QuarantineReconcileResolution::RevisionUnpublished,
            staged_object_rows: uploaded.clone(),
        }),
        Err(PublicationError::InvalidOperationPhase {
            expected: PublishPhase::Quarantined,
            actual: PublishPhase::Cleaning,
        })
    );

    let quarantined = service
        .transition_publish(TransitionPublishRequest {
            context: publication_context(&store, &mut counter),
            expected_operation: cleaning,
            transition: PublishTransition::Quarantine {
                terminal_error: PublishTerminalError {
                    kind: PublishTerminalErrorKind::CleanupFailed,
                    message: "provider cleanup outcome is ambiguous".to_owned(),
                    evidence_digest: Some(Sha256::digest(b"ambiguous").into()),
                },
            },
        })
        .unwrap()
        .operation;

    // The published-revision verdict contradicts the absent revision row.
    assert_eq!(
        service.reconcile_quarantined_publish_batch(ReconcileQuarantinedPublishBatchRequest {
            context: publication_context(&store, &mut counter),
            expected_operation: quarantined.clone(),
            resolution: QuarantineReconcileResolution::RevisionPublished,
            staged_object_rows: uploaded.clone(),
        }),
        Err(PublicationError::ReconcileResolutionMismatch {
            resolution: QuarantineReconcileResolution::RevisionPublished,
            revision_published: false,
        })
    );

    // Finishing before every durable staging row is removed refuses.
    assert!(matches!(
        service.finish_reconcile_quarantined_publish(
            FinishReconcileQuarantinedPublishRequest {
                context: publication_context(&store, &mut counter),
                expected_operation: quarantined,
                resolution: QuarantineReconcileResolution::RevisionUnpublished,
                reason: "premature".to_owned(),
                operator_evidence_digest: [1; SHA256_BYTES],
            }
        ),
        Err(PublicationError::OperationCodec(
            PublishRecordError {
                ticket: INVALID_PHASE_PAYLOAD
            }
        ))
    ));
}

#[test]
fn operator_reconcile_refuses_manifest_rows_under_published_revision() {
    // Legal flows never leave a quarantined operation with un-swept
    // manifest rows once its revision is published: those rows ARE the
    // published manifest. If that derivation is ever wrong, reconciliation
    // must stop loudly instead of deleting published data.
    let mut counter = 1;
    let store = ready_store(&mut counter);
    let service = PublicationService::new(&store);
    let revision_id = revision(960);
    let published = publish_full(
        &service,
        &store,
        &mut counter,
        operation_id(960),
        revision_id,
        path("outputs/reconcile-live.bin"),
        PublishClaim::CreateOnly,
        1,
    );
    assert_eq!(published.operation.phase, PublishPhase::Published);

    let staged = staged_rows(revision_id, 1);
    let manifest = manifest_rows(&staged);
    let mut planted = publish_operation(
        operation_id(961),
        revision_id,
        path("outputs/reconcile-planted.bin"),
        PublishClaim::CreateOnly,
        &staged,
        &manifest,
    );
    planted.phase = PublishPhase::Quarantined;
    planted.manifest_cursor = 1;
    planted.manifest_rolling_digest = planted.manifest_seal;
    planted.manifest_last_position = Some(ManifestPosition { object_index: 0 });
    planted.terminal_error = Some(PublishTerminalError {
        kind: PublishTerminalErrorKind::CleanupFailed,
        message: "provider cleanup outcome is ambiguous".to_owned(),
        evidence_digest: Some(Sha256::digest(b"planted").into()),
    });
    install_publish_operation_for_test(&store, &mut counter, &planted);

    assert_eq!(
        service.reconcile_quarantined_publish_batch(ReconcileQuarantinedPublishBatchRequest {
            context: publication_context(&store, &mut counter),
            expected_operation: planted.clone(),
            resolution: QuarantineReconcileResolution::RevisionPublished,
            staged_object_rows: Vec::new(),
        }),
        Err(PublicationError::ReconcileManifestRowsRemain { remaining: 1 })
    );
    assert!(matches!(
        service.finish_reconcile_quarantined_publish(
            FinishReconcileQuarantinedPublishRequest {
                context: publication_context(&store, &mut counter),
                expected_operation: planted,
                resolution: QuarantineReconcileResolution::RevisionPublished,
                reason: "planted invariant violation".to_owned(),
                operator_evidence_digest: [2; SHA256_BYTES],
            }
        ),
        Err(PublicationError::OperationCodec(
            PublishRecordError {
                ticket: INVALID_PHASE_PAYLOAD
            }
        ))
    ));

    // The published revision's manifest survives untouched.
    assert_eq!(
        count_prefix(
            &store,
            MetadataFamily::ArtifactManifest,
            &artifact_manifest_prefix(root(), revision_id),
        ),
        1
    );
}

#[test]
fn append_segment_rows_remain_strictly_ordered_across_batches() {
    let revision_id = revision(600);
    let staged = staged_rows(revision_id, 2);
    let mut rows = manifest_rows(&staged);
    rows[0].row.append_segment = Some(AppendSegment {
        segment_sequence: 0,
        segment_offset: 0,
    });
    rows[1].row.append_segment = Some(AppendSegment {
        segment_sequence: 1,
        segment_offset: 1,
    });
    assert_ne!(manifest_rows_digest(&rows).unwrap(), [0; SHA256_BYTES]);
    rows.swap(0, 1);
    assert_eq!(
        manifest_rows_digest(&rows),
        Err(PublicationError::ManifestOrder)
    );
}

#[test]
fn restore_staging_publishes_both_destination_manifests_in_either_order() {
    for restore_first in [false, true] {
        let mut counter = 1;
        let store = ready_store(&mut counter);
        let service = PublicationService::new(&store);
        let restore = sealed_bound_restore_operation();
        let RestoreCommitProvenance::V5 { destination_binding } = &restore.commit_provenance else {
            unreachable!("test fixture uses v5 provenance")
        };
        let binding = destination_binding.as_ref().unwrap();
        install_restore_publication_authority(&store, &mut counter, &restore);
        let restore_payload = restore.encode().unwrap();

        let run = (
            binding.run_manifest_identity,
            RUN_MANIFEST_PATH,
            canonical_digest_uri(0x41),
            127,
        );
        let restore_manifest = (
            binding.restore_manifest_identity,
            RESTORE_MANIFEST_PATH,
            restore.restore_manifest.body_digest_uri.clone(),
            restore.restore_manifest.logical_size,
        );
        let order = if restore_first {
            vec![restore_manifest, run]
        } else {
            vec![run, restore_manifest]
        };

        for (index, (identity, manifest_path, body_digest_uri, logical_size)) in
            order.into_iter().enumerate()
        {
            let (operation, staged, manifest) = restore_staging_publish_operation(
                identity,
                manifest_path,
                body_digest_uri,
                logical_size,
            );
            let (initial, outcome) = drive_restore_staging_publish(
                &service,
                &store,
                &mut counter,
                operation,
                &staged,
                &manifest,
                RESTORE_MANIFEST_CONTENT_TYPE,
            );
            assert_eq!(outcome.operation.phase, PublishPhase::Published);
            assert_eq!(outcome.result.path_generation, Generation::new(1).unwrap());
            let replay = service
                .begin_publish(BeginPublishRequest {
                    context: publication_context(&store, &mut counter),
                    operation: initial,
                })
                .unwrap();
            assert!(replay.replayed);
            assert_eq!(replay.operation, outcome.operation);
            assert!(payload_at(
                &store,
                MetadataFamily::PathCurrent,
                &path_current_key(root(), incarnation(9), &path(manifest_path)),
                store.current_read_version().unwrap(),
            )
            .is_some());
            assert_eq!(
                payload_at(
                    &store,
                    MetadataFamily::Operation,
                    &operation_key(root(), OperationKind::Restore, restore.operation_id),
                    store.current_read_version().unwrap(),
                )
                .unwrap(),
                restore_payload,
                "individual manifest {index} must not mutate RestoreOperation",
            );
        }
    }
}

#[test]
fn restore_staging_run_manifest_uses_generic_multiblock_publication_closure() {
    let mut counter = 1;
    let store = ready_store(&mut counter);
    let service = PublicationService::new(&store);
    let restore = sealed_bound_restore_operation();
    let RestoreCommitProvenance::V5 { destination_binding } = &restore.commit_provenance else {
        unreachable!("test fixture uses v5 provenance")
    };
    let identity = destination_binding
        .as_ref()
        .unwrap()
        .run_manifest_identity;
    install_restore_publication_authority(&store, &mut counter, &restore);

    let mut staged = staged_rows(identity.artifact_revision_id, 2);
    staged[0].expected_length = 71;
    staged[0].expected_digest_uri = canonical_digest_uri(0x61);
    staged[1].expected_length = 89;
    staged[1].expected_digest_uri = canonical_digest_uri(0x62);
    let manifest = manifest_rows(&staged);
    let mut operation = publish_operation(
        identity.publication_operation_id,
        identity.artifact_revision_id,
        path(RUN_MANIFEST_PATH),
        PublishClaim::CreateOnly,
        &staged,
        &manifest,
    );
    operation.authority = PublishAuthority::RestoreStaging {
        restore_operation_id: restore.operation_id,
    };
    seal_publish_operation(&mut operation);
    let operation = begin_operation(&service, &store, &mut counter, operation);
    let operation = stage_all(
        &service,
        &store,
        &mut counter,
        operation,
        &staged,
        &manifest,
    );
    let operation = service
        .transition_publish(TransitionPublishRequest {
            context: publication_context(&store, &mut counter),
            expected_operation: operation,
            transition: PublishTransition::BeginFinalization,
        })
        .unwrap()
        .operation;
    let outcome = service
        .finalize_publish(FinalizePublishRequest {
            context: publication_context(&store, &mut counter),
            expected_operation: operation.clone(),
            artifact: PublishedArtifact {
                logical_size: 160,
                body_digest_uri: canonical_digest_uri(0x63),
                manifest_digest_uri: sha256_digest_uri(operation.manifest_seal),
                content_type: RESTORE_MANIFEST_CONTENT_TYPE.to_owned(),
                producer: None,
                manifest_id: None,
                typed_index_projection: TypedProjection::empty().encode().unwrap(),
            },
            dependency_owner_revision_ids: Vec::new(),
        })
        .unwrap();
    assert_eq!(outcome.result.logical_size, 160);
    assert_ne!(
        outcome.result.body_digest_uri,
        restore.restore_manifest.body_digest_uri,
    );
    let revision = ArtifactRevisionRecord::decode(
        &payload_at(
            &store,
            MetadataFamily::ArtifactRevision,
            &artifact_revision_key(root(), identity.artifact_revision_id),
            store.current_read_version().unwrap(),
        )
        .unwrap(),
    )
    .unwrap();
    assert_eq!(revision.block_count, 2);
}

#[test]
fn restore_staging_rejects_unbound_or_wrong_manifest_identity_without_side_effects() {
    for case in 0..4 {
        let mut counter = 1;
        let store = ready_store(&mut counter);
        let service = PublicationService::new(&store);
        let mut restore = sealed_bound_restore_operation();
        let RestoreCommitProvenance::V5 { destination_binding } = &mut restore.commit_provenance else {
            unreachable!("test fixture uses v5 provenance")
        };
        let expected_identity = destination_binding
            .as_ref()
            .unwrap()
            .restore_manifest_identity;
        if case == 0 {
            *destination_binding = None;
        }
        restore.validate().unwrap();
        install_restore_publication_authority(&store, &mut counter, &restore);

        let wrong_identity = match case {
            0 => expected_identity,
            1 => restore_manifest_identity(operation_id(90_099), revision(90_002)),
            2 => restore_manifest_identity(operation_id(90_002), revision(90_099)),
            3 => restore_manifest_identity(operation_id(90_099), revision(90_099)),
            _ => unreachable!("case is bounded"),
        };
        let (operation, _, _) = restore_staging_publish_operation(
            wrong_identity,
            RESTORE_MANIFEST_PATH,
            restore.restore_manifest.body_digest_uri.clone(),
            restore.restore_manifest.logical_size,
        );
        let version_before = store.current_read_version().unwrap();
        assert_eq!(
            service.begin_publish(BeginPublishRequest {
                context: publication_context(&store, &mut counter),
                operation: operation.clone(),
            }),
            Err(PublicationError::RestoreAuthorityMismatch),
        );
        assert_eq!(store.current_read_version().unwrap(), version_before);
        assert!(payload_at(
            &store,
            MetadataFamily::Operation,
            &operation_key(root(), OperationKind::Publish, operation.operation_id),
            version_before,
        )
        .is_none());
        assert!(payload_at(
            &store,
            MetadataFamily::ArtifactRevision,
            &artifact_revision_claim_key(root(), operation.artifact_revision_id),
            version_before,
        )
        .is_none());
    }
}

#[test]
fn restore_staging_rejects_wrong_path_claim_and_dependencies_before_admission() {
    for case in 0..4 {
        let mut counter = 1;
        let store = ready_store(&mut counter);
        let service = PublicationService::new(&store);
        let restore = sealed_bound_restore_operation();
        let RestoreCommitProvenance::V5 { destination_binding } = &restore.commit_provenance else {
            unreachable!("test fixture uses v5 provenance")
        };
        let identity = destination_binding
            .as_ref()
            .unwrap()
            .restore_manifest_identity;
        install_restore_publication_authority(&store, &mut counter, &restore);
        let (mut operation, _, _) = restore_staging_publish_operation(
            identity,
            RESTORE_MANIFEST_PATH,
            restore.restore_manifest.body_digest_uri.clone(),
            restore.restore_manifest.logical_size,
        );
        let expected_error = match case {
            0 => {
                operation.path = path("metadata/not_a_canonical_manifest");
                PublicationError::RestoreManifestPathRequired
            }
            1 => {
                operation.claim = PublishClaim::ReplaceOnly {
                    expected_generation: Generation::new(1).unwrap(),
                };
                PublicationError::RestoreAuthorityMismatch
            }
            2 => {
                operation.dependency_count = 1;
                operation.dependency_depth = 1;
                operation.dependency_digest =
                    dependency_owner_digest(&[revision(99_001)]).unwrap();
                PublicationError::RestoreAuthorityMismatch
            }
            3 => {
                operation.dependency_digest = [0x99; SHA256_BYTES];
                PublicationError::RestoreAuthorityMismatch
            }
            _ => unreachable!("case is bounded"),
        };
        seal_publish_operation(&mut operation);
        let version_before = store.current_read_version().unwrap();
        assert_eq!(
            service.begin_publish(BeginPublishRequest {
                context: publication_context(&store, &mut counter),
                operation: operation.clone(),
            }),
            Err(expected_error),
        );
        assert_eq!(store.current_read_version().unwrap(), version_before);
        assert!(payload_at(
            &store,
            MetadataFamily::Operation,
            &operation_key(root(), OperationKind::Publish, operation.operation_id),
            version_before,
        )
        .is_none());
    }
}

#[test]
fn restore_manifest_descriptor_mismatch_never_publishes_hidden_path() {
    let mut counter = 1;
    let store = ready_store(&mut counter);
    let service = PublicationService::new(&store);
    let restore = sealed_bound_restore_operation();
    let RestoreCommitProvenance::V5 { destination_binding } = &restore.commit_provenance else {
        unreachable!("test fixture uses v5 provenance")
    };
    let identity = destination_binding
        .as_ref()
        .unwrap()
        .restore_manifest_identity;
    install_restore_publication_authority(&store, &mut counter, &restore);
    let (operation, staged, manifest) = restore_staging_publish_operation(
        identity,
        RESTORE_MANIFEST_PATH,
        canonical_digest_uri(0xee),
        restore.restore_manifest.logical_size,
    );
    let operation = begin_operation(&service, &store, &mut counter, operation);
    let operation = stage_all(
        &service,
        &store,
        &mut counter,
        operation,
        &staged,
        &manifest,
    );
    let operation = service
        .transition_publish(TransitionPublishRequest {
            context: publication_context(&store, &mut counter),
            expected_operation: operation,
            transition: PublishTransition::BeginFinalization,
        })
        .unwrap()
        .operation;
    assert_eq!(
        service.finalize_publish(FinalizePublishRequest {
            context: publication_context(&store, &mut counter),
            expected_operation: operation.clone(),
            artifact: PublishedArtifact {
                logical_size: staged[0].expected_length,
                body_digest_uri: staged[0].expected_digest_uri.clone(),
                manifest_digest_uri: sha256_digest_uri(operation.manifest_seal),
                content_type: RESTORE_MANIFEST_CONTENT_TYPE.to_owned(),
                producer: None,
                manifest_id: None,
                typed_index_projection: TypedProjection::empty().encode().unwrap(),
            },
            dependency_owner_revision_ids: Vec::new(),
        }),
        Err(PublicationError::RestoreManifestClosureMismatch),
    );
    let current = store.current_read_version().unwrap();
    assert!(payload_at(
        &store,
        MetadataFamily::PathCurrent,
        &path_current_key(root(), incarnation(9), &path(RESTORE_MANIFEST_PATH)),
        current,
    )
    .is_none());
    assert!(payload_at(
        &store,
        MetadataFamily::ArtifactRevision,
        &artifact_revision_key(root(), identity.artifact_revision_id),
        current,
    )
    .is_none());
    assert_eq!(
        RestoreOperationRecord::decode(
            &payload_at(
                &store,
                MetadataFamily::Operation,
                &operation_key(root(), OperationKind::Restore, restore.operation_id),
                current,
            )
            .unwrap(),
        )
        .unwrap(),
        restore,
    );
}

#[test]
fn restore_terminal_publish_replay_requires_live_progressed_authority() {
    let mut counter = 1;
    let store = ready_store(&mut counter);
    let service = PublicationService::new(&store);
    let restore = sealed_bound_restore_operation();
    let RestoreCommitProvenance::V5 { destination_binding } = &restore.commit_provenance else {
        unreachable!("test fixture uses v5 provenance")
    };
    let binding = destination_binding.as_ref().unwrap().clone();
    install_restore_publication_authority(&store, &mut counter, &restore);

    let (run_initial, run_outcome) = {
        let (operation, staged, manifest) = restore_staging_publish_operation(
            binding.run_manifest_identity,
            RUN_MANIFEST_PATH,
            canonical_digest_uri(0x41),
            127,
        );
        drive_restore_staging_publish(
            &service,
            &store,
            &mut counter,
            operation,
            &staged,
            &manifest,
            RESTORE_MANIFEST_CONTENT_TYPE,
        )
    };
    let (restore_initial, restore_outcome) = {
        let (operation, staged, manifest) = restore_staging_publish_operation(
            binding.restore_manifest_identity,
            RESTORE_MANIFEST_PATH,
            restore.restore_manifest.body_digest_uri.clone(),
            restore.restore_manifest.logical_size,
        );
        drive_restore_staging_publish(
            &service,
            &store,
            &mut counter,
            operation,
            &staged,
            &manifest,
            RESTORE_MANIFEST_CONTENT_TYPE,
        )
    };
    let manifests = RestoreDestinationManifests {
        run_manifest: RestoreManifestPublication {
            publication_operation_id: run_outcome.operation.operation_id,
            workspace_incarnation_id: incarnation(9),
            artifact_revision_id: run_outcome.operation.artifact_revision_id,
            body_digest_uri: run_outcome.result.body_digest_uri.clone(),
            manifest_digest_uri: sha256_digest_uri(run_outcome.operation.manifest_seal),
            logical_size: run_outcome.result.logical_size,
            content_type: RESTORE_MANIFEST_CONTENT_TYPE.to_owned(),
        },
        restore_manifest: RestoreManifestPublication {
            publication_operation_id: restore_outcome.operation.operation_id,
            workspace_incarnation_id: incarnation(9),
            artifact_revision_id: restore_outcome.operation.artifact_revision_id,
            body_digest_uri: restore_outcome.result.body_digest_uri.clone(),
            manifest_digest_uri: sha256_digest_uri(restore_outcome.operation.manifest_seal),
            logical_size: restore_outcome.result.logical_size,
            content_type: RESTORE_MANIFEST_CONTENT_TYPE.to_owned(),
        },
    };
    let building = restore
        .apply(
            RestorePhase::SourceSealed,
            RestoreTransition::BeginDestinationBuilding {
                manifests,
            },
        )
        .unwrap();
    replace_restore_operation(&store, &mut counter, &restore, &building);

    let mut mismatched_binding = building.clone();
    let RestoreCommitProvenance::V5 { destination_binding } = &mut mismatched_binding.commit_provenance
    else {
        unreachable!("test fixture uses v5 provenance")
    };
    let binding = destination_binding.as_mut().unwrap();
    let wrong_run_identity = restore_manifest_identity(operation_id(90_099), revision(90_099));
    binding.run_manifest_identity = wrong_run_identity;
    let actual_run = &mut binding.manifests.as_mut().unwrap().run_manifest;
    actual_run.publication_operation_id = wrong_run_identity.publication_operation_id;
    actual_run.artifact_revision_id = wrong_run_identity.artifact_revision_id;
    mismatched_binding.validate().unwrap();
    replace_restore_operation(&store, &mut counter, &building, &mismatched_binding);
    assert_eq!(
        service.begin_publish(BeginPublishRequest {
            context: publication_context(&store, &mut counter),
            operation: run_initial.clone(),
        }),
        Err(PublicationError::RestoreAuthorityMismatch),
        "progressed replay must reject a different durable manifest binding",
    );
    replace_restore_operation(&store, &mut counter, &mismatched_binding, &building);

    let replay = service
        .begin_publish(BeginPublishRequest {
            context: publication_context(&store, &mut counter),
            operation: run_initial.clone(),
        })
        .unwrap();
    assert!(replay.replayed);
    assert_eq!(replay.operation, run_outcome.operation);
    let stale_success_context = publication_context(&store, &mut counter);

    delete_restore_manifest_path_for_test(&store, &mut counter, RUN_MANIFEST_PATH);
    assert_eq!(
        service.begin_publish(BeginPublishRequest {
            context: publication_context(&store, &mut counter),
            operation: run_initial.clone(),
        }),
        Err(PublicationError::RestoreAuthorityMismatch),
        "progressed replay must re-read the live destination path",
    );

    let aborting = building
        .apply(
            RestorePhase::DestinationBuilding,
            RestoreTransition::BeginAbort {
                terminal_error: RestoreTerminalError {
                    message: "cleanup won after response loss".to_owned(),
                },
            },
        )
        .unwrap();
    replace_restore_operation(&store, &mut counter, &building, &aborting);

    assert!(matches!(
        service.begin_publish(BeginPublishRequest {
            context: stale_success_context,
            operation: restore_initial.clone(),
        }),
        Err(PublicationError::Meta(
            MetaError::WriteReadVersionMismatch { .. }
        ))
    ));

    for initial in [run_initial, restore_initial] {
        assert_eq!(
            service.begin_publish(BeginPublishRequest {
                context: publication_context(&store, &mut counter),
                operation: initial,
            }),
            Err(PublicationError::RestoreAuthorityMismatch),
            "an old terminal publication receipt must not survive restore cleanup authority",
        );
    }
}

#[test]
fn successor_replays_only_the_exact_terminal_restore_staging_identity() {
    let mut counter = 1;
    let store = ready_store(&mut counter);
    let service = PublicationService::new(&store);
    let restore = sealed_bound_restore_operation();
    let RestoreCommitProvenance::V5 { destination_binding } = &restore.commit_provenance else {
        unreachable!("test fixture uses v5 provenance")
    };
    let binding = destination_binding.as_ref().unwrap().clone();
    install_restore_publication_authority(&store, &mut counter, &restore);

    let (run_initial, run_outcome) = {
        let (operation, staged, manifest) = restore_staging_publish_operation(
            binding.run_manifest_identity,
            RUN_MANIFEST_PATH,
            canonical_digest_uri(0x41),
            127,
        );
        drive_restore_staging_publish(
            &service,
            &store,
            &mut counter,
            operation,
            &staged,
            &manifest,
            RESTORE_MANIFEST_CONTENT_TYPE,
        )
    };
    let restore_outcome = {
        let (operation, staged, manifest) = restore_staging_publish_operation(
            binding.restore_manifest_identity,
            RESTORE_MANIFEST_PATH,
            restore.restore_manifest.body_digest_uri.clone(),
            restore.restore_manifest.logical_size,
        );
        drive_restore_staging_publish(
            &service,
            &store,
            &mut counter,
            operation,
            &staged,
            &manifest,
            RESTORE_MANIFEST_CONTENT_TYPE,
        )
        .1
    };
    let manifests = RestoreDestinationManifests {
        run_manifest: RestoreManifestPublication {
            publication_operation_id: run_outcome.operation.operation_id,
            workspace_incarnation_id: incarnation(9),
            artifact_revision_id: run_outcome.operation.artifact_revision_id,
            body_digest_uri: run_outcome.result.body_digest_uri.clone(),
            manifest_digest_uri: sha256_digest_uri(run_outcome.operation.manifest_seal),
            logical_size: run_outcome.result.logical_size,
            content_type: RESTORE_MANIFEST_CONTENT_TYPE.to_owned(),
        },
        restore_manifest: RestoreManifestPublication {
            publication_operation_id: restore_outcome.operation.operation_id,
            workspace_incarnation_id: incarnation(9),
            artifact_revision_id: restore_outcome.operation.artifact_revision_id,
            body_digest_uri: restore_outcome.result.body_digest_uri.clone(),
            manifest_digest_uri: sha256_digest_uri(restore_outcome.operation.manifest_seal),
            logical_size: restore_outcome.result.logical_size,
            content_type: RESTORE_MANIFEST_CONTENT_TYPE.to_owned(),
        },
    };
    let building = restore
        .apply(
            RestorePhase::SourceSealed,
            RestoreTransition::BeginDestinationBuilding {
                manifests,
            },
        )
        .unwrap();
    replace_restore_operation(&store, &mut counter, &restore, &building);
    store
        .advance_owner_epoch(Some(owner()), successor_owner())
        .unwrap();

    let mut successor_candidate = run_initial.clone();
    successor_candidate.initiating_owner_epoch = successor_owner();
    seal_publish_operation(&mut successor_candidate);
    let replay = service
        .begin_publish(BeginPublishRequest {
            context: publication_context_for_owner(&store, &mut counter, successor_owner()),
            operation: successor_candidate.clone(),
        })
        .unwrap();
    assert!(replay.replayed);
    assert_eq!(replay.operation, run_outcome.operation);

    let mut wrong_staged_row_seal = successor_candidate.clone();
    wrong_staged_row_seal.staged_object_seal[0] ^= 0xff;
    seal_publish_operation(&mut wrong_staged_row_seal);
    let mut wrong_manifest_row_seal = successor_candidate.clone();
    wrong_manifest_row_seal.manifest_seal[0] ^= 0xff;
    seal_publish_operation(&mut wrong_manifest_row_seal);
    let mut wrong_revision = successor_candidate.clone();
    wrong_revision.artifact_revision_id = revision(91_200);
    seal_publish_operation(&mut wrong_revision);
    let mut wrong_restore = successor_candidate;
    wrong_restore.authority = PublishAuthority::RestoreStaging {
        restore_operation_id: operation_id(91_201),
    };
    seal_publish_operation(&mut wrong_restore);

    for mismatch in [
        wrong_staged_row_seal,
        wrong_manifest_row_seal,
        wrong_revision,
        wrong_restore,
    ] {
        assert_eq!(
            service.begin_publish(BeginPublishRequest {
                context: publication_context_for_owner(
                    &store,
                    &mut counter,
                    successor_owner(),
                ),
                operation: mismatch,
            }),
            Err(PublicationError::OperationInputMismatch),
            "successor replay must compare every immutable publish input",
        );
    }
}

#[test]
fn failed_restore_staging_publish_phases_never_replay_as_success() {
    for phase in [
        PublishPhase::Aborting,
        PublishPhase::Cleaning,
        PublishPhase::Cleaned,
        PublishPhase::Quarantined,
    ] {
        let mut counter = 1;
        let store = ready_store(&mut counter);
        let service = PublicationService::new(&store);
        let restore = sealed_bound_restore_operation();
        let RestoreCommitProvenance::V5 { destination_binding } = &restore.commit_provenance else {
            unreachable!("test fixture uses v5 provenance")
        };
        let identity = destination_binding
            .as_ref()
            .unwrap()
            .run_manifest_identity;
        install_restore_publication_authority(&store, &mut counter, &restore);
        let (initial, published) = {
            let (operation, staged, manifest) = restore_staging_publish_operation(
                identity,
                RUN_MANIFEST_PATH,
                canonical_digest_uri(0x41),
                127,
            );
            drive_restore_staging_publish(
                &service,
                &store,
                &mut counter,
                operation,
                &staged,
                &manifest,
                RESTORE_MANIFEST_CONTENT_TYPE,
            )
        };
        let mut failed = published.operation.clone();
        failed.phase = phase;
        failed.result = None;
        failed.terminal_error = Some(PublishTerminalError {
            kind: PublishTerminalErrorKind::InvariantViolation,
            message: "terminal failure must not replay as success".to_owned(),
            evidence_digest: (phase == PublishPhase::Quarantined)
                .then_some([0x91; SHA256_BYTES]),
        });
        if phase == PublishPhase::Cleaned {
            failed.cleanup_staged_object_cursor = failed.staged_object_cursor;
            failed.cleanup_manifest_cursor = failed.manifest_cursor;
        }
        seal_publish_operation(&mut failed);
        failed.validate().unwrap();
        replace_publish_operation_for_test(&store, &mut counter, &published.operation, &failed);

        assert_eq!(
            service.begin_publish(BeginPublishRequest {
                context: publication_context(&store, &mut counter),
                operation: initial,
            }),
            Err(PublicationError::RestoreAuthorityMismatch),
            "{phase:?} must fail closed instead of borrowing a stale receipt",
        );
    }
}

#[test]
fn restore_abort_allows_only_exact_partial_publisher_cleanup() {
    for partial_phase in 0..3 {
        let mut counter = 1;
        let store = ready_store(&mut counter);
        let service = PublicationService::new(&store);
        let restore = sealed_bound_restore_operation();
        let RestoreCommitProvenance::V5 { destination_binding } = &restore.commit_provenance else {
            unreachable!("test fixture uses v5 provenance")
        };
        let identity = destination_binding
            .as_ref()
            .unwrap()
            .run_manifest_identity;
        install_restore_publication_authority(&store, &mut counter, &restore);
        let (operation, staged, manifest) = restore_staging_publish_operation(
            identity,
            RUN_MANIFEST_PATH,
            canonical_digest_uri(0x71),
            96,
        );
        let mut operation = begin_operation(&service, &store, &mut counter, operation);
        operation = service
            .stage_objects_batch(StageObjectsBatchRequest {
                context: publication_context(&store, &mut counter),
                expected_operation: operation,
                staged_objects: staged.clone(),
            })
            .unwrap()
            .operation;
        if partial_phase >= 1 {
            operation = service
                .mark_objects_uploaded_batch(MarkObjectsUploadedBatchRequest {
                    context: publication_context(&store, &mut counter),
                    expected_operation: operation,
                    staged_object_updates: vec![StagedObjectUpdate {
                        expected: staged[0].clone(),
                        next: uploaded_rows(&staged)[0].clone(),
                    }],
                })
                .unwrap()
                .operation;
        }
        if partial_phase == 2 {
            operation = service
                .stage_manifest_batch(StageManifestBatchRequest {
                    context: publication_context(&store, &mut counter),
                    expected_operation: operation,
                    manifest_rows: manifest.clone(),
                    dependency_owner_revision_ids: Vec::new(),
                })
                .unwrap()
                .operation;
        }

        let restore_cleanup = move_restore_into_abort_for_publication_test(
            &store,
            &mut counter,
            &restore,
            partial_phase != 0,
        );
        let aborting = service
            .transition_publish(TransitionPublishRequest {
                context: publication_context(&store, &mut counter),
                expected_operation: operation,
                transition: PublishTransition::BeginAbort {
                    terminal_error: PublishTerminalError {
                        kind: PublishTerminalErrorKind::AbortedByCaller,
                        message: "restore abort won".to_owned(),
                        evidence_digest: None,
                    },
                },
            })
            .unwrap()
            .operation;
        let cleaning = service
            .transition_publish(TransitionPublishRequest {
                context: publication_context(&store, &mut counter),
                expected_operation: aborting,
                transition: PublishTransition::BeginCleaning,
            })
            .unwrap()
            .operation;
        let expected_staged = load_staged_object_for_test(&store, &cleaning, 0);
        let mut deleted_staged = expected_staged.clone();
        deleted_staged.provider_state = StagedProviderState::Aborted;
        deleted_staged.cleanup_state = StagedCleanupState::Deleted;
        let mut cleaning = service
            .cleanup_publish_batch(CleanupPublishBatchRequest {
                context: publication_context(&store, &mut counter),
                expected_operation: cleaning,
                staged_object_updates: vec![StagedObjectUpdate {
                    expected: expected_staged,
                    next: deleted_staged,
                }],
            })
            .unwrap()
            .operation;
        if cleaning.manifest_cursor > 0 {
            cleaning = service
                .cleanup_publish_batch(CleanupPublishBatchRequest {
                    context: publication_context(&store, &mut counter),
                    expected_operation: cleaning,
                    staged_object_updates: Vec::new(),
                })
                .unwrap()
                .operation;
        }
        if partial_phase == 2 {
            // With the publication still Cleaning and its expected record
            // current, a restore that already reached Cleaned is past the
            // automatic publisher-cleanup authority: the transition must
            // fail closed without touching the store.
            let restore_cleaned = restore_cleanup
                .apply(RestorePhase::Cleaning, RestoreTransition::FinishCleanup)
                .unwrap();
            replace_restore_operation(&store, &mut counter, &restore_cleanup, &restore_cleaned);
            let version_before = store.current_read_version().unwrap();
            assert_eq!(
                service.transition_publish(TransitionPublishRequest {
                    context: publication_context(&store, &mut counter),
                    expected_operation: cleaning.clone(),
                    transition: PublishTransition::FinishCleanup,
                }),
                Err(PublicationError::RestoreAuthorityMismatch),
                "restore Cleaned is past automatic publisher cleanup authority",
            );
            assert_eq!(store.current_read_version().unwrap(), version_before);
            replace_restore_operation(&store, &mut counter, &restore_cleaned, &restore_cleanup);
        }
        let finish_expected = cleaning.clone();
        let finish = TransitionPublishRequest {
            context: publication_context(&store, &mut counter),
            expected_operation: cleaning,
            transition: PublishTransition::FinishCleanup,
        };
        let cleaned = service.transition_publish(finish.clone()).unwrap();
        assert_eq!(cleaned.operation.phase, PublishPhase::Cleaned);
        let replay = service.transition_publish(finish).unwrap();
        assert!(replay.replayed);
        assert_eq!(replay.operation, cleaned.operation);

        if partial_phase == 2 {
            let restore_cleaned = restore_cleanup
                .apply(RestorePhase::Cleaning, RestoreTransition::FinishCleanup)
                .unwrap();
            replace_restore_operation(&store, &mut counter, &restore_cleanup, &restore_cleaned);
            // A stale expected record is classified as concurrent progress
            // before any contextual authority check runs; the caller must
            // re-observe the durable row rather than reason about
            // authority from an outdated receipt.
            let version_before = store.current_read_version().unwrap();
            assert_eq!(
                service.transition_publish(TransitionPublishRequest {
                    context: publication_context(&store, &mut counter),
                    expected_operation: finish_expected,
                    transition: PublishTransition::FinishCleanup,
                }),
                Err(PublicationError::ConcurrentMutation),
                "a stale expected record must be re-observed before authority is judged",
            );
            assert_eq!(store.current_read_version().unwrap(), version_before);
        }

        let current = store.current_read_version().unwrap();
        assert!(payload_at(
            &store,
            MetadataFamily::PathCurrent,
            &path_current_key(root(), incarnation(9), &path(RUN_MANIFEST_PATH)),
            current,
        )
        .is_none());
        assert!(payload_at(
            &store,
            MetadataFamily::ArtifactRevision,
            &artifact_revision_key(root(), identity.artifact_revision_id),
            current,
        )
        .is_none());
        assert!(read_revision_claim(&store, identity.artifact_revision_id).is_none());
        assert_eq!(
            count_prefix(
                &store,
                MetadataFamily::StagedObject,
                &staged_object_prefix(root(), identity.publication_operation_id),
            ),
            0,
        );
        assert_eq!(
            count_prefix(
                &store,
                MetadataFamily::ArtifactManifest,
                &artifact_manifest_prefix(root(), identity.artifact_revision_id),
            ),
            0,
        );
    }
}

#[test]
fn restore_abort_rejects_every_forward_publication_step_without_mutation() {
    for forward_step in 0..5 {
        let mut counter = 1;
        let store = ready_store(&mut counter);
        let service = PublicationService::new(&store);
        let restore = sealed_bound_restore_operation();
        let RestoreCommitProvenance::V5 { destination_binding } = &restore.commit_provenance else {
            unreachable!("test fixture uses v5 provenance")
        };
        let identity = destination_binding
            .as_ref()
            .unwrap()
            .run_manifest_identity;
        install_restore_publication_authority(&store, &mut counter, &restore);
        let (initial, staged, manifest) = restore_staging_publish_operation(
            identity,
            RUN_MANIFEST_PATH,
            canonical_digest_uri(0x72),
            97,
        );
        let mut operation = initial.clone();
        if forward_step > 0 {
            operation = begin_operation(&service, &store, &mut counter, operation);
        }
        if forward_step >= 2 {
            operation = service
                .stage_objects_batch(StageObjectsBatchRequest {
                    context: publication_context(&store, &mut counter),
                    expected_operation: operation,
                    staged_objects: staged.clone(),
                })
                .unwrap()
                .operation;
        }
        if forward_step >= 3 {
            operation = service
                .mark_objects_uploaded_batch(MarkObjectsUploadedBatchRequest {
                    context: publication_context(&store, &mut counter),
                    expected_operation: operation,
                    staged_object_updates: vec![StagedObjectUpdate {
                        expected: staged[0].clone(),
                        next: uploaded_rows(&staged)[0].clone(),
                    }],
                })
                .unwrap()
                .operation;
        }
        if forward_step >= 4 {
            operation = service
                .stage_manifest_batch(StageManifestBatchRequest {
                    context: publication_context(&store, &mut counter),
                    expected_operation: operation,
                    manifest_rows: manifest.clone(),
                    dependency_owner_revision_ids: Vec::new(),
                })
                .unwrap()
                .operation;
            operation = service
                .transition_publish(TransitionPublishRequest {
                    context: publication_context(&store, &mut counter),
                    expected_operation: operation,
                    transition: PublishTransition::BeginFinalization,
                })
                .unwrap()
                .operation;
        }
        move_restore_into_abort_for_publication_test(
            &store,
            &mut counter,
            &restore,
            forward_step % 2 == 0,
        );
        let version_before = store.current_read_version().unwrap();
        let rejected = match forward_step {
            0 => service
                .begin_publish(BeginPublishRequest {
                    context: publication_context(&store, &mut counter),
                    operation,
                })
                .map(|_| ()),
            1 => service
                .stage_objects_batch(StageObjectsBatchRequest {
                    context: publication_context(&store, &mut counter),
                    expected_operation: operation,
                    staged_objects: staged.clone(),
                })
                .map(|_| ()),
            2 => service
                .mark_objects_uploaded_batch(MarkObjectsUploadedBatchRequest {
                    context: publication_context(&store, &mut counter),
                    expected_operation: operation,
                    staged_object_updates: vec![StagedObjectUpdate {
                        expected: staged[0].clone(),
                        next: uploaded_rows(&staged)[0].clone(),
                    }],
                })
                .map(|_| ()),
            3 => service
                .stage_manifest_batch(StageManifestBatchRequest {
                    context: publication_context(&store, &mut counter),
                    expected_operation: operation,
                    manifest_rows: manifest.clone(),
                    dependency_owner_revision_ids: Vec::new(),
                })
                .map(|_| ()),
            4 => service
                .finalize_publish(FinalizePublishRequest {
                    context: publication_context(&store, &mut counter),
                    expected_operation: operation.clone(),
                    artifact: PublishedArtifact {
                        logical_size: 97,
                        body_digest_uri: canonical_digest_uri(0x72),
                        manifest_digest_uri: sha256_digest_uri(operation.manifest_seal),
                        content_type: RESTORE_MANIFEST_CONTENT_TYPE.to_owned(),
                        producer: None,
                        manifest_id: None,
                        typed_index_projection: TypedProjection::empty().encode().unwrap(),
                    },
                    dependency_owner_revision_ids: Vec::new(),
                })
                .map(|_| ()),
            _ => unreachable!("forward step is bounded"),
        };
        assert!(matches!(
            rejected,
            Err(PublicationError::RestoreAuthorityMismatch)
                | Err(PublicationError::RestoreManifestClosureMismatch)
        ));
        assert_eq!(store.current_read_version().unwrap(), version_before);
        assert!(payload_at(
            &store,
            MetadataFamily::PathCurrent,
            &path_current_key(root(), incarnation(9), &path(RUN_MANIFEST_PATH)),
            version_before,
        )
        .is_none());
        assert!(payload_at(
            &store,
            MetadataFamily::ArtifactRevision,
            &artifact_revision_key(root(), identity.artifact_revision_id),
            version_before,
        )
        .is_none());
    }
}

#[test]
fn restore_abort_cleanup_rejects_publishers_outside_late_bound_identity() {
    for wrong_operation in [false, true] {
        let mut counter = 1;
        let store = ready_store(&mut counter);
        let service = PublicationService::new(&store);
        let restore = sealed_bound_restore_operation();
        let RestoreCommitProvenance::V5 { destination_binding } = &restore.commit_provenance else {
            unreachable!("test fixture uses v5 provenance")
        };
        let expected = destination_binding
            .as_ref()
            .unwrap()
            .run_manifest_identity;
        install_restore_publication_authority(&store, &mut counter, &restore);
        move_restore_into_abort_for_publication_test(&store, &mut counter, &restore, false);
        let wrong = if wrong_operation {
            restore_manifest_identity(operation_id(90_099), expected.artifact_revision_id)
        } else {
            restore_manifest_identity(expected.publication_operation_id, revision(90_099))
        };
        let (mut operation, _, _) = restore_staging_publish_operation(
            wrong,
            RUN_MANIFEST_PATH,
            canonical_digest_uri(0x73),
            98,
        );
        operation.phase = PublishPhase::Aborting;
        operation.terminal_error = Some(PublishTerminalError {
            kind: PublishTerminalErrorKind::AbortedByCaller,
            message: "planted foreign publisher".to_owned(),
            evidence_digest: None,
        });
        seal_publish_operation(&mut operation);
        install_publish_operation_for_test(&store, &mut counter, &operation);
        let version_before = store.current_read_version().unwrap();
        assert_eq!(
            service.transition_publish(TransitionPublishRequest {
                context: publication_context(&store, &mut counter),
                expected_operation: operation,
                transition: PublishTransition::BeginCleaning,
            }),
            Err(PublicationError::RestoreAuthorityMismatch),
        );
        assert_eq!(store.current_read_version().unwrap(), version_before);
    }
}

#[test]
fn quarantined_restore_publisher_retains_claim_and_provider_evidence() {
    let mut counter = 1;
    let store = ready_store(&mut counter);
    let service = PublicationService::new(&store);
    let restore = sealed_bound_restore_operation();
    let RestoreCommitProvenance::V5 { destination_binding } = &restore.commit_provenance else {
        unreachable!("test fixture uses v5 provenance")
    };
    let identity = destination_binding
        .as_ref()
        .unwrap()
        .restore_manifest_identity;
    install_restore_publication_authority(&store, &mut counter, &restore);
    let (operation, staged, _) = restore_staging_publish_operation(
        identity,
        RESTORE_MANIFEST_PATH,
        restore.restore_manifest.body_digest_uri.clone(),
        restore.restore_manifest.logical_size,
    );
    let operation = begin_operation(&service, &store, &mut counter, operation);
    let operation = service
        .stage_objects_batch(StageObjectsBatchRequest {
            context: publication_context(&store, &mut counter),
            expected_operation: operation,
            staged_objects: staged,
        })
        .unwrap()
        .operation;
    move_restore_into_abort_for_publication_test(&store, &mut counter, &restore, true);
    let operation = service
        .transition_publish(TransitionPublishRequest {
            context: publication_context(&store, &mut counter),
            expected_operation: operation,
            transition: PublishTransition::BeginAbort {
                terminal_error: PublishTerminalError {
                    kind: PublishTerminalErrorKind::AbortedByCaller,
                    message: "provider outcome became ambiguous".to_owned(),
                    evidence_digest: None,
                },
            },
        })
        .unwrap()
        .operation;
    let cleaning = service
        .transition_publish(TransitionPublishRequest {
            context: publication_context(&store, &mut counter),
            expected_operation: operation,
            transition: PublishTransition::BeginCleaning,
        })
        .unwrap()
        .operation;
    let quarantined = service
        .transition_publish(TransitionPublishRequest {
            context: publication_context(&store, &mut counter),
            expected_operation: cleaning,
            transition: PublishTransition::Quarantine {
                terminal_error: PublishTerminalError {
                    kind: PublishTerminalErrorKind::CleanupFailed,
                    message: "operator verification required".to_owned(),
                    evidence_digest: Some([0x74; SHA256_BYTES]),
                },
            },
        })
        .unwrap()
        .operation;
    assert_eq!(quarantined.phase, PublishPhase::Quarantined);
    assert!(read_revision_claim(&store, identity.artifact_revision_id).is_some());
    assert_eq!(
        count_prefix(
            &store,
            MetadataFamily::StagedObject,
            &staged_object_prefix(root(), identity.publication_operation_id),
        ),
        1,
    );
    assert!(matches!(
        service.cleanup_publish_batch(CleanupPublishBatchRequest {
            context: publication_context(&store, &mut counter),
            expected_operation: quarantined,
            staged_object_updates: Vec::new(),
        }),
        Err(PublicationError::InvalidOperationPhase {
            expected: PublishPhase::Cleaning,
            actual: PublishPhase::Quarantined,
        })
    ));
    assert!(read_revision_claim(&store, identity.artifact_revision_id).is_some());
}

fn uploading_operation(
    service: &PublicationService<'_>,
    store: &MetaShard,
    counter: &mut u128,
    identity: u128,
    rows: usize,
) -> (
    PublishOperationRecord,
    Vec<StagedObjectRecord>,
    Vec<ManifestRowInput>,
) {
    let staged = staged_rows(revision(identity), rows);
    let manifest = manifest_rows(&staged);
    let operation = publish_operation(
        operation_id(identity),
        revision(identity),
        path(&format!("outputs/{identity}.bin")),
        PublishClaim::CreateOnly,
        &staged,
        &manifest,
    );
    let operation = begin_operation(service, store, counter, operation);
    (operation, staged, manifest)
}

#[test]
fn commit_staging_installs_a_hidden_revision_and_binds_it_to_the_build() {
    let mut counter = 1;
    let store = ready_store(&mut counter);
    let publication = PublicationService::new(&store);
    let commit_operation_id = operation_id(700);
    let manifest_revision_id = revision(700);
    let run_manifest_path = path(RUN_MANIFEST_PATH);
    let build = BuildCommitOperationRecord {
        operation_id: commit_operation_id,
        commit_id: CommitId::from_bytes([7; SHA256_BYTES]),
        workbench_id: workbench(),
        source_workspace_incarnation_id: incarnation(9),
        tree_manifest_revision_id: manifest_revision_id,
        run_manifest_condition: CommitManifestCondition::CreateOnly,
        commit_staged_run_manifest: None,
        phase: BuildCommitPhase::Building,
        member_count: 0,
        has_member_cursor: false,
        revision_ref_count: 0,
    };
    let mut plan = CommandPlan::default();
    plan.put_absent(
        MetadataFamily::Operation,
        operation_key(root(), OperationKind::BuildCommit, commit_operation_id),
        build.encode().unwrap(),
    );
    plan.run(&store, &mut counter);

    let staged = staged_rows(manifest_revision_id, 1);
    let manifest = manifest_rows(&staged);
    let mut operation = publish_operation(
        operation_id(701),
        manifest_revision_id,
        run_manifest_path.clone(),
        PublishClaim::CreateOnly,
        &staged,
        &manifest,
    );
    operation.authority = PublishAuthority::CommitStaging {
        commit_operation_id,
    };
    seal_publish_operation(&mut operation);
    let operation = begin_operation(&publication, &store, &mut counter, operation);
    let operation = stage_all(
        &publication,
        &store,
        &mut counter,
        operation,
        &staged,
        &manifest,
    );
    let operation = publication
        .transition_publish(TransitionPublishRequest {
            context: publication_context(&store, &mut counter),
            expected_operation: operation,
            transition: PublishTransition::BeginFinalization,
        })
        .unwrap()
        .operation;
    let artifact = PublishedArtifact {
        logical_size: staged[0].expected_length,
        body_digest_uri: staged[0].expected_digest_uri.clone(),
        manifest_digest_uri: sha256_digest_uri(operation.manifest_seal),
        content_type: "application/json".to_owned(),
        producer: None,
        manifest_id: None,
        typed_index_projection: TypedProjection::empty().encode().unwrap(),
    };
    let outcome = publication
        .finalize_publish(FinalizePublishRequest {
            context: publication_context(&store, &mut counter),
            artifact: artifact.clone(),
            expected_operation: operation,
            dependency_owner_revision_ids: Vec::new(),
        })
        .unwrap();
    assert_eq!(outcome.operation.phase, PublishPhase::Published);
    assert_eq!(read_revision_claim(&store, manifest_revision_id), None);

    let staged_version = store.current_read_version().unwrap();
    assert!(get_visible_path_at(
        &store,
        RootReadContext::current(&store, root(), placement(), owner()).unwrap(),
        &workbench(),
        &run_manifest_path,
    )
    .unwrap()
    .is_none());
    assert!(payload_at(
        &store,
        MetadataFamily::PathCurrent,
        &path_current_key(root(), incarnation(9), &run_manifest_path),
        staged_version,
    )
    .is_none());
    let staged_revision = ArtifactRevisionRecord::decode(
        &payload_at(
            &store,
            MetadataFamily::ArtifactRevision,
            &artifact_revision_key(root(), manifest_revision_id),
            staged_version,
        )
        .unwrap(),
    )
    .unwrap();
    assert_eq!(staged_revision.strong_reference_count, 1);
    assert_eq!(
        staged_revision.dependency_digest,
        dependency_owner_digest(&[]).unwrap()
    );
    assert_ne!(staged_revision.dependency_digest, [0; 32]);
    let bound = BuildCommitOperationRecord::decode(
        &payload_at(
            &store,
            MetadataFamily::Operation,
            &operation_key(root(), OperationKind::BuildCommit, commit_operation_id),
            staged_version,
        )
        .unwrap(),
    )
    .unwrap();
    assert_eq!(
        bound.commit_staged_run_manifest,
        Some(CommitManifestBinding {
            logical_size: artifact.logical_size,
            body_digest_uri: artifact.body_digest_uri,
            manifest_digest_uri: artifact.manifest_digest_uri,
            content_type: artifact.content_type,
        })
    );
    assert_eq!(bound.revision_ref_count, 1);
}

#[test]
fn run_manifests_need_a_staging_authority() {
    let mut counter = 1;
    let store = ready_store(&mut counter);
    let service = PublicationService::new(&store);
    let operation = publish_operation(
        operation_id(702),
        revision(702),
        path(RUN_MANIFEST_PATH),
        PublishClaim::CreateOnly,
        &[],
        &[],
    );
    assert_eq!(
        service.begin_publish(BeginPublishRequest {
            context: publication_context(&store, &mut counter),
            operation: operation.clone(),
        }),
        Err(PublicationError::ReservedManifestAuthorityRequired)
    );
    let mut orphan = operation;
    orphan.authority = PublishAuthority::CommitStaging {
        commit_operation_id: operation_id(703),
    };
    seal_publish_operation(&mut orphan);
    assert_eq!(
        service.begin_publish(BeginPublishRequest {
            context: publication_context(&store, &mut counter),
            operation: orphan.clone(),
        }),
        Err(PublicationError::CommitOperationMissing)
    );
    orphan.authority = PublishAuthority::RestoreStaging {
        restore_operation_id: operation_id(90_000),
    };
    seal_publish_operation(&mut orphan);
    assert_eq!(
        service.begin_publish(BeginPublishRequest {
            context: publication_context(&store, &mut counter),
            operation: orphan.clone(),
        }),
        Err(PublicationError::RestoreAuthorityMismatch)
    );
    let restore = sealed_bound_restore_operation();
    install_restore_publication_authority(&store, &mut counter, &restore);
    let mut plan = CommandPlan::default();
    plan.delete(
        MetadataFamily::Operation,
        operation_key(root(), OperationKind::Restore, restore.operation_id),
        restore.encode().unwrap(),
    );
    plan.run(&store, &mut counter);
    assert_eq!(
        service.begin_publish(BeginPublishRequest {
            context: publication_context(&store, &mut counter),
            operation: orphan,
        }),
        Err(PublicationError::RestoreOperationMissing)
    );
}

#[test]
fn sixty_field_replacement_fits_one_event_and_one_byte_more_does_not() {
    let mut counter = 1;
    let store = ready_store(&mut counter);
    let service = PublicationService::new(&store);
    let artifact_path = path("outputs/disjoint-republish.bin");
    let old_projection = budget_projection_with_prefix("oldset", 488);
    let next_projection = budget_projection_with_prefix("newset", 488);
    assert_eq!(old_projection.fields().len(), 60);
    assert_eq!(old_projection.encode().unwrap().len(), 30_603);
    assert_eq!(next_projection.encode().unwrap().len(), 30_603);
    assert!(fields_are_disjoint("oldset", &next_projection));
    let event = ChangeEventRecord {
        workbench_id: workbench(),
        workspace_incarnation_id: incarnation(9),
        kind: ChangeEventKind::ArtifactPublished,
        artifact_revision_id: Some(revision(220)),
        commit_id: None,
        operation_id: Some(operation_id(220)),
        path: Some(artifact_path.clone()),
        before: old_projection.duplicate(),
        after: next_projection.duplicate(),
    }
    .encode()
    .unwrap();
    assert_eq!(event.len(), 61_323);
    let oversized_event = ChangeEventRecord {
        workbench_id: workbench(),
        workspace_incarnation_id: incarnation(9),
        kind: ChangeEventKind::ArtifactPublished,
        artifact_revision_id: Some(revision(220)),
        commit_id: None,
        operation_id: Some(operation_id(220)),
        path: Some(artifact_path.clone()),
        before: budget_projection_with_prefix("oldmax", 489),
        after: budget_projection_with_prefix("newmax", 489),
    }
    .encode()
    .unwrap();
    assert_eq!(oversized_event.len(), 61_443);
    publish_full_with_projection(
        &service,
        &store,
        &mut counter,
        operation_id(219),
        revision(219),
        artifact_path.clone(),
        PublishClaim::CreateOnly,
        1,
        old_projection,
    );
    let replaced = publish_full_with_projection(
        &service,
        &store,
        &mut counter,
        operation_id(220),
        revision(220),
        artifact_path,
        PublishClaim::ReplaceOnly {
            expected_generation: Generation::new(1).unwrap(),
        },
        1,
        next_projection,
    );
    assert_eq!(replaced.result.path_generation, Generation::new(2).unwrap());
}

#[test]
fn the_longest_path_is_published_like_any_other() {
    let mut counter = 1;
    let store = ready_store(&mut counter);
    let service = PublicationService::new(&store);
    let longest = path(&"x".repeat(MAX_PATH_BYTES));
    let outcome = publish_full(
        &service,
        &store,
        &mut counter,
        operation_id(704),
        revision(704),
        longest.clone(),
        PublishClaim::CreateOnly,
        1,
    );
    assert_eq!(outcome.result.path_generation, Generation::new(1).unwrap());
    assert!(NormalizedRelativePath::new(&"x".repeat(MAX_PATH_BYTES + 1)).is_err());
    assert!(payload_at(
        &store,
        MetadataFamily::PathCurrent,
        &path_current_key(root(), incarnation(9), &longest),
        store.current_read_version().unwrap(),
    )
    .is_some());
}

#[test]
fn staged_batches_are_bounded_and_contiguous() {
    let mut counter = 1;
    let store = ready_store(&mut counter);
    let service = PublicationService::new(&store);
    let (operation, staged, _) = uploading_operation(&service, &store, &mut counter, 800, 2);
    let mut stage = |rows: Vec<StagedObjectRecord>| {
        service
            .stage_objects_batch(StageObjectsBatchRequest {
                context: publication_context(&store, &mut counter),
                expected_operation: operation.clone(),
                staged_objects: rows,
            })
            .unwrap_err()
    };
    assert!(matches!(
        stage(Vec::new()),
        PublicationError::EmptyBatch { .. }
    ));
    assert!(matches!(
        stage(staged_rows(revision(800), MAX_PUBLICATION_BATCH_ROWS + 1)),
        PublicationError::BatchTooLarge {
            count: 193,
            max: 192,
            ..
        }
    ));
    assert!(matches!(
        stage(staged_rows(revision(800), 3)),
        PublicationError::BatchExceedsPlannedCount {
            cursor: 0,
            count: 3,
            planned: 2,
            ..
        }
    ));
    assert_eq!(
        stage(staged[1..].to_vec()),
        PublicationError::StagedObjectSequenceMismatch {
            expected: 0,
            actual: 1,
        }
    );
    assert_eq!(
        stage(staged_rows(revision(801), 1)),
        PublicationError::StagedObjectRevisionMismatch
    );
    assert_eq!(
        stage(uploaded_rows(&staged)),
        PublicationError::InvalidStagedObjectTransition { sequence: 0 }
    );
}

#[test]
fn uploads_are_confirmed_in_order_and_only_when_done() {
    let mut counter = 1;
    let store = ready_store(&mut counter);
    let service = PublicationService::new(&store);
    let (operation, staged, _) = uploading_operation(&service, &store, &mut counter, 802, 2);
    let operation = service
        .stage_objects_batch(StageObjectsBatchRequest {
            context: publication_context(&store, &mut counter),
            expected_operation: operation,
            staged_objects: staged.clone(),
        })
        .unwrap()
        .operation;
    assert_eq!(operation.staged_object_cursor, 2);
    assert_eq!(
        operation.staged_object_rolling_digest,
        operation.staged_object_seal
    );
    let uploaded = uploaded_rows(&staged);
    let mut confirm = |expected: &StagedObjectRecord, next: &StagedObjectRecord| {
        service.mark_objects_uploaded_batch(MarkObjectsUploadedBatchRequest {
            context: publication_context(&store, &mut counter),
            expected_operation: operation.clone(),
            staged_object_updates: vec![StagedObjectUpdate {
                expected: expected.clone(),
                next: next.clone(),
            }],
        })
    };
    assert_eq!(
        confirm(&staged[1], &uploaded[1]),
        Err(PublicationError::StagedObjectSequenceMismatch {
            expected: 0,
            actual: 1,
        })
    );
    let still_uploading = StagedObjectRecord {
        provider_state: StagedProviderState::Uploading,
        ..staged[0].clone()
    };
    assert_eq!(
        confirm(&staged[0], &still_uploading),
        Err(PublicationError::StagedObjectNotUploaded { sequence: 0 })
    );
    let confirmed = confirm(&staged[0], &uploaded[0]).unwrap();
    assert_eq!(confirmed.operation.uploaded_object_cursor, 1);
    assert_eq!(
        confirmed.operation.initialization_digest,
        operation.initialization_digest
    );
}

#[test]
fn tampered_operations_break_their_seals() {
    let mut counter = 1;
    let store = ready_store(&mut counter);
    let service = PublicationService::new(&store);
    let mut operation = publish_operation(
        operation_id(803),
        revision(803),
        path("outputs/tampered.bin"),
        PublishClaim::CreateOnly,
        &[],
        &[],
    );
    operation.staged_object_count = 1;
    assert!(matches!(
        service.begin_publish(BeginPublishRequest {
            context: publication_context(&store, &mut counter),
            operation: operation.clone(),
        }),
        Err(PublicationError::InvalidOperationSeal { .. })
    ));
    operation.staged_object_count = 0;
    operation.activity_deadline_ms = 0;
    seal_publish_operation(&mut operation);
    assert!(matches!(
        service.begin_publish(BeginPublishRequest {
            context: publication_context(&store, &mut counter),
            operation,
        }),
        Err(PublicationError::ActivityDeadlineNotFuture {
            clock: 0,
            requested: 0,
        })
    ));
}

#[test]
fn path_claims_are_held_against_the_current_path() {
    let mut counter = 1;
    let store = ready_store(&mut counter);
    let service = PublicationService::new(&store);
    let artifact_path = path("outputs/claimed.bin");
    publish_full(
        &service,
        &store,
        &mut counter,
        operation_id(810),
        revision(810),
        artifact_path.clone(),
        PublishClaim::CreateOnly,
        1,
    );
    let mut attempt = |identity: u128, target: &str, claim: PublishClaim| {
        let operation = publish_operation(
            operation_id(identity),
            revision(identity),
            path(target),
            claim,
            &[],
            &[],
        );
        let operation = begin_operation(&service, &store, &mut counter, operation);
        let operation = service
            .transition_publish(TransitionPublishRequest {
                context: publication_context(&store, &mut counter),
                expected_operation: operation,
                transition: PublishTransition::BeginFinalization,
            })
            .unwrap()
            .operation;
        service
            .finalize_publish(FinalizePublishRequest {
                context: publication_context(&store, &mut counter),
                artifact: published_artifact(&operation),
                expected_operation: operation,
                dependency_owner_revision_ids: Vec::new(),
            })
            .map(|outcome| outcome.result.path_generation.get())
    };
    assert_eq!(
        attempt(811, "outputs/claimed.bin", PublishClaim::CreateOnly),
        Err(PublicationError::PathAlreadyExists)
    );
    let second = PublishClaim::ReplaceOnly {
        expected_generation: Generation::new(2).unwrap(),
    };
    assert_eq!(
        attempt(812, "outputs/claimed.bin", second),
        Err(PublicationError::PathGenerationMismatch {
            expected: 2,
            actual: 1,
        })
    );
    assert_eq!(
        attempt(813, "outputs/missing.bin", second),
        Err(PublicationError::PathNotFound)
    );
    let first = PublishClaim::ReplaceOnly {
        expected_generation: Generation::new(1).unwrap(),
    };
    assert_eq!(attempt(814, "outputs/claimed.bin", first), Ok(2));
}

#[test]
fn published_revisions_are_never_published_again() {
    let mut counter = 1;
    let store = ready_store(&mut counter);
    let service = PublicationService::new(&store);
    let shared = revision(820);
    let (loser, _, _) = uploading_operation(&service, &store, &mut counter, 820, 0);
    overwrite_revision_claim(&store, &mut counter, shared, None);
    publish_full(
        &service,
        &store,
        &mut counter,
        operation_id(821),
        shared,
        path("outputs/once.bin"),
        PublishClaim::CreateOnly,
        0,
    );
    let loser = service
        .transition_publish(TransitionPublishRequest {
            context: publication_context(&store, &mut counter),
            expected_operation: loser,
            transition: PublishTransition::BeginFinalization,
        })
        .unwrap()
        .operation;
    assert_eq!(
        service.finalize_publish(FinalizePublishRequest {
            context: publication_context(&store, &mut counter),
            artifact: published_artifact(&loser),
            expected_operation: loser,
            dependency_owner_revision_ids: Vec::new(),
        }),
        Err(PublicationError::RevisionAlreadyExists)
    );
    let late = publish_operation(
        operation_id(822),
        shared,
        path("outputs/twice.bin"),
        PublishClaim::CreateOnly,
        &[],
        &[],
    );
    assert_eq!(
        service.begin_publish(BeginPublishRequest {
            context: publication_context(&store, &mut counter),
            operation: late,
        }),
        Err(PublicationError::Meta(MetaError::Other {
            ticket: PREDICATE_FAILED,
        }))
    );
}

#[test]
fn dependencies_are_counted_and_released_again() {
    let mut counter = 1;
    let store = ready_store(&mut counter);
    let service = PublicationService::new(&store);
    let base = revision(830);
    publish_full(
        &service,
        &store,
        &mut counter,
        operation_id(830),
        base,
        path("outputs/base.bin"),
        PublishClaim::CreateOnly,
        1,
    );
    let child = revision(831);
    let staged = staged_rows(child, 1);
    let mut manifest = vec![ManifestRowInput {
        object_index: 0,
        row: ArtifactManifestRow {
            physical_owner_revision_id: base,
            physical_object_index: 0,
            object_key: object_block_key(shard(), root(), base, 0),
            logical_offset: 0,
            offset: 0,
            length: 1,
            digest_uri: format!("sha256:{:064x}", 0),
            append_segment: None,
        },
    }];
    manifest.extend(manifest_rows(&staged).into_iter().map(|mut input| {
        input.object_index = 1;
        input.row.logical_offset = 1;
        input
    }));
    let dependencies = vec![base];
    let mut operation = publish_operation(
        operation_id(831),
        child,
        path("outputs/child.bin"),
        PublishClaim::CreateOnly,
        &staged,
        &manifest,
    );
    operation.dependency_count = 1;
    operation.dependency_depth = 1;
    operation.dependency_digest = dependency_owner_digest(&dependencies).unwrap();
    seal_publish_operation(&mut operation);
    let operation = begin_operation(&service, &store, &mut counter, operation);
    let operation = stage_uploaded_objects(&service, &store, &mut counter, operation, &staged);
    assert_eq!(
        service
            .stage_manifest_batch(StageManifestBatchRequest {
                context: publication_context(&store, &mut counter),
                expected_operation: operation.clone(),
                manifest_rows: manifest.clone(),
                dependency_owner_revision_ids: Vec::new(),
            })
            .unwrap_err(),
        PublicationError::DependencyCountMismatch {
            expected: 1,
            actual: 0,
        }
    );
    let operation = service
        .stage_manifest_batch(StageManifestBatchRequest {
            context: publication_context(&store, &mut counter),
            expected_operation: operation,
            manifest_rows: manifest,
            dependency_owner_revision_ids: dependencies.clone(),
        })
        .unwrap()
        .operation;
    let operation = service
        .transition_publish(TransitionPublishRequest {
            context: publication_context(&store, &mut counter),
            expected_operation: operation,
            transition: PublishTransition::BeginFinalization,
        })
        .unwrap()
        .operation;
    let outcome = service
        .finalize_publish(FinalizePublishRequest {
            context: publication_context(&store, &mut counter),
            artifact: published_artifact(&operation),
            expected_operation: operation,
            dependency_owner_revision_ids: dependencies,
        })
        .unwrap();
    let revision_at = |identity: ArtifactRevisionId| {
        ArtifactRevisionRecord::decode(
            &payload_at(
                &store,
                MetadataFamily::ArtifactRevision,
                &artifact_revision_key(root(), identity),
                store.current_read_version().unwrap(),
            )
            .unwrap(),
        )
        .unwrap()
    };
    assert_eq!(outcome.result.logical_size, 2);
    assert_eq!(revision_at(base).strong_reference_count, 2);
    assert_eq!(revision_at(base).reference_epoch, ReferenceEpoch::new(2));
    assert_eq!(revision_at(child).strong_reference_count, 1);
    assert_eq!(revision_at(child).dependency_count, 1);
    assert_eq!(revision_at(child).dependency_depth, 1);
}

#[test]
fn digests_resume_where_they_stopped() {
    let staged = staged_rows(revision(840), 3);
    let whole = staged_object_ledger_digest(&staged).unwrap();
    let mut rolling = [0; SHA256_BYTES];
    for row in &staged {
        rolling = nokv_meta::publication_digests::advance_staged_object_rolling_digest(
            rolling,
            &coded(row.clone()),
        )
        .unwrap();
    }
    assert_eq!(rolling, whole);

    let manifest = manifest_rows(&staged);
    let whole = manifest_rows_digest(&manifest).unwrap();
    let mut rolling = [0; SHA256_BYTES];
    for row in coded_rows(&manifest) {
        rolling = nokv_meta::publication_digests::advance_manifest_rolling_digest(rolling, &row)
            .unwrap();
    }
    assert_eq!(rolling, whole);
    assert_eq!(staged_object_ledger_digest(&[]).unwrap(), [0; SHA256_BYTES]);
    assert_eq!(manifest_rows_digest(&[]).unwrap(), [0; SHA256_BYTES]);
}

#[test]
fn dependency_digests_need_increasing_owners() {
    assert_eq!(
        dependency_owner_digest(&[revision(2), revision(1)]),
        Err(PublicationError::DependencyOrder)
    );
    assert_eq!(
        dependency_owner_digest(&[revision(1), revision(1)]),
        Err(PublicationError::DependencyOrder)
    );
    let pair = dependency_owner_digest(&[revision(1), revision(2)]).unwrap();
    assert_ne!(pair, dependency_owner_digest(&[revision(1)]).unwrap());
    assert_ne!(pair, [0; SHA256_BYTES]);
}

#[test]
fn digest_uris_are_lower_case_hex() {
    let mut digest = [0; SHA256_BYTES];
    digest[0] = 0xab;
    digest[31] = 0x0f;
    let uri = sha256_digest_uri(digest);
    assert_eq!(uri, format!("sha256:ab{}0f", "0".repeat(60)));
}

#[test]
fn heartbeats_and_takeovers_follow_the_lease_clock() {
    let mut counter = 1;
    let store = ready_store(&mut counter);
    let service = PublicationService::new(&store);
    let (operation, _, _) = uploading_operation(&service, &store, &mut counter, 850, 0);
    store.clock.set(3_000_000);
    assert_eq!(
        service.heartbeat_publish(HeartbeatPublishRequest {
            context: publication_context(&store, &mut counter),
            expected_operation: operation.clone(),
            activity_deadline_ms: 3_000_000,
        }),
        Err(PublicationError::ActivityDeadlineNotFuture {
            clock: 3_000_000,
            requested: 3_000_000,
        })
    );
    let extended = service
        .heartbeat_publish(HeartbeatPublishRequest {
            context: publication_context(&store, &mut counter),
            expected_operation: operation.clone(),
            activity_deadline_ms: 3_000_001,
        })
        .unwrap()
        .operation;
    assert_eq!(extended.activity_deadline_ms, 3_000_001);
    assert_eq!(extended.identity_digest, operation.identity_digest);
    assert_eq!(extended.manifest_seal, operation.manifest_seal);
}

#[test]
fn publication_errors_say_what_is_wrong() {
    let cases = [
        (
            PublicationError::InvalidOperationSeal { seal: "identity" },
            "publish operation identity seal mismatch",
        ),
        (
            PublicationError::InvalidOperationPhase {
                expected: PublishPhase::Cleaning,
                actual: PublishPhase::Quarantined,
            },
            "publish operation phase must be Cleaning, found Quarantined",
        ),
        (
            PublicationError::EmptyBatch {
                batch: "staged object",
            },
            "staged object batch must not be empty",
        ),
        (
            PublicationError::MetadataLastFinalizationRequired,
            "Published is installed only by finalize_publish with metadata-last closure",
        ),
        (
            PublicationError::Meta(MetaError::Other {
                ticket: WRITE_CONFLICT,
            }),
            "the shard's own words",
        ),
    ];
    for (error, text) in cases {
        assert_eq!(error.message(&policy(), "the shard's own words"), text);
    }
}
