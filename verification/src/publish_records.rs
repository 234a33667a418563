//! Operations that publish an artifact revision, and the rows they own.
//!
//! The byte codecs of these records belong to the operation store. A record
//! that a caller hands in comes as [`Coded`]: with what its codec says of it.

use crate::ids::{ArtifactRevisionId, CommitId, Generation, LogicalShardId, OperationId, OwnerEpoch,
    RootId, WorkspaceIncarnationId, WorkspaceRevision};
use crate::text::{path_fault, workbench_id_fault, NormalizedRelativePath, WorkbenchId};
use vstd::prelude::*;

verus! {

/// A failure of the publish-operation codec, kept by the caller under a number.
#[derive(Clone, Copy, Debug, PartialEq, Eq, Structural)]
pub struct PublishRecordError {
    pub ticket: u64,
}

/// A failure of the commit-operation codec, kept by the caller under a number.
#[derive(Clone, Copy, Debug, PartialEq, Eq, Structural)]
pub struct CommitOperationRecordError {
    pub ticket: u64,
}

/// A failure of the restore-operation codec, kept by the caller under a number.
#[derive(Clone, Copy, Debug, PartialEq, Eq, Structural)]
pub struct RestoreRecordError {
    pub ticket: u64,
}

/// A record with what its codec says of it.
#[derive(Debug, PartialEq, Eq)]
pub struct Coded<T> {
    pub record: T,
    /// Why the record is invalid, if it is.
    pub validity: Option<PublishRecordError>,
    /// The stored form of the record, or why it has none.
    pub payload: Result<Vec<u8>, PublishRecordError>,
}

/// Phase of a publish operation.
#[derive(Clone, Copy, Debug, PartialEq, Eq, Structural)]
pub enum PublishPhase {
    Uploading,
    Finalizing,
    Published,
    Aborting,
    Cleaning,
    Cleaned,
    Quarantined,
}

/// Who lets a publication happen.
#[derive(Clone, Copy, Debug, PartialEq, Eq, Structural)]
pub enum PublishAuthority {
    Visible,
    CommitStaging { commit_operation_id: OperationId },
    RestoreStaging { restore_operation_id: OperationId },
}

/// What a publication expects of its path.
#[derive(Clone, Copy, Debug, PartialEq, Eq, Structural)]
pub enum PublishClaim {
    CreateOnly,
    ReplaceOnly { expected_generation: Generation },
    Append {
        expected_generation: Generation,
        base_revision_id: ArtifactRevisionId,
        append_offset: u64,
    },
}

/// Where the durable manifest ends.
#[derive(Clone, Copy, Debug, PartialEq, Eq, Structural)]
pub struct ManifestPosition {
    pub object_index: u64,
}

/// What a successful publication reports.
#[derive(Clone, Debug, PartialEq, Eq)]
pub struct PublishResult {
    pub path_generation: Generation,
    pub workspace_revision: WorkspaceRevision,
    pub logical_size: u64,
    pub body_digest_uri: String,
}

/// Why an operation ended without publishing.
#[derive(Clone, Copy, Debug, PartialEq, Eq, Structural)]
pub enum PublishTerminalErrorKind {
    AbortedByCaller,
    ActivityLeaseExpired,
    CleanupFailed,
    InvariantViolation,
    OperatorReconciled,
}

/// How an operation ended without publishing.
#[derive(Clone, Debug, PartialEq, Eq)]
pub struct PublishTerminalError {
    pub kind: PublishTerminalErrorKind,
    pub message: String,
    pub evidence_digest: Option<[u8; 32]>,
}

/// A step of a publish operation's life.
#[derive(Clone, Debug, PartialEq, Eq)]
pub enum PublishTransition {
    BeginFinalization,
    Publish { result: PublishResult },
    BeginAbort { terminal_error: PublishTerminalError },
    BeginCleaning,
    FinishCleanup,
    Quarantine { terminal_error: PublishTerminalError },
}

/// One object-first publication: what it will publish, and how far it got.
#[derive(Clone, Debug, PartialEq, Eq)]
pub struct PublishOperationRecord {
    pub operation_id: OperationId,
    pub identity_digest: [u8; 32],
    pub initialization_digest: [u8; 32],
    pub initiating_owner_epoch: OwnerEpoch,
    pub activity_deadline_ms: u64,
    pub authority: PublishAuthority,
    pub workbench_id: WorkbenchId,
    pub workspace_incarnation_id: WorkspaceIncarnationId,
    pub path: NormalizedRelativePath,
    pub artifact_revision_id: ArtifactRevisionId,
    pub claim: PublishClaim,
    pub phase: PublishPhase,
    pub staged_object_count: u32,
    pub staged_object_seal: [u8; 32],
    pub staged_object_cursor: u32,
    pub staged_object_rolling_digest: [u8; 32],
    pub uploaded_object_cursor: u32,
    pub uploaded_object_rolling_digest: [u8; 32],
    pub manifest_row_count: u32,
    pub manifest_seal: [u8; 32],
    pub manifest_cursor: u32,
    pub manifest_rolling_digest: [u8; 32],
    pub manifest_last_position: Option<ManifestPosition>,
    pub dependency_count: u8,
    pub dependency_depth: u8,
    pub dependency_digest: [u8; 32],
    pub cleanup_staged_object_cursor: u32,
    pub cleanup_manifest_cursor: u32,
    pub publication_absence_proof: Option<[u8; 32]>,
    pub result: Option<PublishResult>,
    pub terminal_error: Option<PublishTerminalError>,
}

/// Where the provider stands with a staged object.
#[derive(Clone, Copy, Debug, PartialEq, Eq, Structural)]
pub enum StagedProviderState {
    Planned,
    Uploading,
    Uploaded,
    AbortPending,
    Aborted,
    Ambiguous,
}

/// Where cleanup stands with a staged object.
#[derive(Clone, Copy, Debug, PartialEq, Eq, Structural)]
pub enum StagedCleanupState {
    Owned,
    DeletePending,
    Deleted,
    Quarantined,
}

/// Coordinates that a canonical object key is made of.
#[derive(Clone, Copy, Debug, PartialEq, Eq, Structural)]
pub struct ObjectCoordinates {
    pub logical_shard_id: LogicalShardId,
    pub root_id: RootId,
    pub artifact_revision_id: ArtifactRevisionId,
    pub object_index: u64,
}

/// The provider key of an object.
#[derive(Clone, Debug, PartialEq, Eq)]
pub struct ObjectKey {
    pub text: String,
    /// The coordinates whose canonical key this is, if it is one.
    pub coordinates: Option<ObjectCoordinates>,
}

/// One object that an operation stages at the provider.
#[derive(Clone, Debug, PartialEq, Eq)]
pub struct StagedObjectRecord {
    pub artifact_revision_id: ArtifactRevisionId,
    pub object_sequence: u32,
    pub object_key: ObjectKey,
    pub multipart_upload_id: Option<String>,
    pub expected_length: u64,
    pub expected_digest_uri: String,
    pub provider_state: StagedProviderState,
    pub cleanup_state: StagedCleanupState,
}

/// Which appended segment a manifest row belongs to.
#[derive(Clone, Copy, Debug, PartialEq, Eq, Structural)]
pub struct AppendSegment {
    pub segment_sequence: u64,
    pub segment_offset: u64,
}

/// One immutable row of an artifact's manifest.
#[derive(Clone, Debug, PartialEq, Eq)]
pub struct ArtifactManifestRow {
    pub physical_owner_revision_id: ArtifactRevisionId,
    pub physical_object_index: u64,
    pub object_key: ObjectKey,
    pub logical_offset: u64,
    pub offset: u64,
    pub length: u64,
    pub digest_uri: String,
    pub append_segment: Option<AppendSegment>,
}

/// Phase of a restore operation, as far as publication looks at it.
#[derive(Clone, Copy, Debug, PartialEq, Eq, Structural)]
pub enum RestorePhase {
    SourceSealed,
    DestinationBuilding,
    DestinationSealing,
    Ready,
    Complete,
    Aborting,
    Cleaning,
    Other,
}

/// Identity that a restore reserves for one of its manifests.
#[derive(Clone, Copy, Debug, PartialEq, Eq, Structural)]
pub struct RestoreManifestIdentity {
    pub publication_operation_id: OperationId,
    pub artifact_revision_id: ArtifactRevisionId,
}

/// A manifest that a restore has published.
#[derive(Clone, Debug, PartialEq, Eq)]
pub struct RestoreManifestPublication {
    pub publication_operation_id: OperationId,
    pub workspace_incarnation_id: WorkspaceIncarnationId,
    pub artifact_revision_id: ArtifactRevisionId,
    pub body_digest_uri: String,
    pub manifest_digest_uri: String,
    pub logical_size: u64,
    pub content_type: String,
}

/// Both manifests that a restore has published.
#[derive(Clone, Debug, PartialEq, Eq)]
pub struct RestoreDestinationManifests {
    pub run_manifest: RestoreManifestPublication,
    pub restore_manifest: RestoreManifestPublication,
}

/// What a restore has bound of its destination.
#[derive(Clone, Debug, PartialEq, Eq)]
pub struct RestoreDestinationBinding {
    pub run_manifest_identity: RestoreManifestIdentity,
    pub restore_manifest_identity: RestoreManifestIdentity,
    pub manifests: Option<RestoreDestinationManifests>,
}

/// Where the restored commit comes from.
#[derive(Clone, Debug, PartialEq, Eq)]
pub enum RestoreCommitProvenance {
    V5 { destination_binding: Option<RestoreDestinationBinding> },
    Other,
}

/// The restore manifest that a restore has sealed.
#[derive(Clone, Debug, PartialEq, Eq)]
pub struct RestoreManifestDescriptor {
    pub body_digest_uri: String,
    pub logical_size: u64,
    pub content_type: String,
}

/// A restore operation, as far as publication looks at it.
#[derive(Clone, Debug, PartialEq, Eq)]
pub struct RestoreOperationRecord {
    pub operation_id: OperationId,
    pub destination_workbench_id: WorkbenchId,
    pub destination_workspace_incarnation_id: WorkspaceIncarnationId,
    pub restore_manifest: RestoreManifestDescriptor,
    pub commit_provenance: RestoreCommitProvenance,
    pub phase: RestorePhase,
}

/// Phase of a commit build, as far as publication looks at it.
#[derive(Clone, Copy, Debug, PartialEq, Eq, Structural)]
pub enum BuildCommitPhase {
    Building,
    Complete,
    Other,
}

/// What a commit build expects of the run manifest's path.
#[derive(Clone, Copy, Debug, PartialEq, Eq, Structural)]
pub enum CommitManifestCondition {
    CreateOnly,
    ReplaceOnly { expected_generation: Generation },
}

/// The run manifest that a commit build has staged.
#[derive(Clone, Debug, PartialEq, Eq)]
pub struct CommitManifestBinding {
    pub logical_size: u64,
    pub body_digest_uri: String,
    pub manifest_digest_uri: String,
    pub content_type: String,
}

/// A commit build, as far as publication looks at it.
#[derive(Clone, Debug, PartialEq, Eq)]
pub struct BuildCommitOperationRecord {
    pub operation_id: OperationId,
    pub commit_id: CommitId,
    pub workbench_id: WorkbenchId,
    pub source_workspace_incarnation_id: WorkspaceIncarnationId,
    pub tree_manifest_revision_id: ArtifactRevisionId,
    pub run_manifest_condition: CommitManifestCondition,
    pub commit_staged_run_manifest: Option<CommitManifestBinding>,
    pub phase: BuildCommitPhase,
    pub member_count: u64,
    pub has_member_cursor: bool,
    pub revision_ref_count: u64,
}

impl PublishOperationRecord {
    /// The names in the record are what their types promise.
    pub open spec fn wf(self) -> bool {
        workbench_id_fault(self.workbench_id@) is None && path_fault(self.path@) is None
    }

    pub fn duplicate(&self) -> (copy: PublishOperationRecord)
        ensures
            copy == *self,
    {
        PublishOperationRecord {
            operation_id: self.operation_id,
            identity_digest: self.identity_digest,
            initialization_digest: self.initialization_digest,
            initiating_owner_epoch: self.initiating_owner_epoch,
            activity_deadline_ms: self.activity_deadline_ms,
            authority: self.authority,
            workbench_id: self.workbench_id.clone(),
            workspace_incarnation_id: self.workspace_incarnation_id,
            path: self.path.clone(),
            artifact_revision_id: self.artifact_revision_id,
            claim: self.claim,
            phase: self.phase,
            staged_object_count: self.staged_object_count,
            staged_object_seal: self.staged_object_seal,
            staged_object_cursor: self.staged_object_cursor,
            staged_object_rolling_digest: self.staged_object_rolling_digest,
            uploaded_object_cursor: self.uploaded_object_cursor,
            uploaded_object_rolling_digest: self.uploaded_object_rolling_digest,
            manifest_row_count: self.manifest_row_count,
            manifest_seal: self.manifest_seal,
            manifest_cursor: self.manifest_cursor,
            manifest_rolling_digest: self.manifest_rolling_digest,
            manifest_last_position: self.manifest_last_position,
            dependency_count: self.dependency_count,
            dependency_depth: self.dependency_depth,
            dependency_digest: self.dependency_digest,
            cleanup_staged_object_cursor: self.cleanup_staged_object_cursor,
            cleanup_manifest_cursor: self.cleanup_manifest_cursor,
            publication_absence_proof: self.publication_absence_proof,
            result: match &self.result {
                None => None,
                Some(result) => Some(result.duplicate()),
            },
            terminal_error: match &self.terminal_error {
                None => None,
                Some(error) => Some(error.duplicate()),
            },
        }
    }
}

impl PublishResult {
    pub fn duplicate(&self) -> (copy: PublishResult)
        ensures
            copy == *self,
    {
        PublishResult {
            path_generation: self.path_generation,
            workspace_revision: self.workspace_revision,
            logical_size: self.logical_size,
            body_digest_uri: self.body_digest_uri.clone(),
        }
    }
}

impl PublishTerminalError {
    pub fn duplicate(&self) -> (copy: PublishTerminalError)
        ensures
            copy == *self,
    {
        PublishTerminalError {
            kind: self.kind,
            message: self.message.clone(),
            evidence_digest: self.evidence_digest,
        }
    }
}

impl PublishTransition {
    pub fn duplicate(&self) -> (copy: PublishTransition)
        ensures
            copy == *self,
    {
        match self {
            PublishTransition::BeginFinalization => PublishTransition::BeginFinalization,
            PublishTransition::Publish { result } => PublishTransition::Publish {
                result: result.duplicate(),
            },
            PublishTransition::BeginAbort { terminal_error } => PublishTransition::BeginAbort {
                terminal_error: terminal_error.duplicate(),
            },
            PublishTransition::BeginCleaning => PublishTransition::BeginCleaning,
            PublishTransition::FinishCleanup => PublishTransition::FinishCleanup,
            PublishTransition::Quarantine { terminal_error } => PublishTransition::Quarantine {
                terminal_error: terminal_error.duplicate(),
            },
        }
    }
}

impl Coded<PublishOperationRecord> {
    /// A valid operation has not cleaned up more manifest rows than it wrote.
    pub open spec fn wf(self) -> bool {
        &&& self.record.wf()
        &&& self.validity is None ==> self.record.cleanup_manifest_cursor
            <= self.record.manifest_cursor
    }
}

impl ArtifactManifestRow {
    /// The end of the row's logical range is a number of 64 bits.
    pub open spec fn wf(self) -> bool {
        self.logical_offset + self.length <= u64::MAX
    }
}

impl Coded<ArtifactManifestRow> {
    /// A valid row has a logical range.
    pub open spec fn wf(self) -> bool {
        self.validity is None ==> self.record.wf()
    }
}

impl ObjectKey {
    /// Whether this is the canonical key of the given coordinates.
    pub open spec fn spec_is_canonical(self, coordinates: ObjectCoordinates) -> bool {
        self.coordinates == Some(coordinates)
    }

    pub fn is_canonical(&self, coordinates: ObjectCoordinates) -> (canonical: bool)
        ensures
            canonical == self.spec_is_canonical(coordinates),
    {
        match self.coordinates {
            None => false,
            Some(own) => own == coordinates,
        }
    }
}

} // verus!
