//! Failures of publication.

use crate::ids::{ArtifactRevisionId, MetadataFamily, OperationId, OwnerEpoch};
use crate::publication_records::PublicationRecordCodecError;
use crate::publish_records::{CommitOperationRecordError, PublishPhase, PublishRecordError,
    RestoreRecordError};
use crate::query_records::QueryRecordError;
use vstd::prelude::*;

verus! {

/// Failure of the metadata shard.
#[allow(inconsistent_fields)]
#[derive(Clone, Copy, Debug, PartialEq, Eq)]
pub enum MetaError {
    WriteReadVersionMismatch { requested: u64, current: u64 },
    InvalidCommand { reason: &'static str },
    LeaseDeadlineReached { lease_clock_ms: u64, requested_deadline_ms: u64 },
    /// Any other failure, kept by the caller under a number.
    Other { ticket: u64 },
}

/// Operator verdict about the provider-side state of one quarantined publish.
#[derive(Clone, Copy, Debug, PartialEq, Eq, Structural)]
pub enum QuarantineReconcileResolution {
    /// Every staged provider key was verified absent and the revision was never
    /// published: reconciliation releases the revision identity.
    RevisionUnpublished,
    /// The revision is already published, so the staged provider keys are its
    /// live objects: only the operation's own rows are removed.
    RevisionPublished,
}

/// Typed publication-domain failure.
#[allow(inconsistent_fields)]
#[derive(Clone, Copy, Debug, PartialEq, Eq)]
pub enum PublicationError {
    Meta(MetaError),
    OperationCodec(PublishRecordError),
    RecordCodec(PublicationRecordCodecError),
    QueryRecord(QueryRecordError),
    CommitOperationCodec(CommitOperationRecordError),
    RestoreCodec(RestoreRecordError),
    InvalidOperationSeal { seal: &'static str },
    InvalidOperationPhase { expected: PublishPhase, actual: PublishPhase },
    /// The durable operation row no longer matches the caller's observed
    /// predecessor.
    ConcurrentMutation,
    InitiatingOwnerEpochMismatch { expected: OwnerEpoch, actual: OwnerEpoch },
    OwnerTakeoverNotAllowed { initiating: OwnerEpoch, current: OwnerEpoch },
    HeartbeatOwnerMismatch { initiating: OwnerEpoch, current: OwnerEpoch },
    ActivityDeadlineNotExtended { current: u64, requested: u64 },
    ActivityDeadlineNotFuture { clock: u64, requested: u64 },
    ActivityLeaseNotExpired { deadline_ms: u64, lease_clock_ms: u64, maximum_clock_skew_ms: u64 },
    HeartbeatPhase { actual: PublishPhase },
    OwnerTakeoverPhase { actual: PublishPhase },
    EmptyBatch { batch: &'static str },
    BatchTooLarge { batch: &'static str, count: usize, max: usize },
    BatchExceedsPlannedCount { batch: &'static str, cursor: u32, count: usize, planned: u32 },
    StagedObjectCountMismatch { expected: u32, actual: usize },
    StagedObjectSequenceMismatch { expected: u32, actual: u32 },
    StagedObjectRevisionMismatch,
    StagedObjectKeyMismatch { sequence: u32 },
    InvalidStagedObjectTransition { sequence: u32 },
    StagedObjectNotUploaded { sequence: u32 },
    ManifestCountMismatch { expected: u32, actual: usize },
    ManifestOrder,
    ManifestPositionMismatch,
    ManifestLogicalOffsetMismatch { expected: u64, actual: u64 },
    ManifestDigestMismatch,
    ManifestPhysicalOwnerMissing { owner: ArtifactRevisionId },
    ManifestOwnershipMismatch { object_index: u64, reason: &'static str },
    DuplicateStagedObjectKey { sequence: u32 },
    DependencyCountMismatch { expected: u8, actual: usize },
    DependencyOrder,
    DependencyDigestMismatch,
    DependencyDepthMismatch { expected: u8, actual: u8 },
    WorkspaceNotFound,
    WorkspaceUnavailable,
    WorkspaceIncarnationMismatch,
    ReservedManifestAuthorityRequired,
    CommitOperationMissing,
    CommitAuthorityMismatch,
    CommitManifestClosureMismatch,
    RestoreOperationMissing,
    RestoreAuthorityMismatch,
    RestoreManifestPathRequired,
    RestoreManifestClosureMismatch,
    WorkspaceRevisionOverflow,
    PathAlreadyExists,
    PathNotFound,
    PathGenerationMismatch { expected: u64, actual: u64 },
    AppendBaseRevisionMismatch,
    PathGenerationOverflow,
    RevisionAlreadyExists,
    RevisionClaimHeld { revision: ArtifactRevisionId, operation_id: OperationId },
    ReconcileResolutionMismatch {
        resolution: QuarantineReconcileResolution,
        revision_published: bool,
    },
    ReconcileManifestRowsRemain { remaining: u32 },
    RevisionNotFound { revision: ArtifactRevisionId },
    RevisionUnavailable { revision: ArtifactRevisionId },
    RevisionIdentityCollision,
    RevisionReferenceMissing,
    RevisionReferenceEpochAhead,
    ReferenceCountUnderflow { revision: ArtifactRevisionId },
    ReferenceCountOverflow { revision: ArtifactRevisionId },
    ReferenceEpochOverflow { revision: ArtifactRevisionId },
    CommitVersionOverflow,
    LengthOverflow { field: &'static str, length: usize },
    CommandItemLimit { field: &'static str, count: usize, max: usize },
    DuplicateCommandKey { family: MetadataFamily },
    OperationInputMismatch,
    ReplayResultMismatch,
    MetadataLastFinalizationRequired,
}

} // verus!
