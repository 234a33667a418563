//! The command that publishes: path, revision, references, index and event in
//! one compare-and-set, after everything that it rests on has been checked.

use crate::be::copy_bytes;
use crate::change_events::{change_event_bytes, change_event_fault, locator_bytes,
    path_length_fault, ChangeEventKind, ChangeEventRecord, ChangeEventView, PathIndexLocatorRecord,
    PathIndexLocatorState};
use crate::ids::{ArtifactRevisionId, CommitVersion, Generation, MetadataFamily,
    PathIndexGenerationId, ReadVersion, ReferenceEpoch, RevisionState, WorkspaceRevision,
    WorkspaceState};
use crate::index_keys::{locator_key, path_digest_of, path_index_digest, path_index_generation,
    path_index_locator_key};
use crate::publication_authority::{claim_release_draft, is_open_workspace, is_staged_by,
    lemma_authority_after_halt, lemma_release_after_halt, manifest_kind_of, named_restore,
    named_workspace, path_key_of, path_row, restore_authority_halt, revision_key_of, sealed_draft,
    workspace_authority_halt, workspace_key_of, workspace_row};
use crate::publication_digests::{dependency_seal_fault, digest_uri, fault_upto, get_payload,
    owners_sorted, payload_fault, payload_of, seals_fault, sha256_digest_uri,
    validate_dependency_seal, validate_operation_seals};
use crate::publication_error::{MetaError, PublicationError};
use crate::publication_index_stage::{index_row_of, index_rows_of, lemma_projection_fits,
    locator_row_of, secondary_index_rows, stage_halt, stage_receipt, IndexRow, IndexStage,
    IndexStageView};
use crate::publication_lifecycle::{advancing, publish_row, transition_halt, transitioned_of,
    PublishCommandOutcome};
use crate::publication_manifest::{manifest_end, preceding_row_halt};
use crate::publication_owners::{encoded, lemma_touches_after_halt, owners_halt, record_fault,
    references_fault, shown_revision, touched, touches_draft, TouchedRevision};
use crate::publication_plan::{asserting, deleting, emitting, empty_plan, failing, halted,
    keeps_halts, lemma_stepped_halt, lift, live, put_absent, replacing, stepped, views, CommandPlan,
    Draft, PlannedCommand, PublicationContext, RowKey, Stop, StopView};
use crate::publication_records::{artifact_revision_bytes, artifact_revision_fault, first_fault,
    optional_text, path_entry_bytes, path_entry_fault, revision_ref_bytes, workspace_bytes,
    ArtifactRevisionRecord, ArtifactRevisionView, PathEntry, PathEntryView, RevisionRefRecord,
    WorkspaceRecord};
use crate::publication_replay::{path_ref_key_of, path_ref_row};
use crate::publication_rules::{binding_of, claimed_generation, contains_revision, path_claim_fault,
    phase_fault, require_operation_phase, restore_destination_binding, validate_path_claim,
    PublicationAuthorityPurpose, RestoreManifestKind};
use crate::publication_store::{bytes_of, current_operation_halt, next_payload_halt,
    next_payload_of, path_entry_halt, path_entry_of, publish_key, read_halt, Loaded, MetaShard,
    PublicationPolicy, PublicationService};
use crate::publish_records::{Coded, PublishAuthority, PublishOperationRecord, PublishPhase,
    PublishResult, PublishTransition, RestoreOperationRecord, RestorePhase};
use crate::query_records::{parse_projection, parse_stored_projection, FieldView, QueryRecordError,
    TypedProjection};
use crate::text::same_text;
use vstd::prelude::*;

verus! {

/// Caller-visible metadata projected into both the revision and path records.
#[derive(Clone, Debug, PartialEq, Eq)]
pub struct PublishedArtifact {
    pub logical_size: u64,
    pub body_digest_uri: String,
    pub manifest_digest_uri: String,
    pub content_type: String,
    pub producer: Option<String>,
    pub manifest_id: Option<String>,
    pub typed_index_projection: Vec<u8>,
}

/// Atomic metadata-last publication of one fully uploaded revision.
#[derive(Debug, PartialEq, Eq)]
pub struct FinalizePublishRequest {
    pub context: PublicationContext,
    pub expected_operation: Coded<PublishOperationRecord>,
    pub artifact: PublishedArtifact,
    /// Strictly increasing, distinct physical owner revision ids.
    pub dependency_owner_revision_ids: Vec<ArtifactRevisionId>,
}

/// Decoded durable result of final metadata publication.
#[derive(Clone, Debug, PartialEq, Eq)]
pub struct FinalizePublishOutcome {
    pub commit_version: CommitVersion,
    pub operation: PublishOperationRecord,
    pub result: PublishResult,
    pub replayed: bool,
}

/// The command that publishes, and the result that it will have.
#[derive(Debug, PartialEq, Eq)]
pub struct PlannedPublication {
    pub command: PlannedCommand,
    pub result: PublishResult,
}

/// A failure of a query codec as a publication failure, if there is one.
pub open spec fn query_fault(fault: Option<QueryRecordError>) -> Option<PublicationError> {
    match fault {
        None => None,
        Some(error) => Some(PublicationError::QueryRecord(error)),
    }
}

/// The fields that a request asks to index.
pub open spec fn asked_fields(request: FinalizePublishRequest) -> Seq<FieldView> {
    parse_projection(request.artifact.typed_index_projection@).unwrap()
}

/// Whether an artifact is the manifest that a restore waits for.
pub open spec fn restore_closes(
    policy: PublicationPolicy,
    restore: RestoreOperationRecord,
    kind: RestoreManifestKind,
    operation: PublishOperationRecord,
    artifact: PublishedArtifact,
    fields: Seq<FieldView>,
) -> bool {
    let sealed = restore.restore_manifest;
    &&& restore.phase == RestorePhase::SourceSealed
    &&& binding_of(restore).unwrap().manifests is None
    &&& operation.dependency_count == 0
    &&& operation.dependency_depth == 0
    &&& artifact.logical_size != 0
    &&& artifact.content_type@ == policy.restore_manifest_content_type@
    &&& artifact.producer is None
    &&& artifact.manifest_id is None
    &&& fields.len() == 0
    &&& kind == RestoreManifestKind::Restore ==> {
        &&& artifact.logical_size == sealed.logical_size
        &&& artifact.body_digest_uri@ == sealed.body_digest_uri@
        &&& artifact.content_type@ == sealed.content_type@
    }
}

/// Dependencies or a manifest digest other than the operation has sealed.
pub open spec fn sealed_inputs_fault(request: FinalizePublishRequest) -> Option<PublicationError> {
    let operation = request.expected_operation.record;
    let owners = request.dependency_owner_revision_ids@;
    first_fault(
        dependency_seal_fault(operation, owners),
        if owners.contains(operation.artifact_revision_id) {
            Some(PublicationError::RevisionIdentityCollision)
        } else if request.artifact.manifest_digest_uri@ != digest_uri(operation.manifest_seal@) {
            Some(PublicationError::ManifestDigestMismatch)
        } else {
            None
        },
    )
}

/// Why the artifact is not the one that the operation has sealed.
#[verifier::opaque]
pub open spec fn closure_halt(store: MetaShard, request: FinalizePublishRequest) -> Option<
    StopView,
> {
    let context = request.context;
    let expected = request.expected_operation;
    let operation = expected.record;
    first_fault(
        failing(
            first_fault(seals_fault(expected), phase_fault(operation, PublishPhase::Finalizing)),
        ),
        first_fault(
            current_operation_halt(store, context, expected),
            first_fault(
                failing(sealed_inputs_fault(request)),
                first_fault(
                    preceding_row_halt(store, context, operation),
                    first_fault(
                        failing(
                            first_fault(
                                if request.artifact.logical_size != manifest_end(
                                    store,
                                    context,
                                    operation,
                                ) {
                                    Some(
                                        PublicationError::ManifestLogicalOffsetMismatch {
                                            expected: manifest_end(
                                                store,
                                                context,
                                                operation,
                                            ) as u64,
                                            actual: request.artifact.logical_size,
                                        },
                                    )
                                } else {
                                    None
                                },
                                match parse_projection(request.artifact.typed_index_projection@) {
                                    Ok(_) => None,
                                    Err(error) => Some(PublicationError::QueryRecord(error)),
                                },
                            ),
                        ),
                        restore_closure_halt(store, request),
                    ),
                ),
            ),
        ),
    )
}

/// Why a restore does not take the artifact for its manifest.
pub open spec fn restore_closure_halt(
    store: MetaShard,
    request: FinalizePublishRequest,
) -> Option<StopView> {
    let context = request.context;
    let operation = request.expected_operation.record;
    match operation.authority {
        PublishAuthority::RestoreStaging { restore_operation_id } => first_fault(
            restore_authority_halt(store, context, operation, restore_operation_id),
            failing(
                if !restore_closes(
                    store.policy,
                    named_restore(store, context, restore_operation_id).unwrap(),
                    manifest_kind_of(store.policy, operation.path@).unwrap(),
                    operation,
                    request.artifact,
                    asked_fields(request),
                ) {
                    Some(PublicationError::RestoreManifestClosureMismatch)
                } else {
                    None
                },
            ),
        ),
        _ => None,
    }
}

/// A workspace that the operation may not publish into, or that has no next
/// revision.
pub open spec fn workspace_state_fault(
    workspace: WorkspaceRecord,
    operation: PublishOperationRecord,
) -> Option<PublicationError> {
    first_fault(
        match operation.authority {
            PublishAuthority::RestoreStaging { restore_operation_id } => if !is_staged_by(
                workspace,
                restore_operation_id,
            ) {
                Some(PublicationError::RestoreAuthorityMismatch)
            } else {
                None
            },
            _ => if !is_open_workspace(workspace) {
                Some(PublicationError::WorkspaceUnavailable)
            } else {
                None
            },
        },
        if workspace.workspace_revision.value == u64::MAX {
            Some(PublicationError::WorkspaceRevisionOverflow)
        } else {
            None
        },
    )
}

/// The entry that the path has now, if it has one.
pub open spec fn current_entry(store: MetaShard, request: FinalizePublishRequest) -> Option<
    PathEntryView,
> {
    path_entry_of(
        store,
        request.context.read_version,
        path_key_of(request.context, request.expected_operation.record),
    )
}

/// The fields that the path is indexed under now.
pub open spec fn current_fields(store: MetaShard, request: FinalizePublishRequest) -> Seq<FieldView> {
    match current_entry(store, request) {
        None => Seq::empty(),
        Some(entry) => parse_stored_projection(entry.typed_index_projection).unwrap(),
    }
}

/// A stored projection that cannot be read.
pub open spec fn stored_projection_fault(entry: Option<PathEntryView>) -> Option<PublicationError> {
    match entry {
        None => None,
        Some(entry) => match parse_stored_projection(entry.typed_index_projection) {
            Ok(_) => None,
            Err(error) => Some(PublicationError::QueryRecord(error)),
        },
    }
}

/// Why the workspace or the path does not take the publication, or the
/// revision exists already.
#[verifier::opaque]
pub open spec fn target_halt(store: MetaShard, request: FinalizePublishRequest) -> Option<StopView> {
    let context = request.context;
    let operation = request.expected_operation.record;
    let version = context.read_version;
    let revision_key = revision_key_of(context, operation.artifact_revision_id);
    first_fault(
        failing(payload_fault(request.expected_operation)),
        first_fault(
            workspace_authority_halt(store, context, operation),
            first_fault(
                failing(
                    workspace_state_fault(
                        named_workspace(store, context, operation).unwrap(),
                        operation,
                    ),
                ),
                first_fault(
                    path_entry_halt(store, version, path_key_of(context, operation)),
                    first_fault(
                        failing(
                            first_fault(
                                stored_projection_fault(current_entry(store, request)),
                                path_claim_fault(operation.claim, current_entry(store, request)),
                            ),
                        ),
                        first_fault(
                            read_halt(store, version, revision_key),
                            failing(
                                if bytes_of(store, version, revision_key) is Some {
                                    Some(PublicationError::RevisionAlreadyExists)
                                } else {
                                    None
                                },
                            ),
                        ),
                    ),
                ),
            ),
        ),
    )
}

/// The revision that the workspace will have.
pub open spec fn next_workspace_revision(
    store: MetaShard,
    request: FinalizePublishRequest,
) -> WorkspaceRevision {
    let workspace = named_workspace(
        store,
        request.context,
        request.expected_operation.record,
    ).unwrap();
    WorkspaceRevision { value: (workspace.workspace_revision.value + 1) as u64 }
}

/// What the publication will report.
pub open spec fn publish_result_of(
    store: MetaShard,
    request: FinalizePublishRequest,
) -> PublishResult {
    PublishResult {
        path_generation: Generation {
            value: claimed_generation(request.expected_operation.record.claim),
        },
        workspace_revision: next_workspace_revision(store, request),
        logical_size: request.artifact.logical_size,
        body_digest_uri: request.artifact.body_digest_uri,
    }
}

/// The generation of the index rows that a request writes.
pub open spec fn asked_generation(request: FinalizePublishRequest) -> PathIndexGenerationId {
    PathIndexGenerationId { bits: request.context.request_id.bits }
}

/// The digest of the path.
pub open spec fn asked_digest(request: FinalizePublishRequest) -> Seq<u8> {
    path_digest_of(request.expected_operation.record.path@)
}

/// The index rows that a request writes.
pub open spec fn asked_rows(request: FinalizePublishRequest) -> Seq<(Seq<u8>, Seq<u8>)> {
    index_rows_of(
        request.context.root_id,
        request.expected_operation.record.workspace_incarnation_id,
        asked_digest(request),
        asked_generation(request),
        asked_fields(request),
    )
}

/// The key of the locator that a request writes.
pub open spec fn asked_locator(request: FinalizePublishRequest) -> Seq<u8> {
    locator_key(
        request.context.root_id,
        request.expected_operation.record.workspace_incarnation_id,
        asked_digest(request),
        asked_generation(request),
    )
}

/// The stored form of the path's locator in a state.
pub open spec fn locator_payload_of(
    request: FinalizePublishRequest,
    state: PathIndexLocatorState,
) -> Seq<u8> {
    locator_bytes((state, request.expected_operation.record.path@))
}

/// The event of a publication that everyone sees.
pub open spec fn event_of(store: MetaShard, request: FinalizePublishRequest) -> ChangeEventView {
    let operation = request.expected_operation.record;
    ChangeEventView {
        workbench_id: operation.workbench_id@,
        workspace_incarnation_id: operation.workspace_incarnation_id,
        kind: ChangeEventKind::ArtifactPublished,
        artifact_revision_id: Some(operation.artifact_revision_id),
        commit_id: None,
        operation_id: Some(operation.operation_id),
        path: Some(operation.path@),
        before: current_fields(store, request),
        after: asked_fields(request),
    }
}

/// An event that cannot be stored, or is too large.
pub open spec fn event_fault(store: MetaShard, request: FinalizePublishRequest) -> Option<
    PublicationError,
> {
    let event = event_of(store, request);
    first_fault(
        query_fault(change_event_fault(event)),
        if change_event_bytes(event).len() > store.policy.max_event_bytes {
            Some(
                PublicationError::Meta(
                    MetaError::InvalidCommand { reason: "event projection exceeds size bound" },
                ),
            )
        } else {
            None
        },
    )
}

/// A locator or an event that cannot be stored.
#[verifier::opaque]
pub open spec fn projections_fault(store: MetaShard, request: FinalizePublishRequest) -> Option<
    PublicationError,
> {
    let operation = request.expected_operation.record;
    first_fault(
        query_fault(path_length_fault(operation.path@)),
        if operation.authority is Visible {
            event_fault(store, request)
        } else {
            None
        },
    )
}

/// What is staged before a publication.
pub open spec fn stage_of(store: MetaShard, request: FinalizePublishRequest) -> IndexStageView {
    let context = request.context;
    let operation = request.expected_operation.record;
    IndexStageView {
        operation_id: operation.operation_id,
        operation_row: publish_key(context, operation),
        operation_payload: payload_of(request.expected_operation),
        workspace_row: workspace_key_of(context, operation),
        workspace_payload: bytes_of(
            store,
            context.read_version,
            workspace_key_of(context, operation),
        ).unwrap(),
        path_row: path_key_of(context, operation),
        path_payload: bytes_of(store, context.read_version, path_key_of(context, operation)),
        locator_key: asked_locator(request),
        locator_payload: locator_payload_of(request, PathIndexLocatorState::Staged),
        rows: asked_rows(request),
    }
}

/// The fence of the publishing command: it reads where the stage has left the
/// shard, unless the stage ran earlier.
pub open spec fn execution_context(
    store: MetaShard,
    context: PublicationContext,
) -> PublicationContext {
    let receipt = stage_receipt(store);
    PublicationContext {
        read_version: if receipt.replayed {
            context.read_version
        } else {
            ReadVersion { value: receipt.commit_version.value }
        },
        ..context
    }
}

/// The version that the publishing command will commit as.
pub open spec fn publication_version(store: MetaShard, context: PublicationContext) -> CommitVersion {
    CommitVersion { value: (execution_context(store, context).read_version.value + 1) as u64 }
}

/// Why the publishing command cannot be written down after its stage.
#[verifier::opaque]
pub open spec fn settlement_halt(store: MetaShard, request: FinalizePublishRequest) -> Option<
    StopView,
> {
    let context = request.context;
    let operation = request.expected_operation.record;
    let owners = request.dependency_owner_revision_ids@;
    let shown = shown_revision(store, context, operation);
    first_fault(
        failing(
            first_fault(
                if execution_context(store, context).read_version.value == u64::MAX {
                    Some(PublicationError::CommitVersionOverflow)
                } else {
                    None
                },
                fault_upto(
                    references_fault(store, context, owners, shown),
                    touched(owners, shown).len(),
                ),
            ),
        ),
        first_fault(
            transition_halt(
                store,
                operation,
                PublishTransition::Publish { result: publish_result_of(store, request) },
            ),
            next_payload_halt(store, transitioned_of(store)),
        ),
    )
}

/// Why the publication cannot be planned.
pub open spec fn publication_halt(store: MetaShard, request: FinalizePublishRequest) -> Option<
    StopView,
> {
    let context = request.context;
    let operation = request.expected_operation.record;
    first_fault(
        target_halt(store, request),
        first_fault(
            owners_halt(store, context, operation, request.dependency_owner_revision_ids@),
            first_fault(
                failing(projections_fault(store, request)),
                first_fault(
                    stage_halt(store, context, stage_of(store, request)),
                    settlement_halt(store, request),
                ),
            ),
        ),
    )
}

/// The entry that the path will have.
pub open spec fn next_entry(request: FinalizePublishRequest) -> PathEntryView {
    let operation = request.expected_operation.record;
    let artifact = request.artifact;
    PathEntryView {
        generation: Generation { value: claimed_generation(operation.claim) },
        index_generation: asked_generation(request),
        path_digest: asked_digest(request),
        artifact_revision_id: operation.artifact_revision_id,
        body_digest_uri: artifact.body_digest_uri@,
        manifest_digest_uri: artifact.manifest_digest_uri@,
        logical_size: artifact.logical_size,
        dependency_count: operation.dependency_count as u32,
        dependency_depth: operation.dependency_depth,
        content_type: artifact.content_type@,
        producer: optional_text(artifact.producer),
        manifest_id: optional_text(artifact.manifest_id),
        typed_index_projection: artifact.typed_index_projection@,
    }
}

/// The record that the published revision will have.
pub open spec fn new_revision(request: FinalizePublishRequest) -> ArtifactRevisionView {
    let operation = request.expected_operation.record;
    let artifact = request.artifact;
    ArtifactRevisionView {
        logical_size: artifact.logical_size,
        body_digest_uri: artifact.body_digest_uri@,
        manifest_digest_uri: artifact.manifest_digest_uri@,
        block_count: operation.manifest_row_count as u64,
        dependency_count: operation.dependency_count as u32,
        dependency_depth: operation.dependency_depth,
        dependency_digest: operation.dependency_digest@,
        content_type: artifact.content_type@,
        state: RevisionState::Available,
        reference_epoch: ReferenceEpoch { value: 1 },
        strong_reference_count: 1,
        last_zero_ref_version: None,
    }
}

/// The first reference on a revision.
pub open spec fn first_reference() -> RevisionRefRecord {
    RevisionRefRecord { reference_epoch_at_add: ReferenceEpoch { value: 1 } }
}

/// Writes the operation, the workspace where everyone sees it, and the path.
#[verifier::opaque]
pub open spec fn place_draft(store: MetaShard, request: FinalizePublishRequest, draft: Draft) -> Draft {
    let context = request.context;
    let operation = request.expected_operation.record;
    let path_key = path_key_of(context, operation);
    let workspace_key = workspace_key_of(context, operation);
    let advanced = advancing(store, context, request.expected_operation, draft);
    let counted = if operation.authority is Visible {
        replacing(
            advanced,
            workspace_key,
            bytes_of(store, context.read_version, workspace_key).unwrap(),
            workspace_bytes(
                WorkspaceRecord {
                    workspace_revision: next_workspace_revision(store, request),
                    ..named_workspace(store, context, operation).unwrap()
                },
            ),
        )
    } else {
        advanced
    };
    let encoded = halted(counted, failing(record_fault(path_entry_fault(next_entry(request)))));
    match bytes_of(store, context.read_version, path_key) {
        None => put_absent(encoded, path_key, path_entry_bytes(next_entry(request))),
        Some(bytes) => replacing(encoded, path_key, bytes, path_entry_bytes(next_entry(request))),
    }
}

/// Pins the staged index rows.
pub open spec fn index_pin_step(rows: Seq<(Seq<u8>, Seq<u8>)>) -> spec_fn(int, Draft) -> Draft {
    |i: int, draft: Draft| asserting(draft, index_row_of(rows[i].0), Some(rows[i].1))
}

/// Flips the locator, and pins the staged index rows.
#[verifier::opaque]
pub open spec fn index_draft(request: FinalizePublishRequest, draft: Draft) -> Draft {
    stepped(
        index_pin_step(asked_rows(request)),
        asked_rows(request).len(),
        replacing(
            draft,
            locator_row_of(asked_locator(request)),
            locator_payload_of(request, PathIndexLocatorState::Staged),
            locator_payload_of(request, PathIndexLocatorState::Published),
        ),
    )
}

/// Writes the revision and the path's reference on it, gives up the claim, and
/// removes the reference on the revision shown before.
#[verifier::opaque]
pub open spec fn revision_draft(
    store: MetaShard,
    request: FinalizePublishRequest,
    draft: Draft,
) -> Draft {
    let context = request.context;
    let operation = request.expected_operation.record;
    let created = put_absent(
        halted(draft, failing(record_fault(artifact_revision_fault(new_revision(request))))),
        revision_key_of(context, operation.artifact_revision_id),
        artifact_revision_bytes(new_revision(request)),
    );
    let referred = put_absent(
        claim_release_draft(
            store,
            execution_context(store, context),
            operation.artifact_revision_id,
            operation.operation_id,
            created,
        ),
        path_ref_key_of(context, operation, operation.artifact_revision_id),
        revision_ref_bytes(first_reference()),
    );
    match shown_revision(store, context, operation) {
        None => referred,
        Some(shown) => deleting(
            referred,
            path_ref_key_of(context, operation, shown),
            bytes_of(
                store,
                context.read_version,
                path_ref_key_of(context, operation, shown),
            ).unwrap(),
        ),
    }
}

/// Emits the event of a publication that everyone sees.
pub open spec fn event_draft(store: MetaShard, request: FinalizePublishRequest, draft: Draft) -> Draft {
    if request.expected_operation.record.authority is Visible {
        emitting(draft, change_event_bytes(event_of(store, request)))
    } else {
        draft
    }
}

/// The draft that publishes a path, from what has been checked on.
pub open spec fn publication_draft(store: MetaShard, request: FinalizePublishRequest) -> Draft {
    let context = request.context;
    let operation = request.expected_operation.record;
    let opened = halted(live(empty_plan()), publication_halt(store, request));
    let written = touches_draft(
        store,
        context,
        operation,
        request.dependency_owner_revision_ids@,
        shown_revision(store, context, operation),
        publication_version(store, context),
        revision_draft(store, request, index_draft(request, place_draft(store, request, opened))),
    );
    sealed_draft(
        store,
        execution_context(store, context),
        transitioned_of(store),
        PublicationAuthorityPurpose::Forward,
        event_draft(store, request, written),
    )
}

/// A stopped draft stays as it is.
pub broadcast proof fn lemma_place_after_halt(
    store: MetaShard,
    request: FinalizePublishRequest,
    draft: Draft,
)
    requires
        draft.halt is Some,
    ensures
        #[trigger] place_draft(store, request, draft) == draft,
{
    reveal(place_draft);
}

/// A stopped draft stays as it is.
pub broadcast proof fn lemma_index_after_halt(request: FinalizePublishRequest, draft: Draft)
    requires
        draft.halt is Some,
    ensures
        #[trigger] index_draft(request, draft) == draft,
{
    reveal(index_draft);
    let step = index_pin_step(asked_rows(request));
    assert(keeps_halts(step));
    lemma_stepped_halt(step, 0, asked_rows(request).len(), draft);
}

/// A stopped draft stays as it is.
pub broadcast proof fn lemma_revision_after_halt(
    store: MetaShard,
    request: FinalizePublishRequest,
    draft: Draft,
)
    requires
        draft.halt is Some,
    ensures
        #[trigger] revision_draft(store, request, draft) == draft,
{
    broadcast use lemma_release_after_halt;

    reveal(revision_draft);
}

/// What a publication goes into, as it was read.
pub struct Target {
    pub payload: Vec<u8>,
    pub workspace: Loaded<WorkspaceRecord>,
    pub current: Option<Loaded<PathEntry>>,
    pub before: TypedProjection,
    pub generation: Generation,
}

impl Target {
    /// What was read is what the store holds.
    pub open spec fn held_by(self, store: MetaShard, request: FinalizePublishRequest) -> bool {
        let context = request.context;
        let operation = request.expected_operation.record;
        let version = context.read_version;
        &&& self.payload@ == payload_of(request.expected_operation)
        &&& named_workspace(store, context, operation) == Some(self.workspace.record)
        &&& bytes_of(store, version, workspace_key_of(context, operation)) == Some(
            self.workspace.payload@,
        )
        &&& self.workspace.record.workspace_revision.value < u64::MAX
        &&& match self.current {
            None => {
                &&& current_entry(store, request) is None
                &&& bytes_of(store, version, path_key_of(context, operation)) is None
            },
            Some(loaded) => {
                &&& current_entry(store, request) == Some(loaded.record@)
                &&& bytes_of(store, version, path_key_of(context, operation)) == Some(
                    loaded.payload@,
                )
            },
        }
        &&& self.before@ == current_fields(store, request)
        &&& self.generation.value == claimed_generation(operation.claim)
    }
}

fn closes_restore(
    policy: &PublicationPolicy,
    restore: &RestoreOperationRecord,
    kind: RestoreManifestKind,
    operation: &PublishOperationRecord,
    artifact: &PublishedArtifact,
    projection: &TypedProjection,
) -> (closes: bool)
    requires
        binding_of(*restore) is Some,
    ensures
        closes == restore_closes(*policy, *restore, kind, *operation, *artifact, projection@),
{
    let bound: bool = match restore_destination_binding(restore) {
        Ok(binding) => binding.manifests.is_some(),
        Err(_) => true,
    };
    restore.phase == RestorePhase::SourceSealed && !bound && operation.dependency_count == 0
        && operation.dependency_depth == 0 && artifact.logical_size != 0 && same_text(
        artifact.content_type.as_str(),
        policy.restore_manifest_content_type.as_str(),
    ) && artifact.producer.is_none() && artifact.manifest_id.is_none()
        && projection.fields().is_empty() && (kind != RestoreManifestKind::Restore || (
    artifact.logical_size == restore.restore_manifest.logical_size && same_text(
        artifact.body_digest_uri.as_str(),
        restore.restore_manifest.body_digest_uri.as_str(),
    ) && same_text(
        artifact.content_type.as_str(),
        restore.restore_manifest.content_type.as_str(),
    )))
}

fn copy_text(text: &Option<String>) -> (copy: Option<String>)
    ensures
        optional_text(copy) == optional_text(*text),
{
    match text {
        None => None,
        Some(text) => Some(text.clone()),
    }
}

fn next_path_entry(
    request: &FinalizePublishRequest,
    generation: Generation,
    path_digest: [u8; 32],
) -> (entry: PathEntry)
    requires
        generation.value == claimed_generation(request.expected_operation.record.claim),
        path_digest@ == asked_digest(*request),
    ensures
        entry@ == next_entry(*request),
{
    let operation: &PublishOperationRecord = &request.expected_operation.record;
    let artifact: &PublishedArtifact = &request.artifact;
    PathEntry {
        generation,
        index_generation: path_index_generation(request.context.request_id),
        path_digest,
        artifact_revision_id: operation.artifact_revision_id,
        body_digest_uri: artifact.body_digest_uri.clone(),
        manifest_digest_uri: artifact.manifest_digest_uri.clone(),
        logical_size: artifact.logical_size,
        dependency_count: operation.dependency_count as u32,
        dependency_depth: operation.dependency_depth,
        content_type: artifact.content_type.clone(),
        producer: copy_text(&artifact.producer),
        manifest_id: copy_text(&artifact.manifest_id),
        typed_index_projection: copy_bytes(artifact.typed_index_projection.as_slice()),
    }
}

fn new_revision_record(request: &FinalizePublishRequest) -> (record: ArtifactRevisionRecord)
    ensures
        record@ == new_revision(*request),
{
    let operation: &PublishOperationRecord = &request.expected_operation.record;
    let artifact: &PublishedArtifact = &request.artifact;
    ArtifactRevisionRecord {
        logical_size: artifact.logical_size,
        body_digest_uri: artifact.body_digest_uri.clone(),
        manifest_digest_uri: artifact.manifest_digest_uri.clone(),
        block_count: operation.manifest_row_count as u64,
        dependency_count: operation.dependency_count as u32,
        dependency_depth: operation.dependency_depth,
        dependency_digest: operation.dependency_digest,
        content_type: artifact.content_type.clone(),
        state: RevisionState::Available,
        reference_epoch: ReferenceEpoch { value: 1 },
        strong_reference_count: 1,
        last_zero_ref_version: None,
    }
}

fn encode_locator(request: &FinalizePublishRequest, state: PathIndexLocatorState) -> (result: Result<
    Vec<u8>,
    PublicationError,
>)
    ensures
        match result {
            Ok(bytes) => {
                &&& path_length_fault(request.expected_operation.record.path@) is None
                &&& bytes@ == locator_payload_of(*request, state)
            },
            Err(error) => query_fault(path_length_fault(request.expected_operation.record.path@))
                == Some(error),
        },
{
    let record: PathIndexLocatorRecord = PathIndexLocatorRecord {
        state,
        path: request.expected_operation.record.path.clone(),
    };
    match record.encode() {
        Ok(bytes) => Ok(bytes),
        Err(error) => Err(PublicationError::QueryRecord(error)),
    }
}

/// Whether the outcome of a publishing command is what was planned.
pub open spec fn finalize_outcome_of(
    outcome: PublishCommandOutcome,
    expected: PublishResult,
) -> Result<FinalizePublishOutcome, PublicationError> {
    match outcome.operation.result {
        None => Err(PublicationError::ReplayResultMismatch),
        Some(result) => if outcome.operation.phase != PublishPhase::Published
            || result.path_generation != expected.path_generation || result.workspace_revision
            != expected.workspace_revision || result.logical_size != expected.logical_size
            || result.body_digest_uri@ != expected.body_digest_uri@ {
            Err(PublicationError::ReplayResultMismatch)
        } else {
            Ok(
                FinalizePublishOutcome {
                    commit_version: outcome.commit_version,
                    operation: outcome.operation,
                    result,
                    replayed: outcome.replayed,
                },
            )
        },
    }
}

/// The outcome of a publishing command, if it is what was planned.
pub fn finalize_outcome(outcome: PublishCommandOutcome, expected: &PublishResult) -> (result: Result<
    FinalizePublishOutcome,
    PublicationError,
>)
    ensures
        result == finalize_outcome_of(outcome, *expected),
{
    let result: PublishResult = match &outcome.operation.result {
        None => {
            return Err(PublicationError::ReplayResultMismatch);
        },
        Some(result) => result.duplicate(),
    };
    if outcome.operation.phase != PublishPhase::Published || result.path_generation
        != expected.path_generation || result.workspace_revision != expected.workspace_revision
        || result.logical_size != expected.logical_size || !same_text(
        result.body_digest_uri.as_str(),
        expected.body_digest_uri.as_str(),
    ) {
        return Err(PublicationError::ReplayResultMismatch);
    }
    Ok(
        FinalizePublishOutcome {
            commit_version: outcome.commit_version,
            operation: outcome.operation,
            result,
            replayed: outcome.replayed,
        },
    )
}

impl<'a> PublicationService<'a> {
    /// Checks that the artifact is the one that the operation has sealed; its
    /// projection.
    pub(crate) fn check_closure(&self, request: &FinalizePublishRequest) -> (result: Result<
        TypedProjection,
        Stop,
    >)
        requires
            self.wf(),
            request.expected_operation.wf(),
        ensures
            match result {
                Ok(projection) => {
                    &&& closure_halt(*self.store, *request) is None
                    &&& projection@ == asked_fields(*request)
                    &&& projection.wf()
                    &&& parse_projection(request.artifact.typed_index_projection@) is Ok
                    &&& owners_sorted(request.dependency_owner_revision_ids@)
                },
                Err(stop) => closure_halt(*self.store, *request) == Some(stop@),
            },
    {
        proof {
            reveal(closure_halt);
        }
        let context: PublicationContext = request.context;
        let expected: &Coded<PublishOperationRecord> = &request.expected_operation;
        let operation: &PublishOperationRecord = &expected.record;
        lift(validate_operation_seals(expected))?;
        lift(require_operation_phase(operation, PublishPhase::Finalizing))?;
        self.require_current_operation(context, expected)?;
        lift(validate_dependency_seal(operation, &request.dependency_owner_revision_ids))?;
        if contains_revision(&request.dependency_owner_revision_ids, operation.artifact_revision_id) {
            return Err(Stop::Fail(PublicationError::RevisionIdentityCollision));
        }
        let manifest_uri: String = sha256_digest_uri(operation.manifest_seal);
        if !same_text(request.artifact.manifest_digest_uri.as_str(), manifest_uri.as_str()) {
            return Err(Stop::Fail(PublicationError::ManifestDigestMismatch));
        }
        let sealed_size: u64 = match self.load_preceding_row(context, operation)? {
            None => 0,
            Some(row) => row.logical_offset + row.length,
        };
        if request.artifact.logical_size != sealed_size {
            return Err(
                Stop::Fail(
                    PublicationError::ManifestLogicalOffsetMismatch {
                        expected: sealed_size,
                        actual: request.artifact.logical_size,
                    },
                ),
            );
        }
        let projection: TypedProjection = match TypedProjection::decode(
            request.artifact.typed_index_projection.as_slice(),
        ) {
            Ok(projection) => projection,
            Err(error) => {
                return Err(Stop::Fail(PublicationError::QueryRecord(error)));
            },
        };
        if let PublishAuthority::RestoreStaging { restore_operation_id } = operation.authority {
            let (loaded, kind) = self.load_restore_publication_authority(
                context,
                operation,
                restore_operation_id,
            )?;
            if !closes_restore(
                &self.store.policy,
                loaded.record,
                kind,
                operation,
                &request.artifact,
                &projection,
            ) {
                return Err(Stop::Fail(PublicationError::RestoreManifestClosureMismatch));
            }
        }
        Ok(projection)
    }

    /// What the publication goes into.
    fn load_target(&self, request: &FinalizePublishRequest) -> (result: Result<Target, Stop>)
        requires
            !(request.expected_operation.record.authority is CommitStaging),
        ensures
            match result {
                Ok(target) => {
                    &&& target_halt(*self.store, *request) is None
                    &&& target.held_by(*self.store, *request)
                },
                Err(stop) => target_halt(*self.store, *request) == Some(stop@),
            },
    {
        proof {
            reveal(target_halt);
            reveal(bytes_of);
        }
        let context: PublicationContext = request.context;
        let operation: &PublishOperationRecord = &request.expected_operation.record;
        let payload: &Vec<u8> = lift(get_payload(&request.expected_operation))?;
        let workspace: Loaded<WorkspaceRecord> = self.load_workspace(context, operation)?;
        match operation.authority {
            PublishAuthority::RestoreStaging { restore_operation_id } => {
                if workspace.record.state != WorkspaceState::Staging
                    || workspace.record.owning_operation_id != Some(restore_operation_id) {
                    return Err(Stop::Fail(PublicationError::RestoreAuthorityMismatch));
                }
            },
            _ => {
                if workspace.record.state != WorkspaceState::Visible
                    || workspace.record.owning_operation_id.is_some() {
                    return Err(Stop::Fail(PublicationError::WorkspaceUnavailable));
                }
            },
        }
        if workspace.record.workspace_revision.value == u64::MAX {
            return Err(Stop::Fail(PublicationError::WorkspaceRevisionOverflow));
        }
        let path_key: RowKey = path_row(context, operation);
        let current: Option<Loaded<PathEntry>> = self.read_path_entry(
            context.read_version,
            &path_key,
        )?;
        let before: TypedProjection = match &current {
            None => TypedProjection::empty(),
            Some(loaded) => match TypedProjection::decode_stored(
                loaded.record.typed_index_projection.as_slice(),
            ) {
                Ok(projection) => projection,
                Err(error) => {
                    return Err(Stop::Fail(PublicationError::QueryRecord(error)));
                },
            },
        };
        let entry: Option<&PathEntry> = match &current {
            None => None,
            Some(loaded) => Some(&loaded.record),
        };
        let generation: Generation = lift(validate_path_claim(&operation.claim, entry))?;
        let revision_key: RowKey = RowKey::ArtifactRevision {
            root_id: context.root_id,
            revision: operation.artifact_revision_id,
        };
        if self.read_payload(context.read_version, &revision_key)?.is_some() {
            return Err(Stop::Fail(PublicationError::RevisionAlreadyExists));
        }
        Ok(
            Target {
                payload: copy_bytes(payload.as_slice()),
                workspace,
                current,
                before,
                generation,
            },
        )
    }

    /// The event of a publication that everyone sees, if it is one.
    fn encode_event(
        &self,
        request: &FinalizePublishRequest,
        before: TypedProjection,
        after: TypedProjection,
    ) -> (result: Result<Option<Vec<u8>>, PublicationError>)
        requires
            before@ == current_fields(*self.store, *request),
            after@ == asked_fields(*request),
        ensures
            ({
                let fault = if request.expected_operation.record.authority is Visible {
                    event_fault(*self.store, *request)
                } else {
                    None
                };
                match result {
                    Ok(event) => {
                        &&& fault is None
                        &&& event is Some == request.expected_operation.record.authority is Visible
                        &&& event matches Some(bytes) ==> bytes@ == change_event_bytes(
                            event_of(*self.store, *request),
                        )
                    },
                    Err(error) => fault == Some(error),
                }
            }),
    {
        let operation: &PublishOperationRecord = &request.expected_operation.record;
        match operation.authority {
            PublishAuthority::Visible => {
                let event: ChangeEventRecord = ChangeEventRecord {
                    workbench_id: operation.workbench_id.clone(),
                    workspace_incarnation_id: operation.workspace_incarnation_id,
                    kind: ChangeEventKind::ArtifactPublished,
                    artifact_revision_id: Some(operation.artifact_revision_id),
                    commit_id: None,
                    operation_id: Some(operation.operation_id),
                    path: Some(operation.path.clone()),
                    before,
                    after,
                };
                assert(event@ =~= event_of(*self.store, *request));
                let bytes: Vec<u8> = match event.encode() {
                    Ok(bytes) => bytes,
                    Err(error) => {
                        return Err(PublicationError::QueryRecord(error));
                    },
                };
                if bytes.len() > self.store.policy.max_event_bytes {
                    return Err(
                        PublicationError::Meta(
                            MetaError::InvalidCommand {
                                reason: "event projection exceeds size bound",
                            },
                        ),
                    );
                }
                Ok(Some(bytes))
            },
            _ => Ok(None),
        }
    }

    /// Stages the index rows; the fence of the publishing command.
    fn stage_publication(
        &self,
        request: &FinalizePublishRequest,
        target: &Target,
        path_digest: [u8; 32],
        staged_locator: &Vec<u8>,
        rows: Vec<IndexRow>,
    ) -> (result: Result<PublicationContext, Stop>)
        requires
            self.wf(),
            target.held_by(*self.store, *request),
            path_digest@ == asked_digest(*request),
            staged_locator@ == locator_payload_of(*request, PathIndexLocatorState::Staged),
            views(rows@) == asked_rows(*request),
            rows@.len() <= u32::MAX,
        ensures
            match result {
                Ok(context) => {
                    &&& stage_halt(
                        *self.store,
                        request.context,
                        stage_of(*self.store, *request),
                    ) is None
                    &&& context == execution_context(*self.store, request.context)
                },
                Err(stop) => stage_halt(
                    *self.store,
                    request.context,
                    stage_of(*self.store, *request),
                ) == Some(stop@),
            },
    {
        let context: PublicationContext = request.context;
        let operation: &PublishOperationRecord = &request.expected_operation.record;
        let path_payload: Option<Vec<u8>> = match &target.current {
            None => None,
            Some(loaded) => Some(copy_bytes(loaded.payload.as_slice())),
        };
        let stage: IndexStage = IndexStage {
            operation_id: operation.operation_id,
            operation_row: publish_row(context, operation),
            operation_payload: copy_bytes(target.payload.as_slice()),
            workspace_row: workspace_row(context, operation),
            workspace_payload: copy_bytes(target.workspace.payload.as_slice()),
            path_row: path_row(context, operation),
            path_payload,
            locator_key: path_index_locator_key(
                context.root_id,
                operation.workspace_incarnation_id,
                path_digest,
                path_index_generation(context.request_id),
            ),
            locator_payload: copy_bytes(staged_locator.as_slice()),
            rows,
        };
        assert(stage@ =~= stage_of(*self.store, *request));
        let receipt = self.stage_secondary_index(context, &stage)?;
        Ok(
            PublicationContext {
                read_version: if receipt.replayed {
                    context.read_version
                } else {
                    ReadVersion { value: receipt.commit_version.value }
                },
                ..context
            },
        )
    }

    /// Writes the operation, the workspace and the path.
    fn write_place(
        &self,
        request: &FinalizePublishRequest,
        target: &Target,
        path_digest: [u8; 32],
        next_payload: &Vec<u8>,
        plan: &mut CommandPlan,
    ) -> (result: Result<(), Stop>)
        requires
            target.held_by(*self.store, *request),
            path_digest@ == asked_digest(*request),
            next_payload@ == next_payload_of(*self.store),
            old(plan).wf(),
        ensures
            final(plan).wf(),
            ({
                let draft = place_draft(*self.store, *request, live(old(plan)@));
                match result {
                    Ok(_) => draft == live(final(plan)@),
                    Err(stop) => draft.halt == Some(stop@),
                }
            }),
    {
        proof {
            reveal(place_draft);
        }
        let context: PublicationContext = request.context;
        let operation: &PublishOperationRecord = &request.expected_operation.record;
        plan.replace(
            publish_row(context, operation),
            copy_bytes(target.payload.as_slice()),
            copy_bytes(next_payload.as_slice()),
        )?;
        if let PublishAuthority::Visible = operation.authority {
            let next: WorkspaceRecord = WorkspaceRecord {
                workspace_revision: WorkspaceRevision {
                    value: target.workspace.record.workspace_revision.value + 1,
                },
                ..target.workspace.record
            };
            let payload: Vec<u8> = encoded(next.encode())?;
            plan.replace(
                workspace_row(context, operation),
                copy_bytes(target.workspace.payload.as_slice()),
                payload,
            )?;
        }
        let entry: PathEntry = next_path_entry(request, target.generation, path_digest);
        let payload: Vec<u8> = encoded(entry.encode())?;
        match &target.current {
            None => plan.put_absent(path_row(context, operation), payload),
            Some(loaded) => plan.replace(
                path_row(context, operation),
                copy_bytes(loaded.payload.as_slice()),
                payload,
            ),
        }
    }

    /// Flips the locator, and pins the staged index rows.
    fn write_index(
        &self,
        request: &FinalizePublishRequest,
        path_digest: [u8; 32],
        staged_locator: Vec<u8>,
        published_locator: Vec<u8>,
        rows: &Vec<IndexRow>,
        plan: &mut CommandPlan,
    ) -> (result: Result<(), Stop>)
        requires
            path_digest@ == asked_digest(*request),
            staged_locator@ == locator_payload_of(*request, PathIndexLocatorState::Staged),
            published_locator@ == locator_payload_of(*request, PathIndexLocatorState::Published),
            views(rows@) == asked_rows(*request),
            old(plan).wf(),
        ensures
            final(plan).wf(),
            ({
                let draft = index_draft(*request, live(old(plan)@));
                match result {
                    Ok(_) => draft == live(final(plan)@),
                    Err(stop) => draft.halt == Some(stop@),
                }
            }),
    {
        let ghost pairs = asked_rows(*request);
        let ghost step = index_pin_step(pairs);
        let ghost draft = index_draft(*request, live(plan@));
        proof {
            reveal(index_draft);
            assert(keeps_halts(step));
            assert forall|d: Draft| d.halt is Some implies #[trigger] stepped(step, pairs.len(), d)
                == d by {
                lemma_stepped_halt(step, 0, pairs.len(), d);
            }
        }
        let key: Vec<u8> = path_index_locator_key(
            request.context.root_id,
            request.expected_operation.record.workspace_incarnation_id,
            path_digest,
            path_index_generation(request.context.request_id),
        );
        plan.replace(
            RowKey::Raw { family: MetadataFamily::PathIndexLocator, key },
            staged_locator,
            published_locator,
        )?;
        let ghost flipped = live(plan@);
        let mut i: usize = 0;
        while i < rows.len()
            invariant
                i <= rows@.len(),
                pairs == views(rows@),
                pairs.len() == rows@.len(),
                plan.wf(),
                step == index_pin_step(pairs),
                keeps_halts(step),
                stepped(step, i as nat, flipped) == live(plan@),
                draft == stepped(step, pairs.len(), flipped),
                draft == index_draft(*request, live(old(plan)@)),
            decreases rows@.len() - i,
        {
            proof {
                assert(pairs[i as int] == rows@[i as int]@);
                assert(stepped(step, (i + 1) as nat, flipped) == step(i as int, live(plan@)));
                if stepped(step, (i + 1) as nat, flipped).halt is Some {
                    lemma_stepped_halt(step, (i + 1) as nat, pairs.len(), flipped);
                }
            }
            plan.assert_value(
                RowKey::Raw {
                    family: MetadataFamily::SecondaryIndex,
                    key: copy_bytes(rows[i].key.as_slice()),
                },
                Some(copy_bytes(rows[i].value.as_slice())),
            )?;
            i = i + 1;
        }
        Ok(())
    }

    /// Writes the revision and the path's references, and gives up the claim.
    fn write_revision(
        &self,
        request: &FinalizePublishRequest,
        execution: PublicationContext,
        shown: Option<ArtifactRevisionId>,
        reference: Option<Vec<u8>>,
        plan: &mut CommandPlan,
    ) -> (result: Result<(), Stop>)
        requires
            execution == execution_context(*self.store, request.context),
            shown == shown_revision(
                *self.store,
                request.context,
                request.expected_operation.record,
            ),
            reference is Some == shown is Some,
            shown matches Some(shown) ==> bytes_of(
                *self.store,
                request.context.read_version,
                path_ref_key_of(request.context, request.expected_operation.record, shown),
            ) == Some(reference.unwrap()@),
            old(plan).wf(),
        ensures
            final(plan).wf(),
            ({
                let draft = revision_draft(*self.store, *request, live(old(plan)@));
                match result {
                    Ok(_) => draft == live(final(plan)@),
                    Err(stop) => draft.halt == Some(stop@),
                }
            }),
    {
        broadcast use lemma_release_after_halt;

        proof {
            reveal(revision_draft);
        }
        let context: PublicationContext = request.context;
        let operation: &PublishOperationRecord = &request.expected_operation.record;
        let record: ArtifactRevisionRecord = new_revision_record(request);
        let payload: Vec<u8> = encoded(record.encode())?;
        plan.put_absent(
            RowKey::ArtifactRevision {
                root_id: context.root_id,
                revision: operation.artifact_revision_id,
            },
            payload,
        )?;
        self.release_revision_claim(
            execution,
            operation.artifact_revision_id,
            operation.operation_id,
            plan,
        )?;
        let first: Vec<u8> = encoded(
            (RevisionRefRecord { reference_epoch_at_add: ReferenceEpoch { value: 1 } }).encode(),
        )?;
        plan.put_absent(path_ref_row(context, operation, operation.artifact_revision_id), first)?;
        if let Some(shown) = shown {
            if let Some(bytes) = reference {
                plan.delete(path_ref_row(context, operation, shown), bytes)?;
            }
        }
        Ok(())
    }

    /// The version of the publishing command, the touched revisions after it,
    /// and the operation after it.
    fn settle(
        &self,
        request: &FinalizePublishRequest,
        execution: PublicationContext,
        shown: Option<ArtifactRevisionId>,
        list: &Vec<TouchedRevision>,
        result: &PublishResult,
    ) -> (settled: Result<
        (CommitVersion, Vec<ArtifactRevisionRecord>, &'a PublishOperationRecord, Vec<u8>),
        Stop,
    >)
        requires
            execution == execution_context(*self.store, request.context),
            shown == shown_revision(
                *self.store,
                request.context,
                request.expected_operation.record,
            ),
            crate::publication_owners::holds_touched(
                *self.store,
                request.context,
                touched(request.dependency_owner_revision_ids@, shown),
                list@,
            ),
            *result == publish_result_of(*self.store, *request),
        ensures
            match settled {
                Ok((version, records, next, payload)) => {
                    let ids = touched(request.dependency_owner_revision_ids@, shown);
                    &&& settlement_halt(*self.store, *request) is None
                    &&& version == publication_version(*self.store, request.context)
                    &&& records@.len() == ids.len()
                    &&& forall|i: int|
                        0 <= i < ids.len() ==> (#[trigger] records@[i])@
                            == crate::publication_owners::touched_record(
                            crate::publication_owners::revision_at(
                                *self.store,
                                request.context,
                                ids[i],
                            ),
                            request.dependency_owner_revision_ids@.contains(ids[i]),
                            shown == Some(ids[i]),
                            version,
                        )
                    &&& *next == transitioned_of(*self.store)
                    &&& payload@ == next_payload_of(*self.store)
                },
                Err(stop) => settlement_halt(*self.store, *request) == Some(stop@),
            },
    {
        proof {
            reveal(settlement_halt);
        }
        if execution.read_version.value == u64::MAX {
            return Err(Stop::Fail(PublicationError::CommitVersionOverflow));
        }
        let version: CommitVersion = CommitVersion { value: execution.read_version.value + 1 };
        let records: Vec<ArtifactRevisionRecord> = lift(
            self.touch_records(
                request.context,
                &request.dependency_owner_revision_ids,
                shown,
                list,
                version,
            ),
        )?;
        let transition: PublishTransition = PublishTransition::Publish {
            result: result.duplicate(),
        };
        let next: &PublishOperationRecord = self.apply_transition(
            &request.expected_operation.record,
            &transition,
        )?;
        let payload: Vec<u8> = self.encode_next(next)?;
        Ok((version, records, next, payload))
    }

    /// Publishes a path: the workspace's own, or one that a restore builds.
    pub(crate) fn publish_path(&self, request: &FinalizePublishRequest, projection: TypedProjection) -> (result:
        Result<PlannedPublication, Stop>)
        requires
            self.wf(),
            request.expected_operation.wf(),
            !(request.expected_operation.record.authority is CommitStaging),
            owners_sorted(request.dependency_owner_revision_ids@),
            projection@ == asked_fields(*request),
            parse_projection(request.artifact.typed_index_projection@) is Ok,
        ensures
            ({
                let draft = publication_draft(*self.store, *request);
                match result {
                    Ok(planned) => {
                        &&& draft.halt is None
                        &&& planned.result == publish_result_of(*self.store, *request)
                        &&& planned.command@ == crate::publication_lifecycle::command_of(
                            execution_context(*self.store, request.context),
                            draft,
                            next_payload_of(*self.store),
                            None,
                        )
                        &&& planned.command.plan.wf()
                    },
                    Err(stop) => draft.halt == Some(stop@),
                }
            }),
    {
        broadcast use {
            lemma_authority_after_halt,
            lemma_place_after_halt,
            lemma_index_after_halt,
            lemma_revision_after_halt,
            lemma_touches_after_halt,
        };

        let context: PublicationContext = request.context;
        let operation: &PublishOperationRecord = &request.expected_operation.record;
        let owners: &Vec<ArtifactRevisionId> = &request.dependency_owner_revision_ids;
        let target: Target = self.load_target(request)?;
        let shown: Option<ArtifactRevisionId> = match &target.current {
            None => None,
            Some(loaded) => Some(loaded.record.artifact_revision_id),
        };
        assert(shown == shown_revision(*self.store, context, *operation));
        proof {
            lemma_projection_fits(request.artifact.typed_index_projection@);
        }
        let path_digest: [u8; 32] = path_index_digest(&operation.path);
        let rows: Vec<IndexRow> = secondary_index_rows(
            context.root_id,
            operation.workspace_incarnation_id,
            path_digest,
            path_index_generation(context.request_id),
            &projection,
        );
        let (list, reference) = self.load_touched(context, operation, owners, shown)?;
        proof {
            reveal(projections_fault);
        }
        let staged_locator: Vec<u8> = lift(encode_locator(request, PathIndexLocatorState::Staged))?;
        let published_locator: Vec<u8> = lift(
            encode_locator(request, PathIndexLocatorState::Published),
        )?;
        let result: PublishResult = PublishResult {
            path_generation: target.generation,
            workspace_revision: WorkspaceRevision {
                value: target.workspace.record.workspace_revision.value + 1,
            },
            logical_size: request.artifact.logical_size,
            body_digest_uri: request.artifact.body_digest_uri.clone(),
        };
        assert(result == publish_result_of(*self.store, *request));
        let event: Option<Vec<u8>> = lift(
            self.encode_event(request, target.before.duplicate(), projection),
        )?;
        let staged_rows: Vec<IndexRow> = copy_rows(&rows);
        let execution: PublicationContext = self.stage_publication(
            request,
            &target,
            path_digest,
            &staged_locator,
            staged_rows,
        )?;
        let (version, records, next, next_payload) = self.settle(
            request,
            execution,
            shown,
            &list,
            &result,
        )?;
        let mut plan: CommandPlan = CommandPlan::new();
        self.write_place(request, &target, path_digest, &next_payload, &mut plan)?;
        self.write_index(
            request,
            path_digest,
            staged_locator,
            published_locator,
            &rows,
            &mut plan,
        )?;
        self.write_revision(request, execution, shown, reference, &mut plan)?;
        self.write_touched_revisions(
            context,
            operation,
            owners,
            shown,
            version,
            &list,
            &records,
            &mut plan,
        )?;
        if let Some(bytes) = event {
            plan.emit(bytes);
        }
        let command: PlannedCommand = self.seal_plan(
            execution,
            plan,
            next,
            next_payload,
            PublicationAuthorityPurpose::Forward,
            None,
        )?;
        Ok(PlannedPublication { command, result })
    }
}

fn copy_rows(rows: &Vec<IndexRow>) -> (copy: Vec<IndexRow>)
    ensures
        views(copy@) == views(rows@),
        copy@.len() == rows@.len(),
{
    let mut copy: Vec<IndexRow> = Vec::new();
    let mut i: usize = 0;
    while i < rows.len()
        invariant
            i <= rows@.len(),
            copy@.len() == i,
            forall|k: int| 0 <= k < i ==> (#[trigger] copy@[k])@ == rows@[k]@,
        decreases rows@.len() - i,
    {
        copy.push(
            IndexRow {
                key: copy_bytes(rows[i].key.as_slice()),
                value: copy_bytes(rows[i].value.as_slice()),
            },
        );
        i = i + 1;
    }
    assert(views(copy@) =~= views(rows@));
    copy
}

} // verus!
