//! Finalization of a run manifest: its revision comes into being under the
//! commit build that owns it, and its path stays as it is.

use crate::be::copy_bytes;
use crate::ids::{ArtifactRevisionId, Generation, OperationId, ReferenceEpoch, RevisionState,
    WorkspaceRevision, WorkspaceState};
use crate::publication_authority::{claim_release_draft, commit_authority_halt, is_open_workspace,
    lemma_authority_after_halt, lemma_release_after_halt, named_commit, named_workspace,
    operation_key_of, owner_bytes, path_key_of, path_row, revision_key_of, sealed_draft,
    workspace_key_of, workspace_row};
use crate::publication_batches::{staged_key_of, staged_row};
use crate::publication_digests::{dependency_digest_of, dependency_owner_digest, get_payload,
    payload_fault};
use crate::publication_error::PublicationError;
use crate::publication_finalize::{asked_fields, closure_halt, current_entry, execution_context,
    first_reference, publication_draft, publish_result_of, FinalizePublishRequest,
    PlannedPublication, PublishedArtifact};
use crate::publication_lifecycle::{advancing, command_of, publish_row, transition_halt,
    transitioned_of};
use crate::publication_manifest::{manifest_key_of, manifest_row_key};
use crate::publication_owners::{encoded, record_fault};
use crate::publication_plan::{asserting, empty_plan, failing, halted, lift, live, put_absent,
    replacing, CommandPlan, Draft, OperationKind, PlannedCommand, PublicationContext, RowKey,
    RowKeyView, Stop, StopView};
use crate::publication_records::{artifact_revision_bytes, artifact_revision_fault, first_fault,
    optional_bytes, revision_ref_bytes, ArtifactRevisionRecord, ArtifactRevisionView, PathEntry,
    RevisionRefRecord, WorkspaceRecord};
use crate::publication_rules::{claimed_generation, path_claim_fault, validate_path_claim,
    PublicationAuthorityPurpose};
use crate::publication_store::{bytes_of, manifest_row_halt, manifest_row_of, next_payload_halt,
    next_payload_of, path_entry_halt, staged_object_halt, staged_object_of, workspace_halt, Loaded,
    MetaShard, PublicationPolicy, PublicationService};
use crate::publish_records::{ArtifactManifestRow, BuildCommitOperationRecord, PublishAuthority,
    PublishOperationRecord, PublishResult, PublishTransition, StagedCleanupState,
    StagedObjectRecord, StagedProviderState};
use crate::query_records::{FieldView, TypedProjection};
use crate::text::same_text;
use vstd::prelude::*;

verus! {

/// Whether a request publishes a run manifest: one plain object without
/// dependencies, and nothing to index.
pub open spec fn is_run_manifest(
    policy: PublicationPolicy,
    operation: PublishOperationRecord,
    artifact: PublishedArtifact,
    owners: Seq<ArtifactRevisionId>,
    fields: Seq<FieldView>,
) -> bool {
    &&& operation.path@ == policy.run_manifest_path@
    &&& operation.staged_object_count == 1
    &&& operation.manifest_row_count == 1
    &&& operation.dependency_count == 0
    &&& operation.dependency_depth == 0
    &&& owners.len() == 0
    &&& artifact.content_type@ == "application/json"@
    &&& artifact.producer is None
    &&& artifact.manifest_id is None
    &&& fields.len() == 0
}

/// Whether the manifest's one row and the one staged object are the artifact.
pub open spec fn object_is(
    operation: PublishOperationRecord,
    artifact: PublishedArtifact,
    row: ArtifactManifestRow,
    staged: StagedObjectRecord,
) -> bool {
    &&& row.physical_owner_revision_id == operation.artifact_revision_id
    &&& row.physical_object_index == 0
    &&& row.logical_offset == 0
    &&& row.offset == 0
    &&& row.length == artifact.logical_size
    &&& row.digest_uri@ == artifact.body_digest_uri@
    &&& row.append_segment is None
    &&& staged.object_sequence == 0
    &&& staged.artifact_revision_id == operation.artifact_revision_id
    &&& staged.object_key.text@ == row.object_key.text@
    &&& staged.expected_length == artifact.logical_size
    &&& staged.expected_digest_uri@ == artifact.body_digest_uri@
    &&& staged.provider_state == StagedProviderState::Uploaded
    &&& staged.cleanup_state == StagedCleanupState::Owned
}

/// The one row of the manifest.
pub open spec fn only_row(store: MetaShard, request: FinalizePublishRequest) -> Option<
    ArtifactManifestRow,
> {
    manifest_row_of(
        store,
        request.context.read_version,
        manifest_key_of(request.context, request.expected_operation.record, 0),
    )
}

/// The one staged object.
pub open spec fn only_object(store: MetaShard, request: FinalizePublishRequest) -> Option<
    StagedObjectRecord,
> {
    staged_object_of(
        store,
        request.context.read_version,
        staged_key_of(request.context, request.expected_operation.record, 0),
    )
}

/// Why a request does not publish a run manifest.
#[verifier::opaque]
pub open spec fn run_manifest_halt(store: MetaShard, request: FinalizePublishRequest) -> Option<
    StopView,
> {
    let context = request.context;
    let operation = request.expected_operation.record;
    let version = context.read_version;
    let mismatch = Some(PublicationError::CommitManifestClosureMismatch);
    first_fault(
        failing(
            if !is_run_manifest(
                store.policy,
                operation,
                request.artifact,
                request.dependency_owner_revision_ids@,
                asked_fields(request),
            ) {
                mismatch
            } else {
                None
            },
        ),
        first_fault(
            manifest_row_halt(store, version, manifest_key_of(context, operation, 0)),
            first_fault(
                failing(
                    if only_row(store, request) is None {
                        mismatch
                    } else {
                        None
                    },
                ),
                first_fault(
                    staged_object_halt(store, version, staged_key_of(context, operation, 0)),
                    failing(
                        if only_object(store, request) is None || !object_is(
                            operation,
                            request.artifact,
                            only_row(store, request).unwrap(),
                            only_object(store, request).unwrap(),
                        ) {
                            mismatch
                        } else {
                            None
                        },
                    ),
                ),
            ),
        ),
    )
}

/// The workspace is missing, or not the visible one of the operation.
pub open spec fn commit_workspace_fault(
    workspace: Option<WorkspaceRecord>,
    operation: PublishOperationRecord,
) -> Option<PublicationError> {
    match workspace {
        None => Some(PublicationError::WorkspaceNotFound),
        Some(workspace) => if workspace.incarnation_id != operation.workspace_incarnation_id
            || !is_open_workspace(workspace) {
            Some(PublicationError::CommitAuthorityMismatch)
        } else {
            None
        },
    }
}

/// References or revisions that cannot be counted.
pub open spec fn commit_count_fault(
    commit: BuildCommitOperationRecord,
    workspace: WorkspaceRecord,
    operation: PublishOperationRecord,
) -> Option<PublicationError> {
    if commit.revision_ref_count == u64::MAX {
        Some(
            PublicationError::ReferenceCountOverflow { revision: operation.artifact_revision_id },
        )
    } else if workspace.workspace_revision.value == u64::MAX {
        Some(PublicationError::WorkspaceRevisionOverflow)
    } else {
        None
    }
}

/// Why the workspace, the path or the commit build does not take the manifest.
#[verifier::opaque]
pub open spec fn commit_target_halt(
    store: MetaShard,
    request: FinalizePublishRequest,
    commit_operation_id: OperationId,
) -> Option<StopView> {
    let context = request.context;
    let operation = request.expected_operation.record;
    let version = context.read_version;
    let workspace = named_workspace(store, context, operation);
    first_fault(
        workspace_halt(store, version, workspace_key_of(context, operation)),
        first_fault(
            failing(commit_workspace_fault(workspace, operation)),
            first_fault(
                path_entry_halt(store, version, path_key_of(context, operation)),
                first_fault(
                    failing(path_claim_fault(operation.claim, current_entry(store, request))),
                    first_fault(
                        commit_authority_halt(store, context, operation, commit_operation_id),
                        failing(
                            commit_count_fault(
                                named_commit(store, context, commit_operation_id).unwrap(),
                                workspace.unwrap(),
                                operation,
                            ),
                        ),
                    ),
                ),
            ),
        ),
    )
}

/// Why the publish operation cannot be taken to its published form.
pub open spec fn commit_settlement_halt(
    store: MetaShard,
    request: FinalizePublishRequest,
) -> Option<StopView> {
    first_fault(
        transition_halt(
            store,
            request.expected_operation.record,
            PublishTransition::Publish { result: publish_result_of(store, request) },
        ),
        first_fault(
            next_payload_halt(store, transitioned_of(store)),
            failing(payload_fault(request.expected_operation)),
        ),
    )
}

/// Why the stored form of the commit build is not known.
pub open spec fn commit_payload_halt(
    store: MetaShard,
    request: FinalizePublishRequest,
    commit_operation_id: OperationId,
) -> Option<StopView> {
    match store.commit_payload {
        None => Some(
            StopView::EncodeCommit {
                logical_size: request.artifact.logical_size,
                body_digest_uri: request.artifact.body_digest_uri@,
                manifest_digest_uri: request.artifact.manifest_digest_uri@,
                content_type: request.artifact.content_type@,
                revision_ref_count: (named_commit(
                    store,
                    request.context,
                    commit_operation_id,
                ).unwrap().revision_ref_count + 1) as u64,
            },
        ),
        Some(Err(error)) => Some(StopView::Fail(PublicationError::CommitOperationCodec(error))),
        Some(Ok(_)) => None,
    }
}

/// The record that the run manifest's revision will have.
pub open spec fn run_manifest_revision(request: FinalizePublishRequest) -> ArtifactRevisionView {
    let artifact = request.artifact;
    ArtifactRevisionView {
        logical_size: artifact.logical_size,
        body_digest_uri: artifact.body_digest_uri@,
        manifest_digest_uri: artifact.manifest_digest_uri@,
        block_count: 1,
        dependency_count: 0,
        dependency_depth: 0,
        dependency_digest: dependency_digest_of(Seq::empty()),
        content_type: artifact.content_type@,
        state: RevisionState::Available,
        reference_epoch: ReferenceEpoch { value: 1 },
        strong_reference_count: 1,
        last_zero_ref_version: None,
    }
}

/// The draft before a run manifest is published into its commit build.
pub open spec fn commit_stage_ready(
    store: MetaShard,
    request: FinalizePublishRequest,
    commit_operation_id: OperationId,
) -> Draft {
    halted(
        live(empty_plan()),
        first_fault(
            run_manifest_halt(store, request),
            first_fault(
                commit_target_halt(store, request, commit_operation_id),
                commit_settlement_halt(store, request),
            ),
        ),
    )
}

/// The draft with a run manifest's revision and references, before its
/// authority has pinned anything.
pub open spec fn commit_stage_referred(
    store: MetaShard,
    request: FinalizePublishRequest,
    commit_operation_id: OperationId,
) -> Draft {
    let context = request.context;
    let expected = request.expected_operation;
    let operation = expected.record;
    let bound = replacing(
        halted(
            advancing(store, context, expected, commit_stage_ready(store, request, commit_operation_id)),
            commit_payload_halt(store, request, commit_operation_id),
        ),
        operation_key_of(context, OperationKind::BuildCommit, commit_operation_id),
        owner_bytes(store, context, OperationKind::BuildCommit, commit_operation_id).unwrap(),
        store.commit_payload.unwrap().unwrap()@,
    );
    let created = put_absent(
        halted(
            asserting(
                bound,
                path_key_of(context, operation),
                bytes_of(store, context.read_version, path_key_of(context, operation)),
            ),
            failing(record_fault(artifact_revision_fault(run_manifest_revision(request)))),
        ),
        revision_key_of(context, operation.artifact_revision_id),
        artifact_revision_bytes(run_manifest_revision(request)),
    );
    put_absent(
        claim_release_draft(
            store,
            context,
            operation.artifact_revision_id,
            operation.operation_id,
            created,
        ),
        RowKeyView::CommitRef {
            root_id: context.root_id,
            commit_id: named_commit(store, context, commit_operation_id).unwrap().commit_id.bytes@,
            revision: operation.artifact_revision_id,
        },
        revision_ref_bytes(first_reference()),
    )
}

/// The draft that publishes a run manifest into its commit build.
pub open spec fn commit_stage_draft(
    store: MetaShard,
    request: FinalizePublishRequest,
    commit_operation_id: OperationId,
) -> Draft {
    sealed_draft(
        store,
        request.context,
        transitioned_of(store),
        PublicationAuthorityPurpose::Forward,
        commit_stage_referred(store, request, commit_operation_id),
    )
}

/// The draft of a finalization, after its artifact is known to be the sealed
/// one: into the commit build that owns the operation, or onto the path.
pub open spec fn finalize_draft(store: MetaShard, request: FinalizePublishRequest) -> Draft {
    match request.expected_operation.record.authority {
        PublishAuthority::CommitStaging { commit_operation_id } => commit_stage_draft(
            store,
            request,
            commit_operation_id,
        ),
        _ => publication_draft(store, request),
    }
}

/// Why a finalization cannot be planned.
pub open spec fn finalize_halt(store: MetaShard, request: FinalizePublishRequest) -> Option<
    StopView,
> {
    first_fault(closure_halt(store, request), finalize_draft(store, request).halt)
}

/// The fence of the publishing command.
pub open spec fn finalize_context(
    store: MetaShard,
    request: FinalizePublishRequest,
) -> PublicationContext {
    match request.expected_operation.record.authority {
        PublishAuthority::CommitStaging { .. } => request.context,
        _ => execution_context(store, request.context),
    }
}

fn publishes_run_manifest(
    policy: &PublicationPolicy,
    request: &FinalizePublishRequest,
    projection: &TypedProjection,
) -> (publishes: bool)
    ensures
        publishes == is_run_manifest(
            *policy,
            request.expected_operation.record,
            request.artifact,
            request.dependency_owner_revision_ids@,
            projection@,
        ),
{
    let operation: &PublishOperationRecord = &request.expected_operation.record;
    let artifact: &PublishedArtifact = &request.artifact;
    same_text(operation.path.as_str(), policy.run_manifest_path.as_str())
        && operation.staged_object_count == 1 && operation.manifest_row_count == 1
        && operation.dependency_count == 0 && operation.dependency_depth == 0
        && request.dependency_owner_revision_ids.len() == 0 && same_text(
        artifact.content_type.as_str(),
        "application/json",
    ) && artifact.producer.is_none() && artifact.manifest_id.is_none()
        && projection.fields().is_empty()
}

fn is_object(
    operation: &PublishOperationRecord,
    artifact: &PublishedArtifact,
    row: &ArtifactManifestRow,
    staged: &StagedObjectRecord,
) -> (same: bool)
    ensures
        same == object_is(*operation, *artifact, *row, *staged),
{
    row.physical_owner_revision_id == operation.artifact_revision_id && row.physical_object_index
        == 0 && row.logical_offset == 0 && row.offset == 0 && row.length == artifact.logical_size
        && same_text(row.digest_uri.as_str(), artifact.body_digest_uri.as_str())
        && row.append_segment.is_none() && staged.object_sequence == 0
        && staged.artifact_revision_id == operation.artifact_revision_id && same_text(
        staged.object_key.text.as_str(),
        row.object_key.text.as_str(),
    ) && staged.expected_length == artifact.logical_size && same_text(
        staged.expected_digest_uri.as_str(),
        artifact.body_digest_uri.as_str(),
    ) && staged.provider_state == StagedProviderState::Uploaded && staged.cleanup_state
        == StagedCleanupState::Owned
}

/// The record of a run manifest's revision: one block, no dependencies, and
/// the digest of no dependencies.
fn run_manifest_record(artifact: &PublishedArtifact) -> (result: Result<
    ArtifactRevisionRecord,
    PublicationError,
>)
    ensures
        result matches Ok(record) && record@ == (ArtifactRevisionView {
            logical_size: artifact.logical_size,
            body_digest_uri: artifact.body_digest_uri@,
            manifest_digest_uri: artifact.manifest_digest_uri@,
            block_count: 1,
            dependency_count: 0,
            dependency_depth: 0,
            dependency_digest: dependency_digest_of(Seq::empty()),
            content_type: artifact.content_type@,
            state: RevisionState::Available,
            reference_epoch: ReferenceEpoch { value: 1 },
            strong_reference_count: 1,
            last_zero_ref_version: None,
        }),
{
    let owners: Vec<ArtifactRevisionId> = Vec::new();
    assert(owners@ =~= Seq::empty());
    let dependency_digest: [u8; 32] = dependency_owner_digest(&owners)?;
    Ok(
        ArtifactRevisionRecord {
            logical_size: artifact.logical_size,
            body_digest_uri: artifact.body_digest_uri.clone(),
            manifest_digest_uri: artifact.manifest_digest_uri.clone(),
            block_count: 1,
            dependency_count: 0,
            dependency_depth: 0,
            dependency_digest,
            content_type: artifact.content_type.clone(),
            state: RevisionState::Available,
            reference_epoch: ReferenceEpoch { value: 1 },
            strong_reference_count: 1,
            last_zero_ref_version: None,
        },
    )
}

/// What a run manifest goes into, as it was read.
struct CommitTarget<'a> {
    generation: Generation,
    workspace_revision: WorkspaceRevision,
    path_payload: Option<Vec<u8>>,
    commit: &'a BuildCommitOperationRecord,
    commit_payload: &'a Vec<u8>,
}

impl<'a> PublicationService<'a> {
    /// Checks that a request publishes a run manifest.
    fn check_run_manifest(
        &self,
        request: &FinalizePublishRequest,
        projection: &TypedProjection,
    ) -> (result: Result<(), Stop>)
        requires
            self.wf(),
            projection@ == asked_fields(*request),
        ensures
            match result {
                Ok(_) => run_manifest_halt(*self.store, *request) is None,
                Err(stop) => run_manifest_halt(*self.store, *request) == Some(stop@),
            },
    {
        proof {
            reveal(run_manifest_halt);
        }
        let context: PublicationContext = request.context;
        let operation: &PublishOperationRecord = &request.expected_operation.record;
        if !publishes_run_manifest(&self.store.policy, request, projection) {
            return Err(Stop::Fail(PublicationError::CommitManifestClosureMismatch));
        }
        let row: &ArtifactManifestRow = match self.read_manifest_row(
            context.read_version,
            &manifest_row_key(context, operation, 0),
        )? {
            None => {
                return Err(Stop::Fail(PublicationError::CommitManifestClosureMismatch));
            },
            Some(loaded) => loaded.record,
        };
        let staged: &StagedObjectRecord = match self.read_staged_object(
            context.read_version,
            &staged_row(context, operation, 0),
        )? {
            None => {
                return Err(Stop::Fail(PublicationError::CommitManifestClosureMismatch));
            },
            Some(loaded) => loaded.record,
        };
        if !is_object(operation, &request.artifact, row, staged) {
            return Err(Stop::Fail(PublicationError::CommitManifestClosureMismatch));
        }
        Ok(())
    }

    /// What a run manifest goes into.
    fn load_commit_target(
        &self,
        request: &FinalizePublishRequest,
        commit_operation_id: OperationId,
    ) -> (result: Result<CommitTarget<'a>, Stop>)
        ensures
            match result {
                Ok(target) => {
                    let context = request.context;
                    let operation = request.expected_operation.record;
                    &&& commit_target_halt(*self.store, *request, commit_operation_id) is None
                    &&& target.generation.value == claimed_generation(operation.claim)
                    &&& target.workspace_revision
                        == crate::publication_finalize::next_workspace_revision(
                        *self.store,
                        *request,
                    )
                    &&& optional_bytes(target.path_payload) == bytes_of(
                        *self.store,
                        context.read_version,
                        path_key_of(context, operation),
                    )
                    &&& named_commit(*self.store, context, commit_operation_id) == Some(
                        *target.commit,
                    )
                    &&& target.commit.revision_ref_count < u64::MAX
                    &&& owner_bytes(
                        *self.store,
                        context,
                        OperationKind::BuildCommit,
                        commit_operation_id,
                    ) == Some(target.commit_payload@)
                },
                Err(stop) => commit_target_halt(*self.store, *request, commit_operation_id)
                    == Some(stop@),
            },
    {
        proof {
            reveal(commit_target_halt);
        }
        let context: PublicationContext = request.context;
        let operation: &PublishOperationRecord = &request.expected_operation.record;
        let workspace_key: RowKey = workspace_row(context, operation);
        let workspace: WorkspaceRecord = match self.read_workspace(
            context.read_version,
            &workspace_key,
        )? {
            None => {
                return Err(Stop::Fail(PublicationError::WorkspaceNotFound));
            },
            Some(loaded) => loaded.record,
        };
        if workspace.incarnation_id != operation.workspace_incarnation_id || workspace.state
            != WorkspaceState::Visible || workspace.owning_operation_id.is_some() {
            return Err(Stop::Fail(PublicationError::CommitAuthorityMismatch));
        }
        let path_key: RowKey = path_row(context, operation);
        let current: Option<Loaded<PathEntry>> = self.read_path_entry(
            context.read_version,
            &path_key,
        )?;
        let entry: Option<&PathEntry> = match &current {
            None => None,
            Some(loaded) => Some(&loaded.record),
        };
        let generation: Generation = lift(validate_path_claim(&operation.claim, entry))?;
        let loaded = self.load_awaiting_commit(context, operation, commit_operation_id)?;
        if loaded.record.revision_ref_count == u64::MAX {
            return Err(
                Stop::Fail(
                    PublicationError::ReferenceCountOverflow {
                        revision: operation.artifact_revision_id,
                    },
                ),
            );
        }
        if workspace.workspace_revision.value == u64::MAX {
            return Err(Stop::Fail(PublicationError::WorkspaceRevisionOverflow));
        }
        let path_payload: Option<Vec<u8>> = match current {
            None => None,
            Some(current) => Some(current.payload),
        };
        Ok(
            CommitTarget {
                generation,
                workspace_revision: WorkspaceRevision {
                    value: workspace.workspace_revision.value + 1,
                },
                path_payload,
                commit: loaded.record,
                commit_payload: loaded.payload,
            },
        )
    }

    /// The stored form of the commit build with its run manifest bound.
    fn encode_commit(
        &self,
        request: &FinalizePublishRequest,
        commit_operation_id: OperationId,
        commit: &BuildCommitOperationRecord,
    ) -> (result: Result<&'a Vec<u8>, Stop>)
        requires
            named_commit(*self.store, request.context, commit_operation_id) == Some(*commit),
            commit.revision_ref_count < u64::MAX,
        ensures
            match result {
                Ok(payload) => {
                    &&& commit_payload_halt(*self.store, *request, commit_operation_id) is None
                    &&& payload@ == self.store.commit_payload.unwrap().unwrap()@
                },
                Err(stop) => commit_payload_halt(*self.store, *request, commit_operation_id)
                    == Some(stop@),
            },
    {
        match &self.store.commit_payload {
            None => Err(
                Stop::EncodeCommit {
                    logical_size: request.artifact.logical_size,
                    body_digest_uri: request.artifact.body_digest_uri.clone(),
                    manifest_digest_uri: request.artifact.manifest_digest_uri.clone(),
                    content_type: request.artifact.content_type.clone(),
                    revision_ref_count: commit.revision_ref_count + 1,
                },
            ),
            Some(Err(error)) => Err(Stop::Fail(PublicationError::CommitOperationCodec(*error))),
            Some(Ok(payload)) => Ok(payload),
        }
    }

    /// Publishes a run manifest into the commit build that owns it.
    ///
    /// The revision and the build's reference on it come into being with the
    /// end of the operation and the build's binding of its manifest. The build
    /// installs the path later.
    fn finalize_commit_staging_publish(
        &self,
        request: &FinalizePublishRequest,
        projection: &TypedProjection,
        commit_operation_id: OperationId,
    ) -> (result: Result<PlannedPublication, Stop>)
        requires
            self.wf(),
            projection@ == asked_fields(*request),
        ensures
            ({
                let draft = commit_stage_draft(*self.store, *request, commit_operation_id);
                match result {
                    Ok(planned) => {
                        &&& draft.halt is None
                        &&& planned.result == publish_result_of(*self.store, *request)
                        &&& planned.command@ == command_of(
                            request.context,
                            draft,
                            next_payload_of(*self.store),
                            None,
                        )
                        &&& planned.command.plan.wf()
                    },
                    Err(stop) => draft.halt == Some(stop@),
                }
            }),
    {
        broadcast use {lemma_authority_after_halt, lemma_release_after_halt};

        let context: PublicationContext = request.context;
        let operation: &PublishOperationRecord = &request.expected_operation.record;
        self.check_run_manifest(request, projection)?;
        let target: CommitTarget = self.load_commit_target(request, commit_operation_id)?;
        let result: PublishResult = PublishResult {
            path_generation: target.generation,
            workspace_revision: target.workspace_revision,
            logical_size: request.artifact.logical_size,
            body_digest_uri: request.artifact.body_digest_uri.clone(),
        };
        assert(result == publish_result_of(*self.store, *request));
        let transition: PublishTransition = PublishTransition::Publish {
            result: result.duplicate(),
        };
        let next: &PublishOperationRecord = self.apply_transition(operation, &transition)?;
        let next_payload: Vec<u8> = self.encode_next(next)?;
        let payload: &Vec<u8> = lift(get_payload(&request.expected_operation))?;
        let mut plan: CommandPlan = CommandPlan::new();
        plan.replace(
            publish_row(context, operation),
            copy_bytes(payload.as_slice()),
            copy_bytes(next_payload.as_slice()),
        )?;
        let commit_payload: &Vec<u8> = self.encode_commit(
            request,
            commit_operation_id,
            target.commit,
        )?;
        plan.replace(
            RowKey::Operation {
                root_id: context.root_id,
                kind: OperationKind::BuildCommit,
                operation_id: commit_operation_id,
            },
            copy_bytes(target.commit_payload.as_slice()),
            copy_bytes(commit_payload.as_slice()),
        )?;
        plan.assert_value(path_row(context, operation), target.path_payload)?;
        let record: ArtifactRevisionRecord = lift(run_manifest_record(&request.artifact))?;
        assert(record@ == run_manifest_revision(*request));
        let record_payload: Vec<u8> = encoded(record.encode())?;
        plan.put_absent(
            RowKey::ArtifactRevision {
                root_id: context.root_id,
                revision: operation.artifact_revision_id,
            },
            record_payload,
        )?;
        self.release_revision_claim(
            context,
            operation.artifact_revision_id,
            operation.operation_id,
            &mut plan,
        )?;
        let first: Vec<u8> = encoded(
            (RevisionRefRecord { reference_epoch_at_add: ReferenceEpoch { value: 1 } }).encode(),
        )?;
        plan.put_absent(
            RowKey::CommitRef {
                root_id: context.root_id,
                commit_id: target.commit.commit_id,
                revision: operation.artifact_revision_id,
            },
            first,
        )?;
        let command: PlannedCommand = self.seal_plan(
            context,
            plan,
            next,
            next_payload,
            PublicationAuthorityPurpose::Forward,
            None,
        )?;
        Ok(PlannedPublication { command, result })
    }

    /// Publishes a fully uploaded revision: in one command, the last one of
    /// its operation.
    pub fn finalize_publish(&self, request: &FinalizePublishRequest) -> (result: Result<
        PlannedPublication,
        Stop,
    >)
        requires
            self.wf(),
            request.expected_operation.wf(),
        ensures
            match result {
                Ok(planned) => {
                    &&& finalize_halt(*self.store, *request) is None
                    &&& planned.result == publish_result_of(*self.store, *request)
                    &&& planned.command@ == command_of(
                        finalize_context(*self.store, *request),
                        finalize_draft(*self.store, *request),
                        next_payload_of(*self.store),
                        None,
                    )
                    &&& planned.command.plan.wf()
                },
                Err(stop) => finalize_halt(*self.store, *request) == Some(stop@),
            },
    {
        let projection: TypedProjection = self.check_closure(request)?;
        match request.expected_operation.record.authority {
            PublishAuthority::CommitStaging { commit_operation_id } =>
                self.finalize_commit_staging_publish(request, &projection, commit_operation_id),
            _ => self.publish_path(request, projection),
        }
    }
}

} // verus!
