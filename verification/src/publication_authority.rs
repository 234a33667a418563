//! What lets a publication go on: the workspace it publishes into, the commit
//! build or restore that owns it, and the claim on its revision.

use crate::be::copy_bytes;
use crate::ids::{ArtifactRevisionId, OperationId};
use crate::publication_digests::{dependency_digest_of, dependency_owner_digest};
use crate::publication_error::{PublicationError, QuarantineReconcileResolution};
use crate::publication_plan::{asserting, bounds_fault, deleting, failing, halted, key_taken, lift,
    live, CommandPlan, Draft, OperationKind, PlannedCommand, PlannedCommandView, PublicationContext,
    RowKey, RowKeyView, Stop, StopView};
use crate::publication_records::{first_fault, optional_bytes, WorkspaceRecord};
use crate::ids::WorkspaceState;
use crate::publication_rules::{binding_of, commit_manifest_claim_matches,
    expected_restore_manifest_identity, manifest_claim_matches, manifest_identity,
    restore_destination_binding, PublicationAuthorityPurpose, RestoreManifestKind};
use crate::publication_store::{build_commit_halt, build_commit_of, bytes_of, claim_halt, claim_of,
    read_halt, restore_halt, restore_of, workspace_halt, workspace_of, Loaded, LoadedRow, MetaShard,
    PublicationPolicy, PublicationService, StoredRow};
use crate::publish_records::{BuildCommitOperationRecord, BuildCommitPhase, PublishAuthority,
    PublishClaim, PublishOperationRecord, PublishPhase, RestoreOperationRecord, RestorePhase};
use crate::text::{same_text, NormalizedRelativePath};
use vstd::prelude::*;

verus! {

/// Pins a row unless the plan pins it already.
pub open spec fn pinning(draft: Draft, key: RowKeyView, expected: Option<Seq<u8>>) -> Draft {
    if draft.halt is Some || key_taken(draft.plan, key) {
        draft
    } else {
        asserting(draft, key, expected)
    }
}

impl CommandPlan {
    /// Pins a row unless it is pinned already.
    pub fn pin_once(&mut self, key: RowKey, expected: Option<Vec<u8>>) -> (result: Result<(), Stop>)
        requires
            old(self).wf(),
        ensures
            final(self).wf(),
            match result {
                Ok(_) => pinning(live(old(self)@), key@, optional_bytes(expected)) == live(
                    final(self)@,
                ),
                Err(stop) => pinning(live(old(self)@), key@, optional_bytes(expected)).halt == Some(
                    stop@,
                ),
            },
    {
        if !self.pins_key(&key) {
            self.assert_value(key, expected)?;
        }
        Ok(())
    }
}

/// The workspace row that an operation publishes into.
pub open spec fn workspace_key_of(
    context: PublicationContext,
    operation: PublishOperationRecord,
) -> RowKeyView {
    RowKeyView::WorkspaceCurrent { root_id: context.root_id, workbench_id: operation.workbench_id@ }
}

/// The path row that an operation publishes.
pub open spec fn path_key_of(
    context: PublicationContext,
    operation: PublishOperationRecord,
) -> RowKeyView {
    RowKeyView::PathCurrent {
        root_id: context.root_id,
        incarnation: operation.workspace_incarnation_id,
        path: operation.path@,
    }
}

/// The row of an artifact revision.
pub open spec fn revision_key_of(
    context: PublicationContext,
    revision: ArtifactRevisionId,
) -> RowKeyView {
    RowKeyView::ArtifactRevision { root_id: context.root_id, revision }
}

/// The row that claims a revision for an operation in flight.
pub open spec fn claim_key_of(
    context: PublicationContext,
    revision: ArtifactRevisionId,
) -> RowKeyView {
    RowKeyView::ArtifactRevisionClaim { root_id: context.root_id, revision }
}

/// The row of a durable operation.
pub open spec fn operation_key_of(
    context: PublicationContext,
    kind: OperationKind,
    operation_id: OperationId,
) -> RowKeyView {
    RowKeyView::Operation { root_id: context.root_id, kind, operation_id }
}

pub fn workspace_row(context: PublicationContext, operation: &PublishOperationRecord) -> (key:
    RowKey)
    ensures
        key@ == workspace_key_of(context, *operation),
{
    RowKey::WorkspaceCurrent {
        root_id: context.root_id,
        workbench_id: operation.workbench_id.clone(),
    }
}

pub fn path_row(context: PublicationContext, operation: &PublishOperationRecord) -> (key: RowKey)
    ensures
        key@ == path_key_of(context, *operation),
{
    RowKey::PathCurrent {
        root_id: context.root_id,
        incarnation: operation.workspace_incarnation_id,
        path: operation.path.clone(),
    }
}

/// Which of a restore's manifests stands at a path, if one does.
pub open spec fn manifest_kind_of(policy: PublicationPolicy, path: Seq<char>) -> Option<
    RestoreManifestKind,
> {
    if path == policy.run_manifest_path@ {
        Some(RestoreManifestKind::Run)
    } else if path == policy.restore_manifest_path@ {
        Some(RestoreManifestKind::Restore)
    } else {
        None
    }
}

/// Which of a restore's manifests stands at `path`.
pub fn restore_manifest_kind(policy: &PublicationPolicy, path: &NormalizedRelativePath) -> (result:
    Result<RestoreManifestKind, PublicationError>)
    ensures
        match result {
            Ok(kind) => manifest_kind_of(*policy, path@) == Some(kind),
            Err(error) => manifest_kind_of(*policy, path@) is None && error
                == PublicationError::RestoreManifestPathRequired,
        },
{
    if same_text(path.as_str(), policy.run_manifest_path.as_str()) {
        Ok(RestoreManifestKind::Run)
    } else if same_text(path.as_str(), policy.restore_manifest_path.as_str()) {
        Ok(RestoreManifestKind::Restore)
    } else {
        Err(PublicationError::RestoreManifestPathRequired)
    }
}

/// Whether an operation has the shape that a restore's manifests have.
pub open spec fn restore_shape(operation: PublishOperationRecord) -> bool {
    &&& operation.claim == PublishClaim::CreateOnly
    &&& operation.dependency_count == 0
    &&& operation.dependency_depth == 0
    &&& operation.dependency_digest@ == dependency_digest_of(Seq::empty())
}

/// Whether a restore has reserved this operation for one of its manifests.
pub open spec fn restore_owns(
    restore: RestoreOperationRecord,
    operation: PublishOperationRecord,
    restore_operation_id: OperationId,
    kind: RestoreManifestKind,
) -> bool {
    &&& restore.operation_id == restore_operation_id
    &&& restore.destination_workbench_id@ == operation.workbench_id@
    &&& restore.destination_workspace_incarnation_id == operation.workspace_incarnation_id
    &&& binding_of(restore) is Some
    &&& manifest_identity(binding_of(restore).unwrap(), kind).publication_operation_id
        == operation.operation_id
    &&& manifest_identity(binding_of(restore).unwrap(), kind).artifact_revision_id
        == operation.artifact_revision_id
}

/// The restore that an operation names.
pub open spec fn named_restore(
    store: MetaShard,
    context: PublicationContext,
    restore_operation_id: OperationId,
) -> Option<RestoreOperationRecord> {
    restore_of(
        store,
        context.read_version,
        operation_key_of(context, OperationKind::Restore, restore_operation_id),
    )
}

/// Why a restore does not let an operation publish one of its manifests.
#[verifier::opaque]
pub open spec fn restore_authority_halt(
    store: MetaShard,
    context: PublicationContext,
    operation: PublishOperationRecord,
    restore_operation_id: OperationId,
) -> Option<StopView> {
    let key = operation_key_of(context, OperationKind::Restore, restore_operation_id);
    first_fault(
        failing(
            if manifest_kind_of(store.policy, operation.path@) is None {
                Some(PublicationError::RestoreManifestPathRequired)
            } else if !restore_shape(operation) {
                Some(PublicationError::RestoreAuthorityMismatch)
            } else {
                None
            },
        ),
        first_fault(
            restore_halt(store, context.read_version, key),
            failing(
                match named_restore(store, context, restore_operation_id) {
                    None => Some(PublicationError::RestoreOperationMissing),
                    Some(restore) => if !restore_owns(
                        restore,
                        operation,
                        restore_operation_id,
                        manifest_kind_of(store.policy, operation.path@).unwrap(),
                    ) {
                        Some(PublicationError::RestoreAuthorityMismatch)
                    } else {
                        None
                    },
                },
            ),
        ),
    )
}

/// Whether a workspace is in the state that a restore's phase calls for.
pub open spec fn restore_workspace_agrees(
    workspace: WorkspaceRecord,
    restore: RestoreOperationRecord,
) -> bool {
    match restore.phase {
        RestorePhase::SourceSealed | RestorePhase::DestinationBuilding
        | RestorePhase::DestinationSealing | RestorePhase::Ready => workspace.state
            == WorkspaceState::Staging && workspace.owning_operation_id == Some(
            restore.operation_id,
        ),
        RestorePhase::Complete => workspace.state == WorkspaceState::Visible
            && workspace.owning_operation_id is None,
        _ => false,
    }
}

/// Checks that a workspace is in the state that a restore's phase calls for.
pub fn validate_restore_workspace_state(
    workspace: &WorkspaceRecord,
    restore: &RestoreOperationRecord,
) -> (result: Result<(), PublicationError>)
    ensures
        match result {
            Ok(_) => restore_workspace_agrees(*workspace, *restore),
            Err(error) => !restore_workspace_agrees(*workspace, *restore) && error
                == PublicationError::RestoreAuthorityMismatch,
        },
{
    let authorized: bool = match restore.phase {
        RestorePhase::SourceSealed
        | RestorePhase::DestinationBuilding
        | RestorePhase::DestinationSealing
        | RestorePhase::Ready => workspace.state == WorkspaceState::Staging
            && workspace.owning_operation_id == Some(restore.operation_id),
        RestorePhase::Complete => workspace.state == WorkspaceState::Visible
            && workspace.owning_operation_id.is_none(),
        _ => false,
    };
    if authorized {
        Ok(())
    } else {
        Err(PublicationError::RestoreAuthorityMismatch)
    }
}

/// The workspace row is missing, or of another incarnation.
pub open spec fn workspace_fault(
    workspace: Option<WorkspaceRecord>,
    operation: PublishOperationRecord,
) -> Option<PublicationError> {
    match workspace {
        None => Some(PublicationError::WorkspaceNotFound),
        Some(workspace) => if workspace.incarnation_id != operation.workspace_incarnation_id {
            Some(PublicationError::WorkspaceIncarnationMismatch)
        } else {
            None
        },
    }
}

/// The workspace that an operation publishes into.
pub open spec fn named_workspace(
    store: MetaShard,
    context: PublicationContext,
    operation: PublishOperationRecord,
) -> Option<WorkspaceRecord> {
    workspace_of(store, context.read_version, workspace_key_of(context, operation))
}

/// Why the workspace of an operation cannot be looked at, or is another one.
pub open spec fn workspace_authority_halt(
    store: MetaShard,
    context: PublicationContext,
    operation: PublishOperationRecord,
) -> Option<StopView> {
    first_fault(
        workspace_halt(store, context.read_version, workspace_key_of(context, operation)),
        failing(workspace_fault(named_workspace(store, context, operation), operation)),
    )
}

/// A workspace that anyone may publish into.
pub open spec fn is_open_workspace(workspace: WorkspaceRecord) -> bool {
    workspace.state == WorkspaceState::Visible && workspace.owning_operation_id is None
}

/// A workspace that a restore is building.
pub open spec fn is_staged_by(workspace: WorkspaceRecord, restore_operation_id: OperationId) -> bool {
    workspace.state == WorkspaceState::Staging && workspace.owning_operation_id == Some(
        restore_operation_id,
    )
}

/// Whether a commit build waits for exactly this run manifest.
pub open spec fn commit_awaits(
    commit: BuildCommitOperationRecord,
    operation: PublishOperationRecord,
    commit_operation_id: OperationId,
) -> bool {
    &&& commit.phase == BuildCommitPhase::Building
    &&& commit.operation_id == commit_operation_id
    &&& commit.workbench_id@ == operation.workbench_id@
    &&& commit.source_workspace_incarnation_id == operation.workspace_incarnation_id
    &&& commit.tree_manifest_revision_id == operation.artifact_revision_id
    &&& commit.commit_staged_run_manifest is None
    &&& manifest_claim_matches(commit.run_manifest_condition, operation.claim)
    &&& commit.member_count == 0
    &&& !commit.has_member_cursor
}

pub fn commit_awaits_manifest(
    commit: &BuildCommitOperationRecord,
    operation: &PublishOperationRecord,
    commit_operation_id: OperationId,
) -> (awaits: bool)
    ensures
        awaits == commit_awaits(*commit, *operation, commit_operation_id),
{
    commit.phase == BuildCommitPhase::Building && commit.operation_id == commit_operation_id
        && same_text(commit.workbench_id.as_str(), operation.workbench_id.as_str())
        && commit.source_workspace_incarnation_id == operation.workspace_incarnation_id
        && commit.tree_manifest_revision_id == operation.artifact_revision_id
        && commit.commit_staged_run_manifest.is_none() && commit_manifest_claim_matches(
        commit.run_manifest_condition,
        &operation.claim,
    ) && commit.member_count == 0 && !commit.has_member_cursor
}

/// The commit build that an operation names.
pub open spec fn named_commit(
    store: MetaShard,
    context: PublicationContext,
    commit_operation_id: OperationId,
) -> Option<BuildCommitOperationRecord> {
    build_commit_of(
        store,
        context.read_version,
        operation_key_of(context, OperationKind::BuildCommit, commit_operation_id),
    )
}

/// Why a commit build does not let an operation publish its run manifest.
pub open spec fn commit_authority_halt(
    store: MetaShard,
    context: PublicationContext,
    operation: PublishOperationRecord,
    commit_operation_id: OperationId,
) -> Option<StopView> {
    first_fault(
        build_commit_halt(
            store,
            context.read_version,
            operation_key_of(context, OperationKind::BuildCommit, commit_operation_id),
        ),
        failing(
            match named_commit(store, context, commit_operation_id) {
                None => Some(PublicationError::CommitOperationMissing),
                Some(commit) => if !commit_awaits(commit, operation, commit_operation_id) {
                    Some(PublicationError::CommitAuthorityMismatch)
                } else {
                    None
                },
            },
        ),
    )
}

/// Whether an operation has the shape that a run manifest has.
pub open spec fn commit_shape(policy: PublicationPolicy, operation: PublishOperationRecord) -> bool {
    &&& operation.path@ == policy.run_manifest_path@
    &&& !(operation.claim is Append)
    &&& operation.dependency_count == 0
    &&& operation.dependency_depth == 0
}

/// Whether a restore is where the purpose of a command needs it to be.
pub open spec fn restore_serves(
    restore: RestoreOperationRecord,
    operation: PublishOperationRecord,
    purpose: PublicationAuthorityPurpose,
) -> bool {
    &&& binding_of(restore).unwrap().manifests is None
    &&& match purpose {
        PublicationAuthorityPurpose::Forward => restore.phase == RestorePhase::SourceSealed,
        PublicationAuthorityPurpose::Cleanup => {
            &&& restore.phase == RestorePhase::Aborting || restore.phase == RestorePhase::Cleaning
            &&& operation.phase == PublishPhase::Aborting || operation.phase
                == PublishPhase::Cleaning || operation.phase == PublishPhase::Cleaned
                || operation.phase == PublishPhase::Quarantined
        },
    }
}

/// The bytes of the restore or commit build that an operation names.
pub open spec fn owner_bytes(
    store: MetaShard,
    context: PublicationContext,
    kind: OperationKind,
    operation_id: OperationId,
) -> Option<Seq<u8>> {
    bytes_of(store, context.read_version, operation_key_of(context, kind, operation_id))
}

/// The draft after what the operation's authority demands: pins on the
/// workspace, and on the commit build or restore that owns the operation.
#[verifier::opaque]
pub open spec fn authority_draft(
    store: MetaShard,
    context: PublicationContext,
    operation: PublishOperationRecord,
    purpose: PublicationAuthorityPurpose,
    draft: Draft,
) -> Draft {
    let workspace = named_workspace(store, context, operation).unwrap();
    let opened = halted(draft, workspace_authority_halt(store, context, operation));
    let owned = match operation.authority {
        PublishAuthority::Visible => halted(
            opened,
            failing(
                if manifest_kind_of(store.policy, operation.path@) is Some {
                    Some(PublicationError::ReservedManifestAuthorityRequired)
                } else if !is_open_workspace(workspace) {
                    Some(PublicationError::WorkspaceUnavailable)
                } else {
                    None
                },
            ),
        ),
        PublishAuthority::CommitStaging { commit_operation_id } => pinning(
            halted(
                opened,
                first_fault(
                    failing(
                        if !commit_shape(store.policy, operation) {
                            Some(PublicationError::CommitAuthorityMismatch)
                        } else if !is_open_workspace(workspace) {
                            Some(PublicationError::WorkspaceUnavailable)
                        } else {
                            None
                        },
                    ),
                    commit_authority_halt(store, context, operation, commit_operation_id),
                ),
            ),
            operation_key_of(context, OperationKind::BuildCommit, commit_operation_id),
            owner_bytes(store, context, OperationKind::BuildCommit, commit_operation_id),
        ),
        PublishAuthority::RestoreStaging { restore_operation_id } => {
            let served = halted(
                opened,
                first_fault(
                    failing(
                        if !is_staged_by(workspace, restore_operation_id) {
                            Some(PublicationError::RestoreAuthorityMismatch)
                        } else {
                            None
                        },
                    ),
                    first_fault(
                        restore_authority_halt(store, context, operation, restore_operation_id),
                        failing(
                            if !restore_serves(
                                named_restore(store, context, restore_operation_id).unwrap(),
                                operation,
                                purpose,
                            ) {
                                Some(PublicationError::RestoreAuthorityMismatch)
                            } else {
                                None
                            },
                        ),
                    ),
                ),
            );
            pinning(
                match purpose {
                    PublicationAuthorityPurpose::Forward => served,
                    PublicationAuthorityPurpose::Cleanup => asserting(
                        asserting(served, path_key_of(context, operation), None),
                        revision_key_of(context, operation.artifact_revision_id),
                        None,
                    ),
                },
                operation_key_of(context, OperationKind::Restore, restore_operation_id),
                owner_bytes(store, context, OperationKind::Restore, restore_operation_id),
            )
        },
    };
    pinning(
        owned,
        workspace_key_of(context, operation),
        bytes_of(store, context.read_version, workspace_key_of(context, operation)),
    )
}

/// A stopped draft stays as it is.
pub broadcast proof fn lemma_authority_after_halt(
    store: MetaShard,
    context: PublicationContext,
    operation: PublishOperationRecord,
    purpose: PublicationAuthorityPurpose,
    draft: Draft,
)
    requires
        draft.halt is Some,
    ensures
        #[trigger] authority_draft(store, context, operation, purpose, draft) == draft,
{
    reveal(authority_draft);
}

/// The draft after the operation gives up its claim on a revision. A claim
/// that another operation holds stays.
#[verifier::opaque]
pub open spec fn claim_release_draft(
    store: MetaShard,
    context: PublicationContext,
    revision: ArtifactRevisionId,
    operation_id: OperationId,
    draft: Draft,
) -> Draft {
    let key = claim_key_of(context, revision);
    let opened = halted(draft, claim_halt(store, context.read_version, key));
    match claim_of(store, context.read_version, key) {
        Some(claim) => if claim.operation_id == operation_id {
            deleting(opened, key, bytes_of(store, context.read_version, key).unwrap())
        } else {
            opened
        },
        None => opened,
    }
}

/// A stopped draft stays as it is.
pub broadcast proof fn lemma_release_after_halt(
    store: MetaShard,
    context: PublicationContext,
    revision: ArtifactRevisionId,
    operation_id: OperationId,
    draft: Draft,
)
    requires
        draft.halt is Some,
    ensures
        #[trigger] claim_release_draft(store, context, revision, operation_id, draft) == draft,
{
    reveal(claim_release_draft);
}

/// The draft after the revision row is pinned to an operator's verdict.
#[verifier::opaque]
pub open spec fn verdict_draft(
    store: MetaShard,
    context: PublicationContext,
    operation: PublishOperationRecord,
    resolution: QuarantineReconcileResolution,
    draft: Draft,
) -> Draft {
    let key = revision_key_of(context, operation.artifact_revision_id);
    let bytes = bytes_of(store, context.read_version, key);
    let agrees = match resolution {
        QuarantineReconcileResolution::RevisionUnpublished => bytes is None,
        QuarantineReconcileResolution::RevisionPublished => bytes is Some,
    };
    asserting(
        halted(
            draft,
            first_fault(
                read_halt(store, context.read_version, key),
                failing(
                    if !agrees {
                        Some(
                            PublicationError::ReconcileResolutionMismatch {
                                resolution,
                                revision_published: bytes is Some,
                            },
                        )
                    } else {
                        None
                    },
                ),
            ),
        ),
        key,
        bytes,
    )
}

/// A stopped draft stays as it is.
pub broadcast proof fn lemma_verdict_after_halt(
    store: MetaShard,
    context: PublicationContext,
    operation: PublishOperationRecord,
    resolution: QuarantineReconcileResolution,
    draft: Draft,
)
    requires
        draft.halt is Some,
    ensures
        #[trigger] verdict_draft(store, context, operation, resolution, draft) == draft,
{
    reveal(verdict_draft);
}

/// The draft of a command that its authority lets through, within bounds.
pub open spec fn sealed_draft(
    store: MetaShard,
    context: PublicationContext,
    operation: PublishOperationRecord,
    purpose: PublicationAuthorityPurpose,
    draft: Draft,
) -> Draft {
    bounded(authority_draft(store, context, operation, purpose, draft))
}

/// The draft, stopped if one of its lists is too long.
pub open spec fn bounded(draft: Draft) -> Draft {
    halted(draft, failing(bounds_fault(draft.plan)))
}

impl<'a> PublicationService<'a> {
    /// The restore that owns an operation, and which of its manifests the
    /// operation publishes.
    pub fn load_restore_publication_authority(
        &self,
        context: PublicationContext,
        operation: &PublishOperationRecord,
        restore_operation_id: OperationId,
    ) -> (result: Result<(LoadedRow<'a, RestoreOperationRecord>, RestoreManifestKind), Stop>)
        ensures
            match result {
                Ok((loaded, kind)) => {
                    &&& restore_authority_halt(
                        *self.store,
                        context,
                        *operation,
                        restore_operation_id,
                    ) is None
                    &&& named_restore(*self.store, context, restore_operation_id) == Some(
                        *loaded.record,
                    )
                    &&& owner_bytes(
                        *self.store,
                        context,
                        OperationKind::Restore,
                        restore_operation_id,
                    ) == Some(loaded.payload@)
                    &&& manifest_kind_of(self.store.policy, operation.path@) == Some(kind)
                    &&& restore_owns(*loaded.record, *operation, restore_operation_id, kind)
                },
                Err(stop) => restore_authority_halt(
                    *self.store,
                    context,
                    *operation,
                    restore_operation_id,
                ) == Some(stop@),
            },
    {
        proof {
            reveal(restore_authority_halt);
        }
        let kind: RestoreManifestKind = lift(
            restore_manifest_kind(&self.store.policy, &operation.path),
        )?;
        let none: Vec<ArtifactRevisionId> = Vec::new();
        let empty_digest: [u8; 32] = lift(dependency_owner_digest(&none))?;
        let plain: bool = match operation.claim {
            PublishClaim::CreateOnly => true,
            _ => false,
        };
        assert(none@ =~= Seq::empty());
        if !plain || operation.dependency_count != 0 || operation.dependency_depth != 0
            || !crate::be::same_bytes(
            operation.dependency_digest.as_slice(),
            empty_digest.as_slice(),
        ) {
            return Err(Stop::Fail(PublicationError::RestoreAuthorityMismatch));
        }
        let key: RowKey = RowKey::Operation {
            root_id: context.root_id,
            kind: OperationKind::Restore,
            operation_id: restore_operation_id,
        };
        match self.read_restore(context.read_version, &key)? {
            None => Err(Stop::Fail(PublicationError::RestoreOperationMissing)),
            Some(loaded) => {
                let restore: &RestoreOperationRecord = loaded.record;
                if restore.operation_id != restore_operation_id || !same_text(
                    restore.destination_workbench_id.as_str(),
                    operation.workbench_id.as_str(),
                ) || restore.destination_workspace_incarnation_id
                    != operation.workspace_incarnation_id {
                    return Err(Stop::Fail(PublicationError::RestoreAuthorityMismatch));
                }
                let binding = lift(restore_destination_binding(restore))?;
                let identity = expected_restore_manifest_identity(binding, kind);
                if identity.publication_operation_id != operation.operation_id
                    || identity.artifact_revision_id != operation.artifact_revision_id {
                    return Err(Stop::Fail(PublicationError::RestoreAuthorityMismatch));
                }
                Ok((loaded, kind))
            },
        }
    }

    /// The workspace that an operation publishes into.
    pub fn load_workspace(
        &self,
        context: PublicationContext,
        operation: &PublishOperationRecord,
    ) -> (result: Result<Loaded<WorkspaceRecord>, Stop>)
        ensures
            match result {
                Ok(loaded) => {
                    &&& workspace_authority_halt(*self.store, context, *operation) is None
                    &&& named_workspace(*self.store, context, *operation) == Some(loaded.record)
                    &&& bytes_of(
                        *self.store,
                        context.read_version,
                        workspace_key_of(context, *operation),
                    ) == Some(loaded.payload@)
                },
                Err(stop) => workspace_authority_halt(*self.store, context, *operation) == Some(
                    stop@,
                ),
            },
    {
        let key: RowKey = workspace_row(context, operation);
        match self.read_workspace(context.read_version, &key)? {
            None => Err(Stop::Fail(PublicationError::WorkspaceNotFound)),
            Some(loaded) => {
                if loaded.record.incarnation_id != operation.workspace_incarnation_id {
                    return Err(Stop::Fail(PublicationError::WorkspaceIncarnationMismatch));
                }
                Ok(loaded)
            },
        }
    }

    /// The commit build that waits for an operation's run manifest.
    pub fn load_awaiting_commit(
        &self,
        context: PublicationContext,
        operation: &PublishOperationRecord,
        commit_operation_id: OperationId,
    ) -> (result: Result<LoadedRow<'a, BuildCommitOperationRecord>, Stop>)
        ensures
            match result {
                Ok(loaded) => {
                    &&& commit_authority_halt(
                        *self.store,
                        context,
                        *operation,
                        commit_operation_id,
                    ) is None
                    &&& named_commit(*self.store, context, commit_operation_id) == Some(
                        *loaded.record,
                    )
                    &&& owner_bytes(
                        *self.store,
                        context,
                        OperationKind::BuildCommit,
                        commit_operation_id,
                    ) == Some(loaded.payload@)
                },
                Err(stop) => commit_authority_halt(
                    *self.store,
                    context,
                    *operation,
                    commit_operation_id,
                ) == Some(stop@),
            },
    {
        let key: RowKey = RowKey::Operation {
            root_id: context.root_id,
            kind: OperationKind::BuildCommit,
            operation_id: commit_operation_id,
        };
        match self.read_build_commit(context.read_version, &key)? {
            None => Err(Stop::Fail(PublicationError::CommitOperationMissing)),
            Some(loaded) => {
                if !commit_awaits_manifest(loaded.record, operation, commit_operation_id) {
                    return Err(Stop::Fail(PublicationError::CommitAuthorityMismatch));
                }
                Ok(loaded)
            },
        }
    }

    /// Adds to a plan what the operation's authority demands.
    pub fn predicate_publication_authority(
        &self,
        context: PublicationContext,
        operation: &PublishOperationRecord,
        purpose: PublicationAuthorityPurpose,
        plan: &mut CommandPlan,
    ) -> (result: Result<(), Stop>)
        requires
            old(plan).wf(),
        ensures
            final(plan).wf(),
            ({
                let draft = authority_draft(
                    *self.store,
                    context,
                    *operation,
                    purpose,
                    live(old(plan)@),
                );
                match result {
                    Ok(_) => draft == live(final(plan)@),
                    Err(stop) => draft.halt == Some(stop@),
                }
            }),
    {
        proof {
            reveal(authority_draft);
        }
        let workspace: Loaded<WorkspaceRecord> = self.load_workspace(context, operation)?;
        match operation.authority {
            PublishAuthority::Visible => {
                if restore_manifest_kind(&self.store.policy, &operation.path).is_ok() {
                    return Err(Stop::Fail(PublicationError::ReservedManifestAuthorityRequired));
                }
                if workspace.record.state != WorkspaceState::Visible
                    || workspace.record.owning_operation_id.is_some() {
                    return Err(Stop::Fail(PublicationError::WorkspaceUnavailable));
                }
            },
            PublishAuthority::CommitStaging { commit_operation_id } => {
                let appends: bool = match operation.claim {
                    PublishClaim::Append { .. } => true,
                    _ => false,
                };
                if !same_text(
                    operation.path.as_str(),
                    self.store.policy.run_manifest_path.as_str(),
                ) || appends || operation.dependency_count != 0 || operation.dependency_depth
                    != 0 {
                    return Err(Stop::Fail(PublicationError::CommitAuthorityMismatch));
                }
                if workspace.record.state != WorkspaceState::Visible
                    || workspace.record.owning_operation_id.is_some() {
                    return Err(Stop::Fail(PublicationError::WorkspaceUnavailable));
                }
                let commit = self.load_awaiting_commit(context, operation, commit_operation_id)?;
                let key: RowKey = RowKey::Operation {
                    root_id: context.root_id,
                    kind: OperationKind::BuildCommit,
                    operation_id: commit_operation_id,
                };
                plan.pin_once(key, Some(copy_bytes(commit.payload.as_slice())))?;
            },
            PublishAuthority::RestoreStaging { restore_operation_id } => {
                if workspace.record.state != WorkspaceState::Staging
                    || workspace.record.owning_operation_id != Some(restore_operation_id) {
                    return Err(Stop::Fail(PublicationError::RestoreAuthorityMismatch));
                }
                let (loaded, _kind) = self.load_restore_publication_authority(
                    context,
                    operation,
                    restore_operation_id,
                )?;
                let restore: &RestoreOperationRecord = loaded.record;
                let binding = lift(restore_destination_binding(restore))?;
                match purpose {
                    PublicationAuthorityPurpose::Forward => {
                        if restore.phase != RestorePhase::SourceSealed
                            || binding.manifests.is_some() {
                            return Err(Stop::Fail(PublicationError::RestoreAuthorityMismatch));
                        }
                    },
                    PublicationAuthorityPurpose::Cleanup => {
                        let retiring: bool = restore.phase == RestorePhase::Aborting
                            || restore.phase == RestorePhase::Cleaning;
                        let ended: bool = operation.phase == PublishPhase::Aborting
                            || operation.phase == PublishPhase::Cleaning || operation.phase
                            == PublishPhase::Cleaned || operation.phase
                            == PublishPhase::Quarantined;
                        if !retiring || binding.manifests.is_some() || !ended {
                            return Err(Stop::Fail(PublicationError::RestoreAuthorityMismatch));
                        }
                        // A visible path or an available revision proves that
                        // publication won; the restore cleans that up itself.
                        plan.assert_value(path_row(context, operation), None)?;
                        plan.assert_value(
                            RowKey::ArtifactRevision {
                                root_id: context.root_id,
                                revision: operation.artifact_revision_id,
                            },
                            None,
                        )?;
                    },
                }
                let key: RowKey = RowKey::Operation {
                    root_id: context.root_id,
                    kind: OperationKind::Restore,
                    operation_id: restore_operation_id,
                };
                plan.pin_once(key, Some(copy_bytes(loaded.payload.as_slice())))?;
            },
        }
        plan.pin_once(workspace_row(context, operation), Some(workspace.payload))
    }

    /// Gives up the operation's claim on a revision. An absent claim is
    /// tolerated, and one of another operation stays.
    pub fn release_revision_claim(
        &self,
        context: PublicationContext,
        revision: ArtifactRevisionId,
        operation_id: OperationId,
        plan: &mut CommandPlan,
    ) -> (result: Result<(), Stop>)
        requires
            old(plan).wf(),
        ensures
            final(plan).wf(),
            ({
                let draft = claim_release_draft(
                    *self.store,
                    context,
                    revision,
                    operation_id,
                    live(old(plan)@),
                );
                match result {
                    Ok(_) => draft == live(final(plan)@),
                    Err(stop) => draft.halt == Some(stop@),
                }
            }),
    {
        proof {
            reveal(claim_release_draft);
        }
        let key: RowKey = RowKey::ArtifactRevisionClaim { root_id: context.root_id, revision };
        if let Some(loaded) = self.read_claim(context.read_version, &key)? {
            if loaded.record.operation_id == operation_id {
                plan.delete(key, loaded.payload)?;
            }
        }
        Ok(())
    }

    /// Pins the revision row to an operator's verdict.
    pub fn predicate_reconcile_revision_state(
        &self,
        context: PublicationContext,
        operation: &PublishOperationRecord,
        resolution: QuarantineReconcileResolution,
        plan: &mut CommandPlan,
    ) -> (result: Result<(), Stop>)
        requires
            old(plan).wf(),
        ensures
            final(plan).wf(),
            ({
                let draft = verdict_draft(
                    *self.store,
                    context,
                    *operation,
                    resolution,
                    live(old(plan)@),
                );
                match result {
                    Ok(_) => draft == live(final(plan)@),
                    Err(stop) => draft.halt == Some(stop@),
                }
            }),
    {
        proof {
            reveal(verdict_draft);
            reveal(bytes_of);
        }
        let key: RowKey = RowKey::ArtifactRevision {
            root_id: context.root_id,
            revision: operation.artifact_revision_id,
        };
        let row: Option<&StoredRow> = self.read_payload(context.read_version, &key)?;
        match (resolution, row) {
            (QuarantineReconcileResolution::RevisionUnpublished, None) => plan.assert_value(
                key,
                None,
            ),
            (QuarantineReconcileResolution::RevisionPublished, Some(row)) => plan.assert_value(
                key,
                Some(copy_bytes(row.payload.as_slice())),
            ),
            (resolution, row) => Err(
                Stop::Fail(
                    PublicationError::ReconcileResolutionMismatch {
                        resolution,
                        revision_published: row.is_some(),
                    },
                ),
            ),
        }
    }

    /// A command within bounds that the operation's authority lets through.
    pub fn seal_plan(
        &self,
        context: PublicationContext,
        plan: CommandPlan,
        operation: &PublishOperationRecord,
        deterministic_result: Vec<u8>,
        purpose: PublicationAuthorityPurpose,
        lease_deadline_ms: Option<u64>,
    ) -> (result: Result<PlannedCommand, Stop>)
        requires
            plan.wf(),
        ensures
            ({
                let draft = sealed_draft(*self.store, context, *operation, purpose, live(plan@));
                match result {
                    Ok(command) => {
                        &&& command.plan.wf()
                        &&& draft == live(command.plan@)
                        &&& command@ == (PlannedCommandView {
                            context,
                            plan: draft.plan,
                            deterministic_result: deterministic_result@,
                            lease_deadline_ms,
                        })
                    },
                    Err(stop) => draft.halt == Some(stop@),
                }
            }),
    {
        let mut plan = plan;
        self.predicate_publication_authority(context, operation, purpose, &mut plan)?;
        lift(plan.validate_bounds())?;
        Ok(PlannedCommand { context, plan, deterministic_result, lease_deadline_ms })
    }

    /// A command within bounds that runs without an authority's pins.
    ///
    /// The workspace, commit build or restore of a quarantined operation may
    /// be long gone, so its reconciliation rests on the operation row and the
    /// verdict's pin on the revision row.
    pub fn seal_reconcile_plan(
        &self,
        context: PublicationContext,
        plan: CommandPlan,
        deterministic_result: Vec<u8>,
    ) -> (result: Result<PlannedCommand, Stop>)
        requires
            plan.wf(),
        ensures
            ({
                let draft = bounded(live(plan@));
                match result {
                    Ok(command) => {
                        &&& command.plan.wf()
                        &&& draft == live(command.plan@)
                        &&& command@ == (PlannedCommandView {
                            context,
                            plan: draft.plan,
                            deterministic_result: deterministic_result@,
                            lease_deadline_ms: None,
                        })
                    },
                    Err(stop) => draft.halt == Some(stop@),
                }
            }),
    {
        lift(plan.validate_bounds())?;
        Ok(PlannedCommand { context, plan, deterministic_result, lease_deadline_ms: None })
    }
}

} // verus!
