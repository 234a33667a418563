//! Replays of publications that a restore owns: when a durable receipt still
//! speaks for what is live.

use crate::ids::{ReadVersion, RevisionState};
use crate::publication_authority::{manifest_kind_of, named_restore, named_workspace, path_key_of,
    path_row, restore_authority_halt, restore_workspace_agrees, revision_key_of,
    validate_restore_workspace_state, workspace_authority_halt};
use crate::publication_digests::{digest_uri, sha256_digest_uri};
use crate::publication_error::{MetaError, PublicationError};
use crate::publication_plan::{failing, lift, PublicationContext, RowKey, RowKeyView, Stop,
    StopView};
use crate::publication_records::{first_fault, ArtifactRevisionRecord, ArtifactRevisionView,
    PathEntry, PathEntryView, WorkspaceRecord};
use crate::publication_rules::{actual_restore_manifest_publication, binding_of,
    manifest_publication, restore_destination_binding, RestoreManifestKind};
use crate::publication_store::{path_entry_halt, path_entry_of, revision_halt, revision_of,
    revision_ref_halt, revision_ref_of, Loaded, MetaShard, PublicationPolicy, PublicationService};
use crate::publish_records::{PublishAuthority, PublishOperationRecord, PublishPhase, PublishResult,
    RestoreManifestDescriptor, RestoreManifestPublication, RestoreOperationRecord, RestorePhase};
use crate::query_records::{parse_stored_projection, TypedProjection};
use crate::text::same_text;
use vstd::prelude::*;

verus! {

/// The reference that a path holds on a revision.
pub open spec fn path_ref_key_of(
    context: PublicationContext,
    operation: PublishOperationRecord,
    revision: crate::ids::ArtifactRevisionId,
) -> RowKeyView {
    RowKeyView::PathRevisionRef {
        root_id: context.root_id,
        incarnation: operation.workspace_incarnation_id,
        path: operation.path@,
        revision,
    }
}

pub fn path_ref_row(
    context: PublicationContext,
    operation: &PublishOperationRecord,
    revision: crate::ids::ArtifactRevisionId,
) -> (key: RowKey)
    ensures
        key@ == path_ref_key_of(context, *operation, revision),
{
    RowKey::PathRevisionRef {
        root_id: context.root_id,
        incarnation: operation.workspace_incarnation_id,
        path: operation.path.clone(),
        revision,
    }
}

/// Whether a restore has bound exactly what an operation published.
pub open spec fn publication_agrees(
    publication: RestoreManifestPublication,
    operation: PublishOperationRecord,
    result: PublishResult,
    policy: PublicationPolicy,
) -> bool {
    &&& publication.publication_operation_id == operation.operation_id
    &&& publication.workspace_incarnation_id == operation.workspace_incarnation_id
    &&& publication.artifact_revision_id == operation.artifact_revision_id
    &&& publication.body_digest_uri@ == result.body_digest_uri@
    &&& publication.manifest_digest_uri@ == digest_uri(operation.manifest_seal@)
    &&& publication.logical_size == result.logical_size
    &&& publication.content_type@ == policy.restore_manifest_content_type@
}

/// Whether a restore is in a phase, and has bound what that phase binds, for
/// an operation's publication to stand.
pub open spec fn restore_stands(
    restore: RestoreOperationRecord,
    kind: RestoreManifestKind,
    operation: PublishOperationRecord,
    result: PublishResult,
    policy: PublicationPolicy,
) -> bool {
    let binding = binding_of(restore);
    &&& binding is Some
    &&& match restore.phase {
        RestorePhase::SourceSealed => binding.unwrap().manifests is None,
        RestorePhase::DestinationBuilding | RestorePhase::DestinationSealing | RestorePhase::Ready
        | RestorePhase::Complete => match manifest_publication(binding.unwrap(), kind) {
            None => false,
            Some(publication) => publication_agrees(publication, operation, result, policy),
        },
        _ => false,
    }
}

/// Whether the live path is the one that an operation published, but for its
/// projection.
pub open spec fn path_agrees(
    entry: PathEntryView,
    operation: PublishOperationRecord,
    result: PublishResult,
    policy: PublicationPolicy,
) -> bool {
    &&& entry.generation == result.path_generation
    &&& entry.artifact_revision_id == operation.artifact_revision_id
    &&& entry.body_digest_uri == result.body_digest_uri@
    &&& entry.manifest_digest_uri == digest_uri(operation.manifest_seal@)
    &&& entry.logical_size == result.logical_size
    &&& entry.dependency_count == 0
    &&& entry.dependency_depth == 0
    &&& entry.content_type == policy.restore_manifest_content_type@
    &&& entry.producer is None
    &&& entry.manifest_id is None
}

/// The projection of a live path that is unreadable or not empty.
pub open spec fn plain_projection_fault(stored: Seq<u8>) -> Option<PublicationError> {
    match parse_stored_projection(stored) {
        Err(error) => Some(PublicationError::QueryRecord(error)),
        Ok(fields) => if fields.len() != 0 {
            Some(PublicationError::RestoreAuthorityMismatch)
        } else {
            None
        },
    }
}

/// Whether a path holds the restore manifest that a restore has sealed.
pub open spec fn body_agrees(entry: PathEntryView, sealed: RestoreManifestDescriptor) -> bool {
    &&& entry.body_digest_uri == sealed.body_digest_uri@
    &&& entry.logical_size == sealed.logical_size
    &&& entry.content_type == sealed.content_type@
}

/// Whether a revision is live and is the one that a path shows.
pub open spec fn revision_agrees(
    revision: ArtifactRevisionView,
    entry: PathEntryView,
    operation: PublishOperationRecord,
) -> bool {
    &&& revision.logical_size == entry.logical_size
    &&& revision.body_digest_uri == entry.body_digest_uri
    &&& revision.manifest_digest_uri == entry.manifest_digest_uri
    &&& revision.block_count == operation.manifest_row_count
    &&& revision.dependency_count == 0
    &&& revision.dependency_depth == 0
    &&& revision.content_type == entry.content_type
    &&& revision.state == RevisionState::Available
    &&& revision.strong_reference_count != 0
}

/// The operation is not published, or its restore does not stand by it.
pub open spec fn terminal_state_fault(
    policy: PublicationPolicy,
    operation: PublishOperationRecord,
    restore: RestoreOperationRecord,
    kind: RestoreManifestKind,
) -> Option<PublicationError> {
    if operation.phase != PublishPhase::Published {
        Some(PublicationError::RestoreAuthorityMismatch)
    } else if operation.result is None {
        Some(PublicationError::ReplayResultMismatch)
    } else if !restore_stands(restore, kind, operation, operation.result.unwrap(), policy) {
        Some(PublicationError::RestoreAuthorityMismatch)
    } else {
        None
    }
}

/// The live path is not what the operation published.
pub open spec fn terminal_path_fault(
    policy: PublicationPolicy,
    entry: Option<PathEntryView>,
    operation: PublishOperationRecord,
    restore: RestoreOperationRecord,
    kind: RestoreManifestKind,
) -> Option<PublicationError> {
    match entry {
        None => Some(PublicationError::RestoreAuthorityMismatch),
        Some(entry) => if !path_agrees(entry, operation, operation.result.unwrap(), policy) {
            Some(PublicationError::RestoreAuthorityMismatch)
        } else {
            first_fault(
                plain_projection_fault(entry.typed_index_projection),
                if kind == RestoreManifestKind::Restore && !body_agrees(
                    entry,
                    restore.restore_manifest,
                ) {
                    Some(PublicationError::RestoreManifestClosureMismatch)
                } else {
                    None
                },
            )
        },
    }
}

/// Why the receipt of a published restore manifest cannot be replayed.
#[verifier::opaque]
pub open spec fn terminal_replay_halt(
    store: MetaShard,
    context: PublicationContext,
    operation: PublishOperationRecord,
    restore: RestoreOperationRecord,
    kind: RestoreManifestKind,
) -> Option<StopView> {
    let version = context.read_version;
    let path_key = path_key_of(context, operation);
    let revision_key = revision_key_of(context, operation.artifact_revision_id);
    let ref_key = path_ref_key_of(context, operation, operation.artifact_revision_id);
    let entry = path_entry_of(store, version, path_key);
    let revision = revision_of(store, version, revision_key);
    let reference = revision_ref_of(store, version, ref_key);
    first_fault(
        failing(terminal_state_fault(store.policy, operation, restore, kind)),
        first_fault(
            path_entry_halt(store, version, path_key),
            first_fault(
                failing(terminal_path_fault(store.policy, entry, operation, restore, kind)),
                first_fault(
                    revision_halt(store, version, revision_key),
                    first_fault(
                        failing(
                            if revision is None || !revision_agrees(
                                revision.unwrap(),
                                entry.unwrap(),
                                operation,
                            ) {
                                Some(PublicationError::RestoreAuthorityMismatch)
                            } else {
                                None
                            },
                        ),
                        first_fault(
                            revision_ref_halt(store, version, ref_key),
                            failing(
                                if reference is None
                                    || reference.unwrap().reference_epoch_at_add.value
                                    > revision.unwrap().reference_epoch.value {
                                    Some(PublicationError::RestoreAuthorityMismatch)
                                } else {
                                    None
                                },
                            ),
                        ),
                    ),
                ),
            ),
        ),
    )
}

/// The shard has moved on from the version that a replay reads at.
pub open spec fn current_version_halt(
    store: MetaShard,
    context: PublicationContext,
    again: bool,
) -> Option<StopView> {
    let answer = if again {
        store.current_version_again
    } else {
        store.current_version
    };
    match answer {
        None => Some(StopView::CurrentVersion { again }),
        Some(Err(error)) => Some(StopView::Fail(PublicationError::Meta(error))),
        Some(Ok(current)) => if current == context.read_version {
            None
        } else {
            Some(
                StopView::Fail(
                    PublicationError::Meta(
                        MetaError::WriteReadVersionMismatch {
                            requested: context.read_version.value,
                            current: current.value,
                        },
                    ),
                ),
            )
        },
    }
}

/// Why an unfinished or finished operation cannot be replayed under its
/// restore.
pub open spec fn phase_replay_halt(
    store: MetaShard,
    context: PublicationContext,
    operation: PublishOperationRecord,
    restore: RestoreOperationRecord,
    kind: RestoreManifestKind,
) -> Option<StopView> {
    match operation.phase {
        PublishPhase::Published => terminal_replay_halt(store, context, operation, restore, kind),
        PublishPhase::Uploading | PublishPhase::Finalizing => failing(
            if restore.phase == RestorePhase::SourceSealed
                && binding_of(restore).unwrap().manifests is None {
                None
            } else {
                Some(PublicationError::RestoreAuthorityMismatch)
            },
        ),
        _ => failing(Some(PublicationError::RestoreAuthorityMismatch)),
    }
}

/// Why an existing operation cannot be replayed. An operation that no restore
/// owns always can.
#[verifier::opaque]
pub open spec fn existing_replay_halt(
    store: MetaShard,
    context: PublicationContext,
    operation: PublishOperationRecord,
) -> Option<StopView> {
    match operation.authority {
        PublishAuthority::RestoreStaging { restore_operation_id } => {
            let restore = named_restore(store, context, restore_operation_id).unwrap();
            let kind = manifest_kind_of(store.policy, operation.path@).unwrap();
            let workspace = named_workspace(store, context, operation).unwrap();
            first_fault(
                current_version_halt(store, context, false),
                first_fault(
                    restore_authority_halt(store, context, operation, restore_operation_id),
                    first_fault(
                        workspace_authority_halt(store, context, operation),
                        first_fault(
                            failing(
                                if !restore_workspace_agrees(workspace, restore) {
                                    Some(PublicationError::RestoreAuthorityMismatch)
                                } else {
                                    None
                                },
                            ),
                            first_fault(
                                phase_replay_halt(store, context, operation, restore, kind),
                                current_version_halt(store, context, true),
                            ),
                        ),
                    ),
                ),
            )
        },
        _ => None,
    }
}

fn publication_is(
    publication: &RestoreManifestPublication,
    operation: &PublishOperationRecord,
    result: &PublishResult,
    policy: &PublicationPolicy,
) -> (agrees: bool)
    ensures
        agrees == publication_agrees(*publication, *operation, *result, *policy),
{
    let manifest_uri: String = sha256_digest_uri(operation.manifest_seal);
    publication.publication_operation_id == operation.operation_id
        && publication.workspace_incarnation_id == operation.workspace_incarnation_id
        && publication.artifact_revision_id == operation.artifact_revision_id && same_text(
        publication.body_digest_uri.as_str(),
        result.body_digest_uri.as_str(),
    ) && same_text(publication.manifest_digest_uri.as_str(), manifest_uri.as_str())
        && publication.logical_size == result.logical_size && same_text(
        publication.content_type.as_str(),
        policy.restore_manifest_content_type.as_str(),
    )
}

fn restore_still_stands(
    restore: &RestoreOperationRecord,
    kind: RestoreManifestKind,
    operation: &PublishOperationRecord,
    result: &PublishResult,
    policy: &PublicationPolicy,
) -> (stands: bool)
    ensures
        stands == restore_stands(*restore, kind, *operation, *result, *policy),
{
    match restore_destination_binding(restore) {
        Err(_) => false,
        Ok(binding) => match restore.phase {
            RestorePhase::SourceSealed => binding.manifests.is_none(),
            RestorePhase::DestinationBuilding
            | RestorePhase::DestinationSealing
            | RestorePhase::Ready
            | RestorePhase::Complete => match actual_restore_manifest_publication(binding, kind) {
                None => false,
                Some(publication) => publication_is(publication, operation, result, policy),
            },
            _ => false,
        },
    }
}

fn path_is(
    entry: &PathEntry,
    operation: &PublishOperationRecord,
    result: &PublishResult,
    policy: &PublicationPolicy,
) -> (agrees: bool)
    ensures
        agrees == path_agrees(entry@, *operation, *result, *policy),
{
    let manifest_uri: String = sha256_digest_uri(operation.manifest_seal);
    entry.generation == result.path_generation && entry.artifact_revision_id
        == operation.artifact_revision_id && same_text(
        entry.body_digest_uri.as_str(),
        result.body_digest_uri.as_str(),
    ) && same_text(entry.manifest_digest_uri.as_str(), manifest_uri.as_str())
        && entry.logical_size == result.logical_size && entry.dependency_count == 0
        && entry.dependency_depth == 0 && same_text(
        entry.content_type.as_str(),
        policy.restore_manifest_content_type.as_str(),
    ) && entry.producer.is_none() && entry.manifest_id.is_none()
}

fn revision_is(
    revision: &ArtifactRevisionRecord,
    entry: &PathEntry,
    operation: &PublishOperationRecord,
) -> (agrees: bool)
    ensures
        agrees == revision_agrees(revision@, entry@, *operation),
{
    revision.logical_size == entry.logical_size && same_text(
        revision.body_digest_uri.as_str(),
        entry.body_digest_uri.as_str(),
    ) && same_text(revision.manifest_digest_uri.as_str(), entry.manifest_digest_uri.as_str())
        && revision.block_count == operation.manifest_row_count as u64 && revision.dependency_count
        == 0 && revision.dependency_depth == 0 && same_text(
        revision.content_type.as_str(),
        entry.content_type.as_str(),
    ) && revision.state == RevisionState::Available && revision.strong_reference_count != 0
}

impl<'a> PublicationService<'a> {
    /// Checks that the receipt of a published restore manifest still speaks
    /// for the live path.
    pub fn validate_restore_terminal_publication_replay(
        &self,
        context: PublicationContext,
        operation: &PublishOperationRecord,
        restore: &RestoreOperationRecord,
        kind: RestoreManifestKind,
    ) -> (result: Result<(), Stop>)
        ensures
            match result {
                Ok(_) => terminal_replay_halt(
                    *self.store,
                    context,
                    *operation,
                    *restore,
                    kind,
                ) is None,
                Err(stop) => terminal_replay_halt(
                    *self.store,
                    context,
                    *operation,
                    *restore,
                    kind,
                ) == Some(stop@),
            },
    {
        proof {
            reveal(terminal_replay_halt);
        }
        let policy: &PublicationPolicy = &self.store.policy;
        if operation.phase != PublishPhase::Published {
            return Err(Stop::Fail(PublicationError::RestoreAuthorityMismatch));
        }
        let receipt: &PublishResult = match &operation.result {
            None => {
                return Err(Stop::Fail(PublicationError::ReplayResultMismatch));
            },
            Some(receipt) => receipt,
        };
        if !restore_still_stands(restore, kind, operation, receipt, policy) {
            return Err(Stop::Fail(PublicationError::RestoreAuthorityMismatch));
        }
        let path_key: RowKey = path_row(context, operation);
        let entry: PathEntry = match self.read_path_entry(context.read_version, &path_key)? {
            None => {
                return Err(Stop::Fail(PublicationError::RestoreAuthorityMismatch));
            },
            Some(loaded) => loaded.record,
        };
        if !path_is(&entry, operation, receipt, policy) {
            return Err(Stop::Fail(PublicationError::RestoreAuthorityMismatch));
        }
        match TypedProjection::decode_stored(entry.typed_index_projection.as_slice()) {
            Err(error) => {
                return Err(Stop::Fail(PublicationError::QueryRecord(error)));
            },
            Ok(projection) => {
                if !projection.fields().is_empty() {
                    return Err(Stop::Fail(PublicationError::RestoreAuthorityMismatch));
                }
            },
        }
        if kind == RestoreManifestKind::Restore && (!same_text(
            entry.body_digest_uri.as_str(),
            restore.restore_manifest.body_digest_uri.as_str(),
        ) || entry.logical_size != restore.restore_manifest.logical_size || !same_text(
            entry.content_type.as_str(),
            restore.restore_manifest.content_type.as_str(),
        )) {
            return Err(Stop::Fail(PublicationError::RestoreManifestClosureMismatch));
        }
        let revision_key: RowKey = RowKey::ArtifactRevision {
            root_id: context.root_id,
            revision: operation.artifact_revision_id,
        };
        let revision: ArtifactRevisionRecord = match self.read_revision(
            context.read_version,
            &revision_key,
        )? {
            None => {
                return Err(Stop::Fail(PublicationError::RestoreAuthorityMismatch));
            },
            Some(loaded) => loaded.record,
        };
        if !revision_is(&revision, &entry, operation) {
            return Err(Stop::Fail(PublicationError::RestoreAuthorityMismatch));
        }
        let ref_key: RowKey = path_ref_row(context, operation, operation.artifact_revision_id);
        match self.read_revision_ref(context.read_version, &ref_key)? {
            None => Err(Stop::Fail(PublicationError::RestoreAuthorityMismatch)),
            Some(loaded) => {
                if loaded.record.reference_epoch_at_add.value > revision.reference_epoch.value {
                    return Err(Stop::Fail(PublicationError::RestoreAuthorityMismatch));
                }
                Ok(())
            },
        }
    }

    /// Checks that the shard still stands where a replay reads.
    pub fn require_current_restore_replay_version(
        &self,
        context: PublicationContext,
        again: bool,
    ) -> (result: Result<(), Stop>)
        ensures
            match result {
                Ok(_) => current_version_halt(*self.store, context, again) is None,
                Err(stop) => current_version_halt(*self.store, context, again) == Some(stop@),
            },
    {
        let answer: &Option<Result<ReadVersion, MetaError>> = if again {
            &self.store.current_version_again
        } else {
            &self.store.current_version
        };
        match answer {
            None => Err(Stop::CurrentVersion { again }),
            Some(Err(error)) => Err(Stop::Fail(PublicationError::Meta(*error))),
            Some(Ok(current)) => {
                if *current == context.read_version {
                    Ok(())
                } else {
                    Err(
                        Stop::Fail(
                            PublicationError::Meta(
                                MetaError::WriteReadVersionMismatch {
                                    requested: context.read_version.value,
                                    current: current.value,
                                },
                            ),
                        ),
                    )
                }
            },
        }
    }

    /// Checks that an existing operation may be answered from its row.
    ///
    /// This path changes nothing, so nothing is compared when it ends; the
    /// shard's version is asked before and after instead.
    pub fn validate_existing_publish_replay_authority(
        &self,
        context: PublicationContext,
        operation: &PublishOperationRecord,
    ) -> (result: Result<(), Stop>)
        ensures
            match result {
                Ok(_) => existing_replay_halt(*self.store, context, *operation) is None,
                Err(stop) => existing_replay_halt(*self.store, context, *operation) == Some(stop@),
            },
    {
        proof {
            reveal(existing_replay_halt);
        }
        let restore_operation_id = match operation.authority {
            PublishAuthority::RestoreStaging { restore_operation_id } => restore_operation_id,
            _ => {
                return Ok(());
            },
        };
        self.require_current_restore_replay_version(context, false)?;
        let (loaded, kind) = self.load_restore_publication_authority(
            context,
            operation,
            restore_operation_id,
        )?;
        let restore: &RestoreOperationRecord = loaded.record;
        let workspace: Loaded<WorkspaceRecord> = self.load_workspace(context, operation)?;
        lift(validate_restore_workspace_state(&workspace.record, restore))?;
        match operation.phase {
            PublishPhase::Published => {
                self.validate_restore_terminal_publication_replay(
                    context,
                    operation,
                    restore,
                    kind,
                )?;
            },
            PublishPhase::Uploading | PublishPhase::Finalizing => {
                let binding = lift(restore_destination_binding(restore))?;
                if restore.phase != RestorePhase::SourceSealed || binding.manifests.is_some() {
                    return Err(Stop::Fail(PublicationError::RestoreAuthorityMismatch));
                }
            },
            _ => {
                return Err(Stop::Fail(PublicationError::RestoreAuthorityMismatch));
            },
        }
        self.require_current_restore_replay_version(context, true)
    }
}

} // verus!
