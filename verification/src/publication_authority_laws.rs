//! Who may publish where, and what a publication finds when it is asked for
//! again.

use crate::ids::{OperationId, RevisionState, WorkspaceState};
use crate::publication_authority::{authority_draft, path_key_of, path_row, restore_authority_halt,
    revision_key_of};
use crate::publication_digests::{dependency_digest_of, digest_uri};
use crate::publication_effect_laws::{expects, fields_in};
use crate::publication_plan::{empty_plan, key_taken, live, Draft, OperationKind, PlanPredicateView,
    PlanView, PublicationContext, RowKeyView};
use crate::publication_records::WorkspaceRecord;
use crate::publication_replay::{existing_replay_halt, terminal_replay_halt};
use crate::publication_rules::PublicationAuthorityPurpose;
use crate::publication_store::{build_commit_halt, build_commit_of, bytes_of, path_entry_halt,
    path_entry_of, restore_halt, restore_of, revision_halt, revision_of, revision_ref_halt,
    revision_ref_of, workspace_halt, workspace_of, MetaShard, PublicationPolicy};
use crate::publish_records::{BuildCommitOperationRecord, BuildCommitPhase, CommitManifestCondition,
    PublishAuthority, PublishClaim, PublishOperationRecord, PublishPhase, PublishResult,
    RestoreCommitProvenance, RestoreDestinationBinding, RestoreOperationRecord, RestorePhase};
use crate::query_records::FieldView;
use vstd::prelude::*;

verus! {

/// The row of the workspace that an operation publishes into.
pub open spec fn workspace_row_of(
    context: PublicationContext,
    operation: PublishOperationRecord,
) -> RowKeyView {
    RowKeyView::WorkspaceCurrent {
        root_id: context.root_id,
        workbench_id: operation.workbench_id@,
    }
}

/// The workspace that an operation publishes into, as it was read.
pub open spec fn workspace_read(
    store: MetaShard,
    context: PublicationContext,
    operation: PublishOperationRecord,
) -> Option<WorkspaceRecord> {
    workspace_of(store, context.read_version, workspace_row_of(context, operation))
}

/// Whether the workspace that was read is the operation's, visible, and
/// nobody's in particular.
pub open spec fn in_open_workspace(
    store: MetaShard,
    context: PublicationContext,
    operation: PublishOperationRecord,
) -> bool {
    let workspace = workspace_read(store, context, operation);
    &&& workspace_halt(store, context.read_version, workspace_row_of(context, operation)) is None
    &&& workspace is Some
    &&& workspace.unwrap().incarnation_id == operation.workspace_incarnation_id
    &&& workspace.unwrap().state == WorkspaceState::Visible
    &&& workspace.unwrap().owning_operation_id is None
}

/// Whether the workspace that was read is the operation's, and a restore is
/// building it.
pub open spec fn in_staged_workspace(
    store: MetaShard,
    context: PublicationContext,
    operation: PublishOperationRecord,
    restore_operation_id: OperationId,
) -> bool {
    let workspace = workspace_read(store, context, operation);
    &&& workspace_halt(store, context.read_version, workspace_row_of(context, operation)) is None
    &&& workspace is Some
    &&& workspace.unwrap().incarnation_id == operation.workspace_incarnation_id
    &&& workspace.unwrap().state == WorkspaceState::Staging
    &&& workspace.unwrap().owning_operation_id == Some(restore_operation_id)
}

/// Anyone may publish into a visible workspace, but not a manifest's reserved
/// path. The command expects the workspace as it was read.
pub proof fn visible_publications_need_an_open_workspace(
    store: MetaShard,
    context: PublicationContext,
    operation: PublishOperationRecord,
    purpose: PublicationAuthorityPurpose,
)
    requires
        operation.authority is Visible,
    ensures
        ({
            let draft = authority_draft(store, context, operation, purpose, live(empty_plan()));
            let allowed = {
                &&& in_open_workspace(store, context, operation)
                &&& operation.path@ != store.policy.run_manifest_path@
                &&& operation.path@ != store.policy.restore_manifest_path@
            };
            &&& draft.halt is None <==> allowed
            &&& allowed ==> expects(
                draft.plan,
                workspace_row_of(context, operation),
                bytes_of(store, context.read_version, workspace_row_of(context, operation)),
            )
        }),
{
    reveal(authority_draft);
    let draft = authority_draft(store, context, operation, purpose, live(empty_plan()));
    if draft.halt is None {
        assert(draft.plan.predicates[0] == PlanPredicateView::Value {
            key: workspace_row_of(context, operation),
            expected: bytes_of(
                store,
                context.read_version,
                workspace_row_of(context, operation),
            ),
        });
    }
}

/// Whether a commit build waits for exactly this run manifest: it is still
/// building, for the same workbench and workspace, names the revision as its
/// tree manifest, has none yet, asked for such a claim, and has no members.
pub open spec fn commit_waits_for(
    commit: BuildCommitOperationRecord,
    operation: PublishOperationRecord,
    commit_operation_id: OperationId,
) -> bool {
    &&& commit.phase == BuildCommitPhase::Building
    &&& commit.operation_id == commit_operation_id
    &&& commit.workbench_id@ == operation.workbench_id@
    &&& commit.source_workspace_incarnation_id == operation.workspace_incarnation_id
    &&& commit.tree_manifest_revision_id == operation.artifact_revision_id
    &&& commit.commit_staged_run_manifest is None
    &&& match commit.run_manifest_condition {
        CommitManifestCondition::CreateOnly => operation.claim is CreateOnly,
        CommitManifestCondition::ReplaceOnly { expected_generation } => operation.claim
            == PublishClaim::ReplaceOnly { expected_generation },
    }
    &&& commit.member_count == 0
    &&& !commit.has_member_cursor
}

/// A run manifest is published for the commit build that waits for exactly it,
/// out of an open workspace, at the reserved path, and without dependencies.
/// The command expects the commit build and the workspace as they were read.
pub proof fn commit_publications_need_their_build(
    store: MetaShard,
    context: PublicationContext,
    operation: PublishOperationRecord,
    purpose: PublicationAuthorityPurpose,
    commit_operation_id: OperationId,
)
    requires
        operation.authority == (PublishAuthority::CommitStaging { commit_operation_id }),
    ensures
        ({
            let draft = authority_draft(store, context, operation, purpose, live(empty_plan()));
            let row = RowKeyView::Operation {
                root_id: context.root_id,
                kind: OperationKind::BuildCommit,
                operation_id: commit_operation_id,
            };
            let commit = build_commit_of(store, context.read_version, row);
            let allowed = {
                &&& in_open_workspace(store, context, operation)
                &&& operation.path@ == store.policy.run_manifest_path@
                &&& !(operation.claim is Append)
                &&& operation.dependency_count == 0
                &&& operation.dependency_depth == 0
                &&& build_commit_halt(store, context.read_version, row) is None
                &&& commit is Some
                &&& commit_waits_for(commit.unwrap(), operation, commit_operation_id)
            };
            &&& draft.halt is None <==> allowed
            &&& allowed ==> {
                &&& expects(draft.plan, row, bytes_of(store, context.read_version, row))
                &&& expects(
                    draft.plan,
                    workspace_row_of(context, operation),
                    bytes_of(store, context.read_version, workspace_row_of(context, operation)),
                )
            }
        }),
{
    reveal(authority_draft);
    let draft = authority_draft(store, context, operation, purpose, live(empty_plan()));
    let row = RowKeyView::Operation {
        root_id: context.root_id,
        kind: OperationKind::BuildCommit,
        operation_id: commit_operation_id,
    };
    if draft.halt is None {
        assert(draft.plan.predicates[0] == PlanPredicateView::Value {
            key: row,
            expected: bytes_of(store, context.read_version, row),
        });
        assert(draft.plan.predicates[1] == PlanPredicateView::Value {
            key: workspace_row_of(context, operation),
            expected: bytes_of(
                store,
                context.read_version,
                workspace_row_of(context, operation),
            ),
        });
    }
}

/// The identities that a restore has reserved, where its destination is bound.
pub open spec fn reserved(restore: RestoreOperationRecord) -> Option<RestoreDestinationBinding> {
    match restore.commit_provenance {
        RestoreCommitProvenance::V5 { destination_binding } => destination_binding,
        RestoreCommitProvenance::Other => None,
    }
}

/// Whether a restore has reserved an operation for the manifest at its path.
pub open spec fn restore_reserves(
    policy: PublicationPolicy,
    restore: RestoreOperationRecord,
    operation: PublishOperationRecord,
    restore_operation_id: OperationId,
) -> bool {
    &&& restore.operation_id == restore_operation_id
    &&& restore.destination_workbench_id@ == operation.workbench_id@
    &&& restore.destination_workspace_incarnation_id == operation.workspace_incarnation_id
    &&& reserved(restore) is Some
    &&& ({
        let identity = if operation.path@ == policy.run_manifest_path@ {
            reserved(restore).unwrap().run_manifest_identity
        } else {
            reserved(restore).unwrap().restore_manifest_identity
        };
        &&& identity.publication_operation_id == operation.operation_id
        &&& identity.artifact_revision_id == operation.artifact_revision_id
    })
}

/// A restore's manifest is published by the operation that the restore has
/// reserved for it, at its path, as a creation without dependencies, into the
/// workspace that the restore is building, and while the source is sealed and
/// no manifest is bound.
pub proof fn restore_publications_need_their_restore(
    store: MetaShard,
    context: PublicationContext,
    operation: PublishOperationRecord,
    restore_operation_id: OperationId,
)
    requires
        operation.authority == (PublishAuthority::RestoreStaging { restore_operation_id }),
    ensures
        ({
            let draft = authority_draft(
                store,
                context,
                operation,
                PublicationAuthorityPurpose::Forward,
                live(empty_plan()),
            );
            let row = RowKeyView::Operation {
                root_id: context.root_id,
                kind: OperationKind::Restore,
                operation_id: restore_operation_id,
            };
            let restore = restore_of(store, context.read_version, row);
            let allowed = {
                &&& in_staged_workspace(store, context, operation, restore_operation_id)
                &&& operation.path@ == store.policy.run_manifest_path@ || operation.path@
                    == store.policy.restore_manifest_path@
                &&& operation.claim is CreateOnly
                &&& operation.dependency_count == 0
                &&& operation.dependency_depth == 0
                &&& operation.dependency_digest@ == dependency_digest_of(Seq::empty())
                &&& restore_halt(store, context.read_version, row) is None
                &&& restore is Some
                &&& restore_reserves(
                    store.policy,
                    restore.unwrap(),
                    operation,
                    restore_operation_id,
                )
                &&& restore.unwrap().phase == RestorePhase::SourceSealed
                &&& reserved(restore.unwrap()).unwrap().manifests is None
            };
            &&& draft.halt is None <==> allowed
            &&& allowed ==> {
                &&& expects(draft.plan, row, bytes_of(store, context.read_version, row))
                &&& expects(
                    draft.plan,
                    workspace_row_of(context, operation),
                    bytes_of(store, context.read_version, workspace_row_of(context, operation)),
                )
            }
        }),
{
    reveal(authority_draft);
    reveal(restore_authority_halt);
    let draft = authority_draft(
        store,
        context,
        operation,
        PublicationAuthorityPurpose::Forward,
        live(empty_plan()),
    );
    let row = RowKeyView::Operation {
        root_id: context.root_id,
        kind: OperationKind::Restore,
        operation_id: restore_operation_id,
    };
    if draft.halt is None {
        assert(draft.plan.predicates[0] == PlanPredicateView::Value {
            key: row,
            expected: bytes_of(store, context.read_version, row),
        });
        assert(draft.plan.predicates[1] == PlanPredicateView::Value {
            key: workspace_row_of(context, operation),
            expected: bytes_of(
                store,
                context.read_version,
                workspace_row_of(context, operation),
            ),
        });
    }
}

/// A restore's manifest is shed while the restore is aborting or cleaning and
/// the operation is on its way out, and only while neither the path nor the
/// revision is there, which the command expects to stay so.
pub proof fn restore_cleanups_find_nothing_published(
    store: MetaShard,
    context: PublicationContext,
    operation: PublishOperationRecord,
    restore_operation_id: OperationId,
)
    requires
        operation.authority == (PublishAuthority::RestoreStaging { restore_operation_id }),
        authority_draft(
            store,
            context,
            operation,
            PublicationAuthorityPurpose::Cleanup,
            live(empty_plan()),
        ).halt is None,
    ensures
        ({
            let plan = authority_draft(
                store,
                context,
                operation,
                PublicationAuthorityPurpose::Cleanup,
                live(empty_plan()),
            ).plan;
            let row = RowKeyView::Operation {
                root_id: context.root_id,
                kind: OperationKind::Restore,
                operation_id: restore_operation_id,
            };
            let restore = restore_of(store, context.read_version, row);
            &&& in_staged_workspace(store, context, operation, restore_operation_id)
            &&& restore is Some
            &&& restore_reserves(store.policy, restore.unwrap(), operation, restore_operation_id)
            &&& restore.unwrap().phase == RestorePhase::Aborting || restore.unwrap().phase
                == RestorePhase::Cleaning
            &&& reserved(restore.unwrap()).unwrap().manifests is None
            &&& operation.phase == PublishPhase::Aborting || operation.phase
                == PublishPhase::Cleaning || operation.phase == PublishPhase::Cleaned
                || operation.phase == PublishPhase::Quarantined
            &&& expects(
                plan,
                RowKeyView::PathCurrent {
                    root_id: context.root_id,
                    incarnation: operation.workspace_incarnation_id,
                    path: operation.path@,
                },
                None,
            )
            &&& expects(
                plan,
                RowKeyView::ArtifactRevision {
                    root_id: context.root_id,
                    revision: operation.artifact_revision_id,
                },
                None,
            )
            &&& expects(plan, row, bytes_of(store, context.read_version, row))
        }),
{
    reveal(authority_draft);
    reveal(restore_authority_halt);
    let plan = authority_draft(
        store,
        context,
        operation,
        PublicationAuthorityPurpose::Cleanup,
        live(empty_plan()),
    ).plan;
    let row = RowKeyView::Operation {
        root_id: context.root_id,
        kind: OperationKind::Restore,
        operation_id: restore_operation_id,
    };
    assert(plan.predicates[0] == PlanPredicateView::Value {
        key: RowKeyView::PathCurrent {
            root_id: context.root_id,
            incarnation: operation.workspace_incarnation_id,
            path: operation.path@,
        },
        expected: None,
    });
    assert(plan.predicates[1] == PlanPredicateView::Value {
        key: RowKeyView::ArtifactRevision {
            root_id: context.root_id,
            revision: operation.artifact_revision_id,
        },
        expected: None,
    });
    assert(plan.predicates[2] == PlanPredicateView::Value {
        key: row,
        expected: bytes_of(store, context.read_version, row),
    });
}

/// A restore's manifest may be shed exactly in its own workspace, by the
/// operation that the restore has reserved for it, while the restore is aborting
/// or cleaning with no manifest bound, and while the operation is aborting,
/// cleaning, cleaned or quarantined.
pub proof fn restore_cleanups_are_allowed_exactly(
    store: MetaShard,
    context: PublicationContext,
    operation: PublishOperationRecord,
    restore_operation_id: OperationId,
)
    requires
        operation.authority == (PublishAuthority::RestoreStaging { restore_operation_id }),
    ensures
        ({
            let row = RowKeyView::Operation {
                root_id: context.root_id,
                kind: OperationKind::Restore,
                operation_id: restore_operation_id,
            };
            let restore = restore_of(store, context.read_version, row);
            authority_draft(
                store,
                context,
                operation,
                PublicationAuthorityPurpose::Cleanup,
                live(empty_plan()),
            ).halt is None <==> {
                &&& in_staged_workspace(store, context, operation, restore_operation_id)
                &&& operation.path@ == store.policy.run_manifest_path@ || operation.path@
                    == store.policy.restore_manifest_path@
                &&& operation.claim is CreateOnly
                &&& operation.dependency_count == 0
                &&& operation.dependency_depth == 0
                &&& operation.dependency_digest@ == dependency_digest_of(Seq::empty())
                &&& restore_halt(store, context.read_version, row) is None
                &&& restore is Some
                &&& restore_reserves(
                    store.policy,
                    restore.unwrap(),
                    operation,
                    restore_operation_id,
                )
                &&& reserved(restore.unwrap()).unwrap().manifests is None
                &&& restore.unwrap().phase == RestorePhase::Aborting || restore.unwrap().phase
                    == RestorePhase::Cleaning
                &&& operation.phase == PublishPhase::Aborting || operation.phase
                    == PublishPhase::Cleaning || operation.phase == PublishPhase::Cleaned
                    || operation.phase == PublishPhase::Quarantined
            }
        }),
{
    reveal(authority_draft);
    reveal(restore_authority_halt);
    let path = PlanPredicateView::Value { key: path_key_of(context, operation), expected: None };
    let first = PlanView { predicates: seq![path], ..empty_plan() };
    assert(empty_plan().predicates.push(path) =~= seq![path]);
    assert(!key_taken(first, revision_key_of(context, operation.artifact_revision_id)));
}

/// Authority does not rest on what a plan holds already: where it holds on an
/// empty plan, it holds on any.
pub proof fn authority_rests_on_the_store(
    store: MetaShard,
    context: PublicationContext,
    operation: PublishOperationRecord,
    draft: Draft,
)
    requires
        draft.halt is None,
    ensures
        authority_draft(
            store,
            context,
            operation,
            PublicationAuthorityPurpose::Forward,
            draft,
        ).halt == authority_draft(
            store,
            context,
            operation,
            PublicationAuthorityPurpose::Forward,
            live(empty_plan()),
        ).halt,
{
    reveal(authority_draft);
}

/// Whether a restore stands by what an operation has published: it has not
/// bound its manifests yet, or it has bound exactly this publication.
pub open spec fn restore_stands_by(
    policy: PublicationPolicy,
    restore: RestoreOperationRecord,
    operation: PublishOperationRecord,
    result: PublishResult,
) -> bool {
    let manifests = reserved(restore).unwrap().manifests;
    &&& reserved(restore) is Some
    &&& match restore.phase {
        RestorePhase::SourceSealed => manifests is None,
        RestorePhase::DestinationBuilding | RestorePhase::DestinationSealing | RestorePhase::Ready
        | RestorePhase::Complete => {
            let bound = if operation.path@ == policy.run_manifest_path@ {
                manifests.unwrap().run_manifest
            } else {
                manifests.unwrap().restore_manifest
            };
            &&& manifests is Some
            &&& bound.publication_operation_id == operation.operation_id
            &&& bound.workspace_incarnation_id == operation.workspace_incarnation_id
            &&& bound.artifact_revision_id == operation.artifact_revision_id
            &&& bound.body_digest_uri@ == result.body_digest_uri@
            &&& bound.manifest_digest_uri@ == digest_uri(operation.manifest_seal@)
            &&& bound.logical_size == result.logical_size
            &&& bound.content_type@ == policy.restore_manifest_content_type@
        },
        _ => false,
    }
}

/// Whether a restore's manifest may be answered for again: the shard stands at
/// the request's version, before and after looking, and the restore has
/// reserved the operation, in a workspace of the state that the restore's phase
/// calls for. While the manifest is uploaded or finalized, the restore must
/// still be waiting for it. Once it is published, the restore must stand by it,
/// the path must show exactly what was published, without fields, and the
/// revision must be available and referred to by the path.
pub open spec fn replay_stands(
    store: MetaShard,
    context: PublicationContext,
    operation: PublishOperationRecord,
    restore_operation_id: OperationId,
) -> bool {
    let row = RowKeyView::Operation {
        root_id: context.root_id,
        kind: OperationKind::Restore,
        operation_id: restore_operation_id,
    };
    let restore = restore_of(store, context.read_version, row).unwrap();
    let path_row = RowKeyView::PathCurrent {
        root_id: context.root_id,
        incarnation: operation.workspace_incarnation_id,
        path: operation.path@,
    };
    let revision_row = RowKeyView::ArtifactRevision {
        root_id: context.root_id,
        revision: operation.artifact_revision_id,
    };
    let reference_row = RowKeyView::PathRevisionRef {
        root_id: context.root_id,
        incarnation: operation.workspace_incarnation_id,
        path: operation.path@,
        revision: operation.artifact_revision_id,
    };
    let entry = path_entry_of(store, context.read_version, path_row);
    let revision = revision_of(store, context.read_version, revision_row);
    let reference = revision_ref_of(store, context.read_version, reference_row);
    let result = operation.result.unwrap();
    let workspace = workspace_read(store, context, operation);
    &&& store.current_version.unwrap().unwrap() == context.read_version
    &&& store.current_version_again.unwrap().unwrap() == context.read_version
    &&& restore_of(store, context.read_version, row) is Some
    &&& restore_reserves(store.policy, restore, operation, restore_operation_id)
    &&& operation.path@ == store.policy.run_manifest_path@ || operation.path@
        == store.policy.restore_manifest_path@
    &&& operation.claim is CreateOnly
    &&& operation.dependency_count == 0
    &&& operation.dependency_depth == 0
    &&& operation.dependency_digest@ == dependency_digest_of(Seq::empty())
    &&& workspace is Some
    &&& workspace.unwrap().incarnation_id == operation.workspace_incarnation_id
    &&& match restore.phase {
        RestorePhase::SourceSealed | RestorePhase::DestinationBuilding
        | RestorePhase::DestinationSealing | RestorePhase::Ready => {
            &&& workspace.unwrap().state == WorkspaceState::Staging
            &&& workspace.unwrap().owning_operation_id == Some(restore_operation_id)
        },
        RestorePhase::Complete => {
            &&& workspace.unwrap().state == WorkspaceState::Visible
            &&& workspace.unwrap().owning_operation_id is None
        },
        _ => false,
    }
    &&& operation.phase == PublishPhase::Uploading || operation.phase
        == PublishPhase::Finalizing || operation.phase == PublishPhase::Published
    &&& operation.phase != PublishPhase::Published ==> {
        &&& restore.phase == RestorePhase::SourceSealed
        &&& reserved(restore).unwrap().manifests is None
    }
    &&& operation.phase == PublishPhase::Published ==> {
        &&& operation.result is Some
        &&& restore_stands_by(store.policy, restore, operation, result)
        &&& entry is Some
        &&& entry.unwrap().generation == result.path_generation
        &&& entry.unwrap().artifact_revision_id == operation.artifact_revision_id
        &&& entry.unwrap().body_digest_uri == result.body_digest_uri@
        &&& entry.unwrap().manifest_digest_uri == digest_uri(operation.manifest_seal@)
        &&& entry.unwrap().logical_size == result.logical_size
        &&& entry.unwrap().dependency_count == 0
        &&& entry.unwrap().dependency_depth == 0
        &&& entry.unwrap().content_type == store.policy.restore_manifest_content_type@
        &&& entry.unwrap().producer is None
        &&& entry.unwrap().manifest_id is None
        &&& entry.unwrap().typed_index_projection.len() > 0 ==> fields_in(
            entry.unwrap().typed_index_projection,
        ) == Some(Seq::<FieldView>::empty())
        &&& operation.path@ != store.policy.run_manifest_path@ ==> {
            &&& entry.unwrap().body_digest_uri == restore.restore_manifest.body_digest_uri@
            &&& entry.unwrap().logical_size == restore.restore_manifest.logical_size
            &&& entry.unwrap().content_type == restore.restore_manifest.content_type@
        }
        &&& revision is Some
        &&& revision.unwrap().state == RevisionState::Available
        &&& revision.unwrap().strong_reference_count > 0
        &&& revision.unwrap().logical_size == entry.unwrap().logical_size
        &&& revision.unwrap().body_digest_uri == entry.unwrap().body_digest_uri
        &&& revision.unwrap().manifest_digest_uri == entry.unwrap().manifest_digest_uri
        &&& revision.unwrap().content_type == entry.unwrap().content_type
        &&& revision.unwrap().block_count == operation.manifest_row_count
        &&& revision.unwrap().dependency_count == 0
        &&& revision.unwrap().dependency_depth == 0
        &&& reference is Some
        &&& reference.unwrap().reference_epoch_at_add.value
            <= revision.unwrap().reference_epoch.value
    }
}

/// Whether every row that a replay looks at has been read.
pub open spec fn replay_is_read(
    store: MetaShard,
    context: PublicationContext,
    operation: PublishOperationRecord,
    restore_operation_id: OperationId,
) -> bool {
    let root_id = context.root_id;
    let version = context.read_version;
    &&& store.current_version matches Some(Ok(_))
    &&& store.current_version_again matches Some(Ok(_))
    &&& restore_halt(
        store,
        version,
        RowKeyView::Operation {
            root_id,
            kind: OperationKind::Restore,
            operation_id: restore_operation_id,
        },
    ) is None
    &&& workspace_halt(store, version, workspace_row_of(context, operation)) is None
    &&& path_entry_halt(
        store,
        version,
        RowKeyView::PathCurrent {
            root_id,
            incarnation: operation.workspace_incarnation_id,
            path: operation.path@,
        },
    ) is None
    &&& revision_halt(
        store,
        version,
        RowKeyView::ArtifactRevision { root_id, revision: operation.artifact_revision_id },
    ) is None
    &&& revision_ref_halt(
        store,
        version,
        RowKeyView::PathRevisionRef {
            root_id,
            incarnation: operation.workspace_incarnation_id,
            path: operation.path@,
            revision: operation.artifact_revision_id,
        },
    ) is None
}

/// A restore's manifest is answered for again exactly where its replay stands.
pub proof fn restore_replays_show_what_was_published(
    store: MetaShard,
    context: PublicationContext,
    operation: PublishOperationRecord,
    restore_operation_id: OperationId,
)
    requires
        operation.authority == (PublishAuthority::RestoreStaging { restore_operation_id }),
    ensures
        existing_replay_halt(store, context, operation) is None ==> replay_stands(
            store,
            context,
            operation,
            restore_operation_id,
        ),
        replay_is_read(store, context, operation, restore_operation_id) && replay_stands(
            store,
            context,
            operation,
            restore_operation_id,
        ) ==> existing_replay_halt(store, context, operation) is None,
{
    reveal(existing_replay_halt);
    reveal(restore_authority_halt);
    reveal(terminal_replay_halt);
    reveal(fields_in);
}

/// An operation that no restore owns is always answered for.
pub proof fn other_replays_always_stand(
    store: MetaShard,
    context: PublicationContext,
    operation: PublishOperationRecord,
)
    requires
        !(operation.authority is RestoreStaging),
    ensures
        existing_replay_halt(store, context, operation) is None,
{
    reveal(existing_replay_halt);
}

} // verus!
