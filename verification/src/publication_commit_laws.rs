//! What publishing a run manifest into its commit build leaves behind.

use crate::digest::lemma_sha256_len;
use crate::ids::{ArtifactRevisionId, OperationId, ReferenceEpoch, RevisionState};
use crate::publication_admission_laws::{is_plain, lemma_reads_are_plain, reports_place};
use crate::publication_authority::{claim_key_of, claim_release_draft, named_commit,
    operation_key_of, owner_bytes, path_key_of, revision_key_of, workspace_key_of};
use crate::publication_authority_laws::{commit_waits_for, in_open_workspace, workspace_read};
use crate::publication_batches::staged_key_of;
use crate::publication_claim_laws::holds_claim;
use crate::publication_commit_stage::{commit_payload_halt, commit_stage_ready,
    commit_stage_referred, commit_target_halt, finalize_draft, run_manifest_halt,
    run_manifest_revision};
use crate::publication_digests::{dependency_digest_of, payload_of};
use crate::publication_effect_laws::{adds_rows, count_after, expects, fields_in, installs_reference,
    installs_revision, lemma_delete_adds, lemma_expects_stays, lemma_net_concat, lemma_net_one,
    lemma_put_adds, lemma_reference_in, lemma_replace_adds, lemma_revision_in, lemma_sealed_adds,
    net_references, reference_in, writes};
use crate::publication_finalize::{asked_fields, closure_halt, first_reference,
    FinalizePublishRequest};
use crate::publication_laws::lemma_prefix_contains;
use crate::publication_lifecycle::{advancing, transitioned_of};
use crate::publication_manifest::manifest_key_of;
use crate::publication_owners::{encoded, record_fault};
use crate::publication_plan::{asserting, failing, halted, put_absent, replacing, Draft,
    OperationKind, PlanMutationView, PlanPredicateView, PlanView, PublicationContext, RowKeyView,
    StopView};
use crate::publication_records::{artifact_revision_bytes, artifact_revision_fault,
    revision_ref_bytes, ArtifactRevisionView};
use crate::publication_rules::{path_claim_fault, PublicationAuthorityPurpose};
use crate::publication_store::{build_commit_halt, build_commit_of, bytes_of, claim_halt,
    manifest_row_halt, manifest_row_of, next_payload_of, path_entry_halt, path_entry_of,
    publish_key, staged_object_halt, staged_object_of, MetaShard};
use crate::publish_records::{BuildCommitOperationRecord, PublishAuthority, PublishOperationRecord,
    PublishTransition, StagedCleanupState, StagedProviderState};
use crate::query_records::FieldView;
use vstd::prelude::*;

verus! {

/// The rows that a run manifest's publication changes, in order.
spec fn manifest_rows_changed(
    store: MetaShard,
    request: FinalizePublishRequest,
    commit_operation_id: OperationId,
) -> Seq<PlanMutationView> {
    let root_id = request.context.root_id;
    let operation = request.expected_operation.record;
    let revision = operation.artifact_revision_id;
    let claim = RowKeyView::ArtifactRevisionClaim { root_id, revision };
    let commit = build_commit_of(
        store,
        request.context.read_version,
        RowKeyView::Operation {
            root_id,
            kind: OperationKind::BuildCommit,
            operation_id: commit_operation_id,
        },
    ).unwrap();
    let opening = seq![
        PlanMutationView::Put {
            key: RowKeyView::Operation {
                root_id,
                kind: OperationKind::Publish,
                operation_id: operation.operation_id,
            },
            value: store.next_payload.unwrap().unwrap()@,
        },
        PlanMutationView::Put {
            key: RowKeyView::Operation {
                root_id,
                kind: OperationKind::BuildCommit,
                operation_id: commit_operation_id,
            },
            value: store.commit_payload.unwrap().unwrap()@,
        },
        PlanMutationView::Put {
            key: RowKeyView::ArtifactRevision { root_id, revision },
            value: artifact_revision_bytes(run_manifest_revision(request)),
        },
    ];
    let released = if holds_claim(store, request.context, revision, operation.operation_id) {
        seq![PlanMutationView::Delete { key: claim }]
    } else {
        Seq::empty()
    };
    opening + released + seq![
        PlanMutationView::Put {
            key: RowKeyView::CommitRef { root_id, commit_id: commit.commit_id.bytes@, revision },
            value: revision_ref_bytes(first_reference()),
        },
    ]
}

pub proof fn lemma_release_adds(
    store: MetaShard,
    context: PublicationContext,
    revision: ArtifactRevisionId,
    operation_id: OperationId,
    draft: Draft,
)
    ensures
        adds_rows(
            draft,
            claim_release_draft(store, context, revision, operation_id, draft),
            if holds_claim(store, context, revision, operation_id) {
                seq![
                    PlanMutationView::Delete {
                        key: RowKeyView::ArtifactRevisionClaim {
                            root_id: context.root_id,
                            revision,
                        },
                    },
                ]
            } else {
                Seq::empty()
            },
        ),
{
    reveal(claim_release_draft);
    let key = claim_key_of(context, revision);
    let opened = halted(draft, claim_halt(store, context.read_version, key));
    assert(draft.plan.mutations + Seq::<PlanMutationView>::empty() =~= draft.plan.mutations);
    lemma_delete_adds(opened, key, bytes_of(store, context.read_version, key).unwrap());
}

proof fn lemma_manifest_rows(
    store: MetaShard,
    request: FinalizePublishRequest,
    commit_operation_id: OperationId,
)
    requires
        request.expected_operation.record.authority == (PublishAuthority::CommitStaging {
            commit_operation_id,
        }),
        finalize_draft(store, request).halt is None,
    ensures
        commit_stage_ready(store, request, commit_operation_id).halt is None,
        artifact_revision_fault(run_manifest_revision(request)) is None,
        finalize_draft(store, request).plan.mutations == manifest_rows_changed(
            store,
            request,
            commit_operation_id,
        ),
        finalize_draft(store, request).plan.events.len() == 0,
        expects(
            finalize_draft(store, request).plan,
            RowKeyView::CommitRef {
                root_id: request.context.root_id,
                commit_id: build_commit_of(
                    store,
                    request.context.read_version,
                    RowKeyView::Operation {
                        root_id: request.context.root_id,
                        kind: OperationKind::BuildCommit,
                        operation_id: commit_operation_id,
                    },
                ).unwrap().commit_id.bytes@,
                revision: request.expected_operation.record.artifact_revision_id,
            },
            None,
        ),
        expects(
            finalize_draft(store, request).plan,
            RowKeyView::ArtifactRevision {
                root_id: request.context.root_id,
                revision: request.expected_operation.record.artifact_revision_id,
            },
            None,
        ),
{
    let context = request.context;
    let expected = request.expected_operation;
    let operation = expected.record;
    let revision = operation.artifact_revision_id;
    let ready = commit_stage_ready(store, request, commit_operation_id);
    let advanced = advancing(store, context, expected, ready);
    let encoded = halted(advanced, commit_payload_halt(store, request, commit_operation_id));
    let commit_key = operation_key_of(context, OperationKind::BuildCommit, commit_operation_id);
    let owner = owner_bytes(store, context, OperationKind::BuildCommit, commit_operation_id);
    let bound = replacing(
        encoded,
        commit_key,
        owner.unwrap(),
        store.commit_payload.unwrap().unwrap()@,
    );
    let path = path_key_of(context, operation);
    let pinned = asserting(bound, path, bytes_of(store, context.read_version, path));
    let checked = halted(
        pinned,
        failing(record_fault(artifact_revision_fault(run_manifest_revision(request)))),
    );
    let record = artifact_revision_bytes(run_manifest_revision(request));
    let created = put_absent(checked, revision_key_of(context, revision), record);
    let released = claim_release_draft(store, context, revision, operation.operation_id, created);
    let referred = commit_stage_referred(store, request, commit_operation_id);
    let draft = finalize_draft(store, request);
    reveal(next_payload_of);
    lemma_replace_adds(
        ready,
        publish_key(context, operation),
        payload_of(expected),
        next_payload_of(store),
    );
    lemma_replace_adds(
        encoded,
        commit_key,
        owner.unwrap(),
        store.commit_payload.unwrap().unwrap()@,
    );
    lemma_put_adds(checked, revision_key_of(context, revision), record);
    lemma_release_adds(store, context, revision, operation.operation_id, created);
    let reference = RowKeyView::CommitRef {
        root_id: context.root_id,
        commit_id: named_commit(store, context, commit_operation_id).unwrap().commit_id.bytes@,
        revision,
    };
    lemma_put_adds(released, reference, revision_ref_bytes(first_reference()));
    lemma_sealed_adds(
        store,
        context,
        transitioned_of(store),
        PublicationAuthorityPurpose::Forward,
        referred,
    );
    assert(referred.halt is None && released.halt is None && created.halt is None);
    assert(ready.plan.mutations =~= Seq::empty());
    assert(draft.plan.mutations =~= manifest_rows_changed(store, request, commit_operation_id));
    lemma_expects_stays(referred, draft, Seq::empty(), reference, None);
    lemma_prefix_contains(
        created.plan.predicates,
        released.plan.predicates,
        PlanPredicateView::Value { key: revision_key_of(context, revision), expected: None },
    );
    lemma_prefix_contains(
        released.plan.predicates,
        referred.plan.predicates,
        PlanPredicateView::Value { key: revision_key_of(context, revision), expected: None },
    );
    lemma_expects_stays(
        referred,
        draft,
        Seq::empty(),
        revision_key_of(context, revision),
        None,
    );
    reveal(claim_release_draft);
    assert(referred.plan.events =~= Seq::empty());
}

/// The commit build that an operation is staged for, as it was read.
pub open spec fn building_commit(
    store: MetaShard,
    context: PublicationContext,
    commit_operation_id: OperationId,
) -> Option<BuildCommitOperationRecord> {
    build_commit_of(
        store,
        context.read_version,
        RowKeyView::Operation {
            root_id: context.root_id,
            kind: OperationKind::BuildCommit,
            operation_id: commit_operation_id,
        },
    )
}

/// A run manifest that is published into its commit build is held by the
/// commit: the command puts the commit's reference on the revision, of the
/// revision's first epoch, where there was none, and no reference of a path or
/// of a dependent. It creates the revision with one reference counted.
pub proof fn run_manifests_are_referred_to_by_their_commit(
    store: MetaShard,
    request: FinalizePublishRequest,
    commit_operation_id: OperationId,
)
    requires
        request.expected_operation.record.authority == (PublishAuthority::CommitStaging {
            commit_operation_id,
        }),
        finalize_draft(store, request).halt is None,
    ensures
        building_commit(store, request.context, commit_operation_id) is Some,
        installs_reference(
            finalize_draft(store, request).plan,
            RowKeyView::CommitRef {
                root_id: request.context.root_id,
                commit_id: building_commit(
                    store,
                    request.context,
                    commit_operation_id,
                ).unwrap().commit_id.bytes@,
                revision: request.expected_operation.record.artifact_revision_id,
            },
            1,
        ),
        expects(
            finalize_draft(store, request).plan,
            RowKeyView::ArtifactRevision {
                root_id: request.context.root_id,
                revision: request.expected_operation.record.artifact_revision_id,
            },
            None,
        ),
        installs_revision(
            finalize_draft(store, request).plan,
            RowKeyView::ArtifactRevision {
                root_id: request.context.root_id,
                revision: request.expected_operation.record.artifact_revision_id,
            },
            ArtifactRevisionView {
                logical_size: request.artifact.logical_size,
                body_digest_uri: request.artifact.body_digest_uri@,
                manifest_digest_uri: request.artifact.manifest_digest_uri@,
                block_count: 1,
                dependency_count: 0,
                dependency_depth: 0,
                dependency_digest: dependency_digest_of(Seq::empty()),
                content_type: request.artifact.content_type@,
                state: RevisionState::Available,
                reference_epoch: ReferenceEpoch { value: 1 },
                strong_reference_count: 1,
                last_zero_ref_version: None,
            },
        ),
        forall|i: int|
            0 <= i < finalize_draft(store, request).plan.mutations.len() ==> {
                let key = (#[trigger] finalize_draft(store, request).plan.mutations[i]).key();
                !(key is PathRevisionRef) && !(key is DependencyRef)
            },
{
    lemma_manifest_rows(store, request, commit_operation_id);
    lemma_commit_is_read(store, request, commit_operation_id);
    lemma_manifest_plan(
        finalize_draft(store, request).plan,
        store,
        request,
        commit_operation_id,
    );
}

proof fn lemma_manifest_plan(
    plan: PlanView,
    store: MetaShard,
    request: FinalizePublishRequest,
    commit_operation_id: OperationId,
)
    requires
        plan.mutations == manifest_rows_changed(store, request, commit_operation_id),
        artifact_revision_fault(run_manifest_revision(request)) is None,
    ensures
        exists|value: Seq<u8>| #[trigger]
            writes(
                plan,
                RowKeyView::CommitRef {
                    root_id: request.context.root_id,
                    commit_id: building_commit(
                        store,
                        request.context,
                        commit_operation_id,
                    ).unwrap().commit_id.bytes@,
                    revision: request.expected_operation.record.artifact_revision_id,
                },
                value,
            ),
        forall|key: RowKeyView, value: Seq<u8>| #[trigger]
            writes(plan, key, value) && key is CommitRef ==> {
                &&& reference_in(value) is Some
                &&& reference_in(value).unwrap().reference_epoch_at_add.value == 1
            },
        installs_revision(
            plan,
            RowKeyView::ArtifactRevision {
                root_id: request.context.root_id,
                revision: request.expected_operation.record.artifact_revision_id,
            },
            run_manifest_revision(request),
        ),
        forall|i: int|
            0 <= i < plan.mutations.len() ==> !((#[trigger] plan.mutations[i]).key()
                is PathRevisionRef) && !(plan.mutations[i].key() is DependencyRef),
{
    broadcast use lemma_sha256_len;

    let root_id = request.context.root_id;
    let revision = request.expected_operation.record.artifact_revision_id;
    let rows = plan.mutations;
    let revision_row = RowKeyView::ArtifactRevision { root_id, revision };
    let record = artifact_revision_bytes(run_manifest_revision(request));
    assert(rows[2] == PlanMutationView::Put { key: revision_row, value: record });
    assert(writes(plan, revision_row, record));
    lemma_revision_in(run_manifest_revision(request));
    let reference = RowKeyView::CommitRef {
        root_id,
        commit_id: building_commit(
            store,
            request.context,
            commit_operation_id,
        ).unwrap().commit_id.bytes@,
        revision,
    };
    assert(rows[rows.len() - 1] == PlanMutationView::Put {
        key: reference,
        value: revision_ref_bytes(first_reference()),
    });
    assert(writes(plan, reference, revision_ref_bytes(first_reference())));
    lemma_reference_in(ReferenceEpoch { value: 1 });
}

proof fn lemma_commit_is_read(
    store: MetaShard,
    request: FinalizePublishRequest,
    commit_operation_id: OperationId,
)
    requires
        commit_stage_ready(store, request, commit_operation_id).halt is None,
    ensures
        building_commit(store, request.context, commit_operation_id) is Some,
{
    reveal(commit_target_halt);
}

/// Publishing a run manifest changes its operation, the commit build, the
/// revision, its claim and the commit's reference, and no other row: neither
/// the path nor the workspace. It tells nobody.
pub proof fn run_manifests_change_nothing_visible(
    store: MetaShard,
    request: FinalizePublishRequest,
    commit_operation_id: OperationId,
)
    requires
        request.expected_operation.record.authority == (PublishAuthority::CommitStaging {
            commit_operation_id,
        }),
        finalize_draft(store, request).halt is None,
    ensures
        finalize_draft(store, request).plan.events.len() == 0,
        forall|i: int|
            0 <= i < finalize_draft(store, request).plan.mutations.len() ==> match (
            #[trigger] finalize_draft(store, request).plan.mutations[i]).key() {
                RowKeyView::Operation { root_id, kind, operation_id } => {
                    &&& root_id == request.context.root_id
                    &&& kind == OperationKind::Publish ==> operation_id
                        == request.expected_operation.record.operation_id
                    &&& kind == OperationKind::BuildCommit ==> operation_id == commit_operation_id
                    &&& kind != OperationKind::Restore
                },
                RowKeyView::ArtifactRevision { root_id, revision } => root_id
                    == request.context.root_id && revision
                    == request.expected_operation.record.artifact_revision_id,
                RowKeyView::ArtifactRevisionClaim { root_id, revision } => root_id
                    == request.context.root_id && revision
                    == request.expected_operation.record.artifact_revision_id,
                RowKeyView::CommitRef { root_id, revision, .. } => root_id
                    == request.context.root_id && revision
                    == request.expected_operation.record.artifact_revision_id,
                _ => false,
            },
        writes(
            finalize_draft(store, request).plan,
            RowKeyView::Operation {
                root_id: request.context.root_id,
                kind: OperationKind::BuildCommit,
                operation_id: commit_operation_id,
            },
            store.commit_payload.unwrap().unwrap()@,
        ),
        writes(
            finalize_draft(store, request).plan,
            RowKeyView::Operation {
                root_id: request.context.root_id,
                kind: OperationKind::Publish,
                operation_id: request.expected_operation.record.operation_id,
            },
            store.next_payload.unwrap().unwrap()@,
        ),
{
    lemma_manifest_rows(store, request, commit_operation_id);
    let rows = finalize_draft(store, request).plan.mutations;
    assert(rows[0].key() is Operation && rows[1].key() is Operation);
}

/// References are balanced: for every revision, publishing a run manifest
/// changes the references that its record counts by those that the command
/// puts, less those that it removes. The published revision had none.
pub proof fn run_manifest_references_are_balanced(
    store: MetaShard,
    request: FinalizePublishRequest,
    commit_operation_id: OperationId,
    target: ArtifactRevisionId,
    count: int,
)
    requires
        request.expected_operation.record.authority == (PublishAuthority::CommitStaging {
            commit_operation_id,
        }),
        finalize_draft(store, request).halt is None,
        target == request.expected_operation.record.artifact_revision_id ==> count == 0,
    ensures
        count_after(
            count,
            finalize_draft(store, request).plan.mutations,
            request.context.root_id,
            target,
        ) - count == net_references(
            finalize_draft(store, request).plan.mutations,
            request.context.root_id,
            target,
        ),
{
    lemma_manifest_rows(store, request, commit_operation_id);
    lemma_manifest_balance(store, request, commit_operation_id, target, count);
}

proof fn lemma_manifest_balance(
    store: MetaShard,
    request: FinalizePublishRequest,
    commit_operation_id: OperationId,
    target: ArtifactRevisionId,
    count: int,
)
    requires
        artifact_revision_fault(run_manifest_revision(request)) is None,
        target == request.expected_operation.record.artifact_revision_id ==> count == 0,
    ensures
        count_after(
            count,
            manifest_rows_changed(store, request, commit_operation_id),
            request.context.root_id,
            target,
        ) - count == net_references(
            manifest_rows_changed(store, request, commit_operation_id),
            request.context.root_id,
            target,
        ),
{
    broadcast use lemma_sha256_len;

    lemma_revision_in(run_manifest_revision(request));
    let root = request.context.root_id;
    let rows = manifest_rows_changed(store, request, commit_operation_id);
    let a = seq![rows[0]];
    let b = seq![rows[1]];
    let c = seq![rows[2]];
    let n = rows.len() as int;
    let d = if n == 5 {
        seq![rows[3]]
    } else {
        Seq::empty()
    };
    let e = seq![rows[n - 1]];
    assert(rows =~= (((a + b) + c) + d) + e);
    lemma_net_concat(a, b, root, target, count);
    lemma_net_concat(a + b, c, root, target, count);
    lemma_net_concat((a + b) + c, d, root, target, count);
    lemma_net_concat(((a + b) + c) + d, e, root, target, count);
    lemma_net_one(rows[0], root, target, count);
    lemma_net_one(rows[1], root, target, count);
    lemma_net_one(rows[2], root, target, count);
    let counted = count_after(count, (a + b) + c, root, target);
    if n == 5 {
        lemma_net_one(rows[3], root, target, counted);
    }
    lemma_net_one(rows[n - 1], root, target, counted);
}

/// Whether a finalization publishes a run manifest: one plain object without
/// dependencies or fields, at the reserved path, whose one manifest row and one
/// staged object are the artifact.
pub open spec fn is_plain_manifest(store: MetaShard, request: FinalizePublishRequest) -> bool {
    let context = request.context;
    let operation = request.expected_operation.record;
    let artifact = request.artifact;
    let row = manifest_row_of(
        store,
        context.read_version,
        RowKeyView::ArtifactManifest {
            root_id: context.root_id,
            revision: operation.artifact_revision_id,
            object_index: 0,
        },
    );
    let object = staged_object_of(
        store,
        context.read_version,
        RowKeyView::StagedObject {
            root_id: context.root_id,
            operation_id: operation.operation_id,
            sequence: 0,
        },
    );
    &&& operation.path@ == store.policy.run_manifest_path@
    &&& operation.staged_object_count == 1
    &&& operation.manifest_row_count == 1
    &&& operation.dependency_count == 0
    &&& operation.dependency_depth == 0
    &&& request.dependency_owner_revision_ids@.len() == 0
    &&& artifact.content_type@ == "application/json"@
    &&& artifact.producer is None
    &&& artifact.manifest_id is None
    &&& row is Some
    &&& row.unwrap().physical_owner_revision_id == operation.artifact_revision_id
    &&& row.unwrap().physical_object_index == 0
    &&& row.unwrap().logical_offset == 0
    &&& row.unwrap().offset == 0
    &&& row.unwrap().length == artifact.logical_size
    &&& row.unwrap().digest_uri@ == artifact.body_digest_uri@
    &&& row.unwrap().append_segment is None
    &&& object is Some
    &&& object.unwrap().object_sequence == 0
    &&& object.unwrap().artifact_revision_id == operation.artifact_revision_id
    &&& object.unwrap().object_key.text@ == row.unwrap().object_key.text@
    &&& object.unwrap().expected_length == artifact.logical_size
    &&& object.unwrap().expected_digest_uri@ == artifact.body_digest_uri@
    &&& object.unwrap().provider_state == StagedProviderState::Uploaded
    &&& object.unwrap().cleanup_state == StagedCleanupState::Owned
}

/// A run manifest goes on exactly where it is plain.
pub proof fn run_manifests_are_plain(store: MetaShard, request: FinalizePublishRequest)
    requires
        closure_halt(store, request) is None,
    ensures
        run_manifest_halt(store, request) is None <==> {
            let context = request.context;
            let operation = request.expected_operation.record;
            &&& manifest_row_halt(
                store,
                context.read_version,
                RowKeyView::ArtifactManifest {
                    root_id: context.root_id,
                    revision: operation.artifact_revision_id,
                    object_index: 0,
                },
            ) is None
            &&& staged_object_halt(
                store,
                context.read_version,
                RowKeyView::StagedObject {
                    root_id: context.root_id,
                    operation_id: operation.operation_id,
                    sequence: 0,
                },
            ) is None
            &&& is_plain_manifest(store, request)
            &&& fields_in(request.artifact.typed_index_projection@) == Some(
                Seq::<FieldView>::empty(),
            )
        },
{
    reveal(run_manifest_halt);
    reveal(closure_halt);
    reveal(fields_in);
    assert(asked_fields(request).len() == 0 ==> asked_fields(request)
        =~= Seq::<FieldView>::empty());
}

/// A run manifest finds its place exactly where its workspace is open and can
/// go one revision further, the path meets its claim, and the commit build
/// waits for it and can count one more reference.
pub proof fn run_manifests_need_their_build(
    store: MetaShard,
    request: FinalizePublishRequest,
    commit_operation_id: OperationId,
)
    ensures
        commit_target_halt(store, request, commit_operation_id) is None <==> {
            let context = request.context;
            let operation = request.expected_operation.record;
            let path = RowKeyView::PathCurrent {
                root_id: context.root_id,
                incarnation: operation.workspace_incarnation_id,
                path: operation.path@,
            };
            let build = RowKeyView::Operation {
                root_id: context.root_id,
                kind: OperationKind::BuildCommit,
                operation_id: commit_operation_id,
            };
            let commit = building_commit(store, context, commit_operation_id);
            &&& in_open_workspace(store, context, operation)
            &&& workspace_read(store, context, operation).unwrap().workspace_revision.value
                < u64::MAX
            &&& path_entry_halt(store, context.read_version, path) is None
            &&& path_claim_fault(
                operation.claim,
                path_entry_of(store, context.read_version, path),
            ) is None
            &&& build_commit_halt(store, context.read_version, build) is None
            &&& commit is Some
            &&& commit_waits_for(commit.unwrap(), operation, commit_operation_id)
            &&& commit.unwrap().revision_ref_count < u64::MAX
        },
{
    reveal(commit_target_halt);
}

/// What the publication of a run manifest asks to be stored of the commit
/// build: bound to the artifact, and with one more reference counted.
pub proof fn run_manifests_are_bound_to_their_build(
    store: MetaShard,
    request: FinalizePublishRequest,
    commit_operation_id: OperationId,
)
    requires
        store.commit_payload is None,
        commit_stage_ready(store, request, commit_operation_id).halt is None,
    ensures
        commit_payload_halt(store, request, commit_operation_id) == Some(
            StopView::EncodeCommit {
                logical_size: request.artifact.logical_size,
                body_digest_uri: request.artifact.body_digest_uri@,
                manifest_digest_uri: request.artifact.manifest_digest_uri@,
                content_type: request.artifact.content_type@,
                revision_ref_count: (building_commit(
                    store,
                    request.context,
                    commit_operation_id,
                ).unwrap().revision_ref_count + 1) as u64,
            },
        ),
        building_commit(
            store,
            request.context,
            commit_operation_id,
        ).unwrap().revision_ref_count < u64::MAX,
{
    reveal(commit_target_halt);
}

/// What the publication of a run manifest asks its codec to do: to publish the
/// operation as it was given, with the path's next generation, the workspace's
/// next revision, and the artifact's size and digest as the result.
pub proof fn run_manifests_report_their_place(
    store: MetaShard,
    request: FinalizePublishRequest,
    commit_operation_id: OperationId,
    operation: PublishOperationRecord,
    transition: PublishTransition,
)
    requires
        store.transitioned is None,
        commit_stage_ready(store, request, commit_operation_id).halt == Some(
            StopView::Transition { operation, transition },
        ),
    ensures
        operation == request.expected_operation.record,
        transition is Publish,
        reports_place(store, request, transition->Publish_result),
{
    let context = request.context;
    let version = context.read_version;
    let record = request.expected_operation.record;
    assert(is_plain(run_manifest_halt(store, request))) by {
        reveal(run_manifest_halt);
        lemma_reads_are_plain(store, version, manifest_key_of(context, record, 0));
        lemma_reads_are_plain(store, version, staged_key_of(context, record, 0));
    }
    assert(is_plain(commit_target_halt(store, request, commit_operation_id))) by {
        reveal(commit_target_halt);
        lemma_reads_are_plain(store, version, workspace_key_of(context, record));
        lemma_reads_are_plain(store, version, path_key_of(context, record));
        lemma_reads_are_plain(
            store,
            version,
            operation_key_of(context, OperationKind::BuildCommit, commit_operation_id),
        );
    }
    assert(commit_target_halt(store, request, commit_operation_id) is None);
    reveal(commit_target_halt);
}

} // verus!
