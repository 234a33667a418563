//! What a finalization needs before it is planned, and what it asks for.

use crate::change_events::{change_event_bytes, locator_bytes, locator_round_trip,
    PathIndexLocatorState};
use crate::ids::{ArtifactRevisionId, MetadataFamily, PathIndexGenerationId, ReadVersion,
    RevisionState, WorkspaceState};
use crate::index_keys::{locator_key, path_digest_of};
use crate::publication_authority::{claim_release_draft, lemma_authority_after_halt,
    restore_authority_halt};
use crate::publication_authority_laws::{reserved, workspace_read, workspace_row_of};
use crate::publication_commit_stage::finalize_halt;
use crate::publication_digests::{dependency_digest_of, digest_uri, fault_upto, lemma_fault_none,
    seals_fault};
use crate::publication_effect_laws::{adds_rows, expects, fields_in, lemma_adds_trans,
    lemma_expects_stays, lemma_put_adds, locator_in, writes};
use crate::publication_error::PublicationError;
use crate::publication_finalize::{asked_fields, asked_rows, closure_halt, event_of,
    execution_context, index_draft, index_pin_step, locator_payload_of, place_draft,
    projections_fault, publication_draft, publication_halt, publication_version, publish_result_of,
    revision_draft, settlement_halt, stage_of, target_halt, FinalizePublishRequest,
    PublishedArtifact};
use crate::publication_index_stage::{index_rows_of, index_step, locator_row_of, stage_draft,
    stage_halt, stage_receipt, IndexStageView};
use crate::publication_lifecycle::{transition_halt, transitioned_of};
use crate::publication_outcome_laws::{entry_before, fields_of_entry, revision_before, shown_before};
use crate::publication_owners::{available_halt, deepest, dependencies_halt, owners_halt,
    reference_fault, references_fault, shown_revision, touch_draft, touch_step, touched,
    touches_draft};
use crate::publication_plan::{asserting, empty_plan, halted, keeps_halts, lemma_stepped_halt, live,
    put_absent, stepped, Draft, OperationKind, PlanMutationView, PlanPredicateView,
    PlannedCommandView, PublicationContext, RowKeyView, StopView};
use crate::publication_rule_laws::claimed;
use crate::publication_rules::PublicationAuthorityPurpose;
use crate::publication_store::{build_commit_halt, bytes_of, claim_halt, current_operation_halt,
    manifest_row_halt, manifest_row_of, next_payload_halt, path_entry_halt, publish_halt, read_halt,
    restore_halt, restore_of, revision_halt, revision_ref_halt, revision_ref_of, staged_object_halt,
    workspace_halt, MetaShard, PublicationPolicy};
use crate::publish_records::{ArtifactManifestRow, PublishAuthority, PublishClaim,
    PublishOperationRecord, PublishPhase, PublishResult, PublishTransition, RestoreOperationRecord,
    RestorePhase};
use crate::query_records::{projection_fault, FieldView, MAX_QUERY_SCALAR_BYTES};
use crate::text::{path_fault, utf8};
use vstd::prelude::*;

verus! {

/// The last row of an operation's manifest, as it was read.
pub open spec fn last_manifest_row(
    store: MetaShard,
    context: PublicationContext,
    operation: PublishOperationRecord,
) -> Option<ArtifactManifestRow> {
    match operation.manifest_last_position {
        None => None,
        Some(last) => manifest_row_of(
            store,
            context.read_version,
            RowKeyView::ArtifactManifest {
                root_id: context.root_id,
                revision: operation.artifact_revision_id,
                object_index: last.object_index,
            },
        ),
    }
}

/// Whether an artifact is the manifest that a restore waits for: the restore's
/// source is sealed and nothing is bound, and the artifact is plain, of the
/// manifests' content type, and for the restore manifest exactly the sealed
/// one.
pub open spec fn closes_restore(
    policy: PublicationPolicy,
    restore: RestoreOperationRecord,
    operation: PublishOperationRecord,
    artifact: PublishedArtifact,
) -> bool {
    &&& restore.phase == RestorePhase::SourceSealed
    &&& reserved(restore).unwrap().manifests is None
    &&& operation.dependency_count == 0
    &&& operation.dependency_depth == 0
    &&& artifact.logical_size > 0
    &&& artifact.content_type@ == policy.restore_manifest_content_type@
    &&& artifact.producer is None
    &&& artifact.manifest_id is None
    &&& fields_in(artifact.typed_index_projection@) == Some(Seq::<FieldView>::empty())
    &&& operation.path@ != policy.run_manifest_path@ ==> {
        &&& artifact.logical_size == restore.restore_manifest.logical_size
        &&& artifact.body_digest_uri@ == restore.restore_manifest.body_digest_uri@
        &&& artifact.content_type@ == restore.restore_manifest.content_type@
    }
}

/// Whether the artifact of a finalization is the one that its operation has
/// sealed: the sealed dependencies, none of them the revision itself, the
/// sealed manifest, as long as the manifest reaches, with readable fields, and
/// for a restore's manifest the one that the restore waits for.
pub open spec fn artifact_is_sealed(store: MetaShard, request: FinalizePublishRequest) -> bool {
    let operation = request.expected_operation.record;
    let owners = request.dependency_owner_revision_ids@;
    let last = last_manifest_row(store, request.context, operation);
    &&& operation.phase == PublishPhase::Finalizing
    &&& owners.len() == operation.dependency_count
    &&& owners.len() <= 64
    &&& forall|i: int, j: int| 0 <= i < j < owners.len() ==> owners[i].bits < owners[j].bits
    &&& dependency_digest_of(owners) == operation.dependency_digest@
    &&& !owners.contains(operation.artifact_revision_id)
    &&& request.artifact.manifest_digest_uri@ == digest_uri(operation.manifest_seal@)
    &&& request.artifact.logical_size == (match last {
        None => 0,
        Some(row) => row.logical_offset + row.length,
    })
    &&& fields_in(request.artifact.typed_index_projection@) is Some
    &&& operation.authority matches PublishAuthority::RestoreStaging { restore_operation_id }
        ==> closes_restore(
        store.policy,
        restore_of(
            store,
            request.context.read_version,
            RowKeyView::Operation {
                root_id: request.context.root_id,
                kind: OperationKind::Restore,
                operation_id: restore_operation_id,
            },
        ).unwrap(),
        operation,
        request.artifact,
    )
}

/// Whether everything that the sealing of a finalization rests on is read and
/// in order.
pub open spec fn sealing_is_read(store: MetaShard, request: FinalizePublishRequest) -> bool {
    let operation = request.expected_operation.record;
    &&& seals_fault(request.expected_operation) is None
    &&& current_operation_halt(store, request.context, request.expected_operation) is None
    &&& operation.manifest_last_position matches Some(last) ==> {
        &&& manifest_row_halt(
            store,
            request.context.read_version,
            RowKeyView::ArtifactManifest {
                root_id: request.context.root_id,
                revision: operation.artifact_revision_id,
                object_index: last.object_index,
            },
        ) is None
        &&& last_manifest_row(store, request.context, operation) is Some
    }
    &&& operation.authority matches PublishAuthority::RestoreStaging { restore_operation_id }
        ==> restore_authority_halt(store, request.context, operation, restore_operation_id) is None
}

/// A finalization goes on exactly with the artifact that its operation has
/// sealed.
pub proof fn finalizations_need_the_sealed_artifact(
    store: MetaShard,
    request: FinalizePublishRequest,
)
    ensures
        closure_halt(store, request) is None <==> sealing_is_read(store, request)
            && artifact_is_sealed(store, request),
{
    reveal(closure_halt);
    reveal(fields_in);
    reveal(restore_authority_halt);
}

/// Whether a publication finds its place: a workspace of the operation's
/// incarnation and state that can go one revision further, a path that meets
/// the claim with readable fields, and no such revision yet.
pub open spec fn place_is_free(store: MetaShard, request: FinalizePublishRequest) -> bool {
    let context = request.context;
    let operation = request.expected_operation.record;
    let workspace = workspace_read(store, context, operation);
    let entry = entry_before(store, request);
    &&& workspace is Some
    &&& workspace.unwrap().incarnation_id == operation.workspace_incarnation_id
    &&& workspace.unwrap().workspace_revision.value < u64::MAX
    &&& match operation.authority {
        PublishAuthority::RestoreStaging { restore_operation_id } => {
            &&& workspace.unwrap().state == WorkspaceState::Staging
            &&& workspace.unwrap().owning_operation_id == Some(restore_operation_id)
        },
        _ => {
            &&& workspace.unwrap().state == WorkspaceState::Visible
            &&& workspace.unwrap().owning_operation_id is None
        },
    }
    &&& fields_of_entry(entry) is Some
    &&& match (claimed(operation.claim), entry) {
        (None, None) => true,
        (Some(generation), Some(entry)) => {
            &&& entry.generation == generation
            &&& generation.value < u64::MAX
            &&& operation.claim matches PublishClaim::Append { base_revision_id, .. }
                ==> entry.artifact_revision_id == base_revision_id
        },
        _ => false,
    }
    &&& bytes_of(
        store,
        context.read_version,
        RowKeyView::ArtifactRevision {
            root_id: context.root_id,
            revision: operation.artifact_revision_id,
        },
    ) is None
}

/// A publication goes on exactly where it finds its place.
pub proof fn publications_need_a_free_place(store: MetaShard, request: FinalizePublishRequest)
    ensures
        target_halt(store, request) is None <==> {
            let context = request.context;
            let operation = request.expected_operation.record;
            &&& request.expected_operation.payload is Ok
            &&& workspace_halt(
                store,
                context.read_version,
                workspace_row_of(context, operation),
            ) is None
            &&& path_entry_halt(
                store,
                context.read_version,
                RowKeyView::PathCurrent {
                    root_id: context.root_id,
                    incarnation: operation.workspace_incarnation_id,
                    path: operation.path@,
                },
            ) is None
            &&& read_halt(
                store,
                context.read_version,
                RowKeyView::ArtifactRevision {
                    root_id: context.root_id,
                    revision: operation.artifact_revision_id,
                },
            ) is None
            &&& place_is_free(store, request)
        },
{
    reveal(target_halt);
    reveal(fields_in);
}

/// Whether a revision is known to be available.
pub open spec fn is_available(
    store: MetaShard,
    request: FinalizePublishRequest,
    revision: ArtifactRevisionId,
) -> bool {
    &&& revision_halt(
        store,
        request.context.read_version,
        RowKeyView::ArtifactRevision { root_id: request.context.root_id, revision },
    ) is None
    &&& revision_before(store, request, revision) is Some
    &&& revision_before(store, request, revision).unwrap().state == RevisionState::Available
}

/// How deep the dependencies of a finalization reach.
pub open spec fn reaches(store: MetaShard, request: FinalizePublishRequest, depth: int) -> bool {
    let owners = request.dependency_owner_revision_ids@;
    &&& forall|i: int|
        0 <= i < owners.len() ==> revision_before(
            store,
            request,
            #[trigger] owners[i],
        ).unwrap().dependency_depth <= depth
    &&& exists|i: int|
        0 <= i < owners.len() && revision_before(
            store,
            request,
            #[trigger] owners[i],
        ).unwrap().dependency_depth == depth
}

/// A publication that goes on depends on available revisions only, and stands
/// one deeper than the deepest of them; without dependencies its depth is zero.
/// The revision that the path showed is another one, is available, and is
/// referred to by the path, by a reference that is not ahead of its epoch.
pub proof fn publications_need_their_dependencies(
    store: MetaShard,
    request: FinalizePublishRequest,
)
    requires
        owners_halt(
            store,
            request.context,
            request.expected_operation.record,
            request.dependency_owner_revision_ids@,
        ) is None,
    ensures
        ({
            let operation = request.expected_operation.record;
            let owners = request.dependency_owner_revision_ids@;
            &&& forall|i: int|
                0 <= i < owners.len() ==> is_available(store, request, #[trigger] owners[i])
            &&& owners.len() == 0 ==> operation.dependency_depth == 0
            &&& owners.len() > 0 ==> reaches(store, request, operation.dependency_depth - 1)
            &&& shown_before(store, request) matches Some(shown) ==> {
                let row = RowKeyView::PathRevisionRef {
                    root_id: request.context.root_id,
                    incarnation: operation.workspace_incarnation_id,
                    path: operation.path@,
                    revision: shown,
                };
                let reference = revision_ref_of(store, request.context.read_version, row);
                &&& shown != operation.artifact_revision_id
                &&& is_available(store, request, shown)
                &&& reference is Some
                &&& reference.unwrap().reference_epoch_at_add.value <= revision_before(
                    store,
                    request,
                    shown,
                ).unwrap().reference_epoch.value
            }
        }),
{
    let context = request.context;
    let operation = request.expected_operation.record;
    let owners = request.dependency_owner_revision_ids@;
    reveal(owners_halt);
    assert forall|i: int| 0 <= i < owners.len() implies is_available(
        store,
        request,
        #[trigger] owners[i],
    ) by {
        reveal(available_halt);
        lemma_fault_none(dependencies_halt(store, context, owners), owners.len(), i);
    }
    lemma_deepest(store, request, owners.len());
    if shown_before(store, request) is Some {
        let shown = shown_before(store, request).unwrap();
        if owners.contains(shown) {
            let i = choose|i: int| 0 <= i < owners.len() && owners[i] == shown;
            assert(is_available(store, request, owners[i]));
        } else {
            reveal(available_halt);
        }
    }
}

proof fn lemma_deepest(store: MetaShard, request: FinalizePublishRequest, n: nat)
    requires
        n <= request.dependency_owner_revision_ids@.len(),
    ensures
        ({
            let owners = request.dependency_owner_revision_ids@;
            let deep = deepest(store, request.context, owners, n);
            &&& deep >= 0
            &&& forall|i: int|
                0 <= i < n ==> revision_before(
                    store,
                    request,
                    #[trigger] owners[i],
                ).unwrap().dependency_depth <= deep
            &&& n > 0 ==> exists|i: int|
                0 <= i < n && revision_before(
                    store,
                    request,
                    #[trigger] owners[i],
                ).unwrap().dependency_depth == deep
        }),
    decreases n,
{
    let owners = request.dependency_owner_revision_ids@;
    if n > 0 {
        let m = (n - 1) as nat;
        lemma_deepest(store, request, m);
        let before = deepest(store, request.context, owners, m);
        let deep = deepest(store, request.context, owners, n);
        let last = revision_before(store, request, owners[n - 1]).unwrap().dependency_depth;
        if last == deep {
        } else {
            assert(deep == before);
            let i = choose|i: int|
                0 <= i < m && revision_before(
                    store,
                    request,
                    #[trigger] owners[i],
                ).unwrap().dependency_depth == before;
            assert(revision_before(store, request, owners[i]).unwrap().dependency_depth == deep);
        }
    }
}

/// Whether a stop is a failure or asks for a row.
pub open spec fn is_plain(stop: Option<StopView>) -> bool {
    stop matches Some(stop) ==> stop is Fail || stop is Read
}

/// Reading a row fails or asks for the row.
pub proof fn lemma_reads_are_plain(store: MetaShard, version: ReadVersion, key: RowKeyView)
    ensures
        is_plain(workspace_halt(store, version, key)),
        is_plain(path_entry_halt(store, version, key)),
        is_plain(revision_halt(store, version, key)),
        is_plain(revision_ref_halt(store, version, key)),
        is_plain(claim_halt(store, version, key)),
        is_plain(publish_halt(store, version, key)),
        is_plain(restore_halt(store, version, key)),
        is_plain(build_commit_halt(store, version, key)),
        is_plain(staged_object_halt(store, version, key)),
        is_plain(manifest_row_halt(store, version, key)),
        is_plain(read_halt(store, version, key)),
{
    reveal(workspace_halt);
    reveal(path_entry_halt);
    reveal(revision_halt);
    reveal(revision_ref_halt);
    reveal(claim_halt);
    reveal(publish_halt);
    reveal(restore_halt);
    reveal(build_commit_halt);
    reveal(staged_object_halt);
    reveal(manifest_row_halt);
    reveal(read_halt);
}

proof fn lemma_first_is_plain(g: spec_fn(int) -> Option<StopView>, n: nat)
    requires
        forall|i: int| is_plain(#[trigger] g(i)),
    ensures
        is_plain(fault_upto(g, n)),
    decreases n,
{
    if n > 0 {
        lemma_first_is_plain(g, (n - 1) as nat);
        assert(is_plain(g(n - 1)));
    }
}

/// What precedes the stage of a publication fails or asks for rows.
proof fn lemma_admission_is_plain(store: MetaShard, request: FinalizePublishRequest)
    ensures
        is_plain(closure_halt(store, request)),
        is_plain(target_halt(store, request)),
        is_plain(
            owners_halt(
                store,
                request.context,
                request.expected_operation.record,
                request.dependency_owner_revision_ids@,
            ),
        ),
{
    let context = request.context;
    let operation = request.expected_operation.record;
    let owners = request.dependency_owner_revision_ids@;
    let version = context.read_version;
    assert forall|key: RowKeyView| is_plain(#[trigger] read_halt(store, version, key)) by {
        lemma_reads_are_plain(store, version, key);
    }
    assert forall|key: RowKeyView| is_plain(#[trigger] manifest_row_halt(store, version, key)) by {
        lemma_reads_are_plain(store, version, key);
    }
    assert forall|key: RowKeyView| is_plain(#[trigger] restore_halt(store, version, key)) by {
        lemma_reads_are_plain(store, version, key);
    }
    assert forall|key: RowKeyView| is_plain(#[trigger] workspace_halt(store, version, key)) by {
        lemma_reads_are_plain(store, version, key);
    }
    assert forall|key: RowKeyView| is_plain(#[trigger] path_entry_halt(store, version, key)) by {
        lemma_reads_are_plain(store, version, key);
    }
    assert forall|key: RowKeyView| is_plain(#[trigger] revision_halt(store, version, key)) by {
        lemma_reads_are_plain(store, version, key);
    }
    assert forall|key: RowKeyView| is_plain(#[trigger] revision_ref_halt(store, version, key)) by {
        lemma_reads_are_plain(store, version, key);
    }
    assert(is_plain(closure_halt(store, request))) by {
        reveal(closure_halt);
        reveal(current_operation_halt);
        reveal(restore_authority_halt);
    }
    assert(is_plain(target_halt(store, request))) by {
        reveal(target_halt);
    }
    let g = dependencies_halt(store, context, owners);
    assert forall|revision: ArtifactRevisionId| is_plain(
        #[trigger] available_halt(store, context, revision),
    ) by {
        reveal(available_halt);
    }
    assert forall|i: int| is_plain(#[trigger] g(i)) by {
        assert(g(i) == available_halt(store, context, owners[i]));
    }
    lemma_first_is_plain(g, owners.len());
    assert(is_plain(owners_halt(store, context, operation, owners))) by {
        reveal(owners_halt);
    }
}

/// A draft that has stopped stays so to the end of a publication.
proof fn lemma_publication_stops(store: MetaShard, request: FinalizePublishRequest)
    requires
        publication_halt(store, request) is Some,
    ensures
        publication_draft(store, request).halt == publication_halt(store, request),
{
    let context = request.context;
    let operation = request.expected_operation.record;
    let owners = request.dependency_owner_revision_ids@;
    let opened = halted(live(empty_plan()), publication_halt(store, request));
    let shown = shown_revision(store, context, operation);
    let version = publication_version(store, context);
    reveal(place_draft);
    assert(place_draft(store, request, opened) == opened);
    assert(index_draft(request, opened) == opened) by {
        reveal(index_draft);
        let step = index_pin_step(asked_rows(request));
        assert(keeps_halts(step));
        lemma_stepped_halt(step, 0, asked_rows(request).len(), opened);
    }
    assert(revision_draft(store, request, opened) == opened) by {
        reveal(revision_draft);
        reveal(claim_release_draft);
    }
    assert(touches_draft(store, context, operation, owners, shown, version, opened) == opened) by {
        reveal(touches_draft);
        let step = touch_step(store, context, operation, owners, shown, version);
        assert(keeps_halts(step)) by {
            reveal(touch_draft);
        }
        lemma_stepped_halt(step, 0, touched(owners, shown).len(), opened);
    }
    lemma_authority_after_halt(
        store,
        execution_context(store, context),
        transitioned_of(store),
        PublicationAuthorityPurpose::Forward,
        opened,
    );
}

/// What a publication asks its codec to do: to publish the operation as it was
/// given, with the path's next generation, the workspace's next revision, and
/// the artifact's size and digest as the result.
pub proof fn publications_report_their_place(
    store: MetaShard,
    request: FinalizePublishRequest,
    operation: PublishOperationRecord,
    transition: PublishTransition,
)
    requires
        !(request.expected_operation.record.authority is CommitStaging),
        store.transitioned is None,
        finalize_halt(store, request) == Some(StopView::Transition { operation, transition }),
    ensures
        operation == request.expected_operation.record,
        transition is Publish,
        reports_place(store, request, transition->Publish_result),
{
    lemma_admission_is_plain(store, request);
    publications_need_a_free_place(store, request);
    assert(transition_halt(
        store,
        request.expected_operation.record,
        PublishTransition::Publish { result: publish_result_of(store, request) },
    ) is Some);
    assert(publication_halt(store, request) is Some) by {
        reveal(settlement_halt);
    }
    lemma_publication_stops(store, request);
    assert(target_halt(store, request) is None);
    reveal(settlement_halt);
    reveal(stage_halt);
    lemma_stage_stops(stage_of(store, request));
}

/// A stage that cannot be planned has failed.
proof fn lemma_stage_stops(stage: IndexStageView)
    ensures
        stage_draft(stage).halt matches Some(stop) ==> stop is Fail,
{
    let pinned = asserting(
        asserting(
            asserting(live(empty_plan()), stage.operation_row, Some(stage.operation_payload)),
            stage.workspace_row,
            Some(stage.workspace_payload),
        ),
        stage.path_row,
        stage.path_payload,
    );
    let started = put_absent(pinned, locator_row_of(stage.locator_key), stage.locator_payload);
    lemma_index_stops(stage.rows, stage.rows.len(), started);
}

proof fn lemma_index_stops(rows: Seq<(Seq<u8>, Seq<u8>)>, n: nat, draft: Draft)
    requires
        draft.halt matches Some(stop) ==> stop is Fail,
    ensures
        stepped(index_step(rows), n, draft).halt matches Some(stop) ==> stop is Fail,
    decreases n,
{
    if n > 0 {
        lemma_index_stops(rows, (n - 1) as nat, draft);
    }
}

/// Whether a result says where a publication has come to stand: the path's
/// next generation, the workspace's next revision, and the artifact's size and
/// digest.
pub open spec fn reports_place(
    store: MetaShard,
    request: FinalizePublishRequest,
    result: PublishResult,
) -> bool {
    let workspace = workspace_read(store, request.context, request.expected_operation.record);
    &&& result.path_generation.value == (match entry_before(store, request) {
        None => 1,
        Some(entry) => entry.generation.value + 1,
    })
    &&& result.workspace_revision.value == workspace.unwrap().workspace_revision.value + 1
    &&& result.logical_size == request.artifact.logical_size
    &&& result.body_digest_uri@ == request.artifact.body_digest_uri@
}

/// What a publication stages before it publishes: a command under its own
/// identity that expects the operation, the workspace and the path as they were
/// read, and puts the staged locator and the index rows of the artifact's
/// fields, where there were none.
pub proof fn publications_stage_their_index_first(
    store: MetaShard,
    request: FinalizePublishRequest,
    command: PlannedCommandView,
)
    requires
        !(request.expected_operation.record.authority is CommitStaging),
        request.expected_operation.record.wf(),
        closure_halt(store, request) is None,
        publication_halt(store, request) == Some(StopView::Execute { command }),
    ensures
        ({
            let context = request.context;
            let operation = request.expected_operation.record;
            let generation = PathIndexGenerationId { bits: context.request_id.bits };
            let digest = path_digest_of(operation.path@);
            let locator = RowKeyView::Raw {
                family: MetadataFamily::PathIndexLocator,
                key: locator_key(
                    context.root_id,
                    operation.workspace_incarnation_id,
                    digest,
                    generation,
                ),
            };
            let rows = index_rows_of(
                context.root_id,
                operation.workspace_incarnation_id,
                digest,
                generation,
                fields_in(request.artifact.typed_index_projection@).unwrap(),
            );
            let path = RowKeyView::PathCurrent {
                root_id: context.root_id,
                incarnation: operation.workspace_incarnation_id,
                path: operation.path@,
            };
            let plan = command.plan;
            &&& command.context == (PublicationContext {
                request_id: command.context.request_id,
                ..context
            })
            &&& command.lease_deadline_ms is None
            &&& plan.events.len() == 0
            &&& plan.mutations.len() == rows.len() + 1
            &&& expects(
                plan,
                RowKeyView::Operation {
                    root_id: context.root_id,
                    kind: OperationKind::Publish,
                    operation_id: operation.operation_id,
                },
                Some(request.expected_operation.payload.unwrap()@),
            )
            &&& expects(
                plan,
                workspace_row_of(context, operation),
                Some(
                    bytes_of(
                        store,
                        context.read_version,
                        workspace_row_of(context, operation),
                    ).unwrap(),
                ),
            )
            &&& expects(plan, path, bytes_of(store, context.read_version, path))
            &&& expects(plan, locator, None)
            &&& exists|value: Seq<u8>| #[trigger]
                writes(plan, locator, value) && locator_in(value) == Some(
                    (PathIndexLocatorState::Staged, operation.path@),
                )
            &&& forall|i: int|
                0 <= i < rows.len() ==> {
                    let key = RowKeyView::Raw {
                        family: MetadataFamily::SecondaryIndex,
                        key: (#[trigger] rows[i]).0,
                    };
                    expects(plan, key, None) && writes(plan, key, rows[i].1)
                }
        }),
{
    let operation = request.expected_operation.record;
    let stage = stage_of(store, request);
    lemma_stage_asked(store, request, command);
    lemma_stage_plan(stage);
    let value = locator_payload_of(request, PathIndexLocatorState::Staged);
    assert(writes(command.plan, locator_row_of(stage.locator_key), value));
    lemma_staged_locator(operation.path@);
}

proof fn lemma_staged_locator(path: Seq<char>)
    requires
        path_fault(path) is None,
    ensures
        locator_in(locator_bytes((PathIndexLocatorState::Staged, path))) == Some(
            (PathIndexLocatorState::Staged, path),
        ),
{
    reveal(locator_in);
    locator_round_trip((PathIndexLocatorState::Staged, path));
}

/// Which command a publication asks to be carried out before it goes on.
proof fn lemma_stage_asked(
    store: MetaShard,
    request: FinalizePublishRequest,
    command: PlannedCommandView,
)
    requires
        closure_halt(store, request) is None,
        publication_halt(store, request) == Some(StopView::Execute { command }),
    ensures
        stage_draft(stage_of(store, request)).halt is None,
        command.plan == stage_draft(stage_of(store, request)).plan,
        command.lease_deadline_ms is None,
        command.context == (PublicationContext {
            request_id: command.context.request_id,
            ..request.context
        }),
        fields_in(request.artifact.typed_index_projection@) == Some(asked_fields(request)),
{
    lemma_admission_is_plain(store, request);
    lemma_stage_stops(stage_of(store, request));
    assert(fields_in(request.artifact.typed_index_projection@) == Some(asked_fields(request))) by {
        reveal(closure_halt);
        reveal(fields_in);
    }
    reveal(stage_halt);
    reveal(settlement_halt);
    reveal(next_payload_halt);
}

/// What a stage command expects and writes.
proof fn lemma_stage_plan(stage: IndexStageView)
    requires
        stage_draft(stage).halt is None,
    ensures
        ({
            let plan = stage_draft(stage).plan;
            let locator = locator_row_of(stage.locator_key);
            &&& plan.events.len() == 0
            &&& plan.mutations.len() == stage.rows.len() + 1
            &&& expects(plan, stage.operation_row, Some(stage.operation_payload))
            &&& expects(plan, stage.workspace_row, Some(stage.workspace_payload))
            &&& expects(plan, stage.path_row, stage.path_payload)
            &&& expects(plan, locator, None)
            &&& writes(plan, locator, stage.locator_payload)
            &&& forall|i: int|
                0 <= i < stage.rows.len() ==> {
                    let key = RowKeyView::Raw {
                        family: MetadataFamily::SecondaryIndex,
                        key: (#[trigger] stage.rows[i]).0,
                    };
                    expects(plan, key, None) && writes(plan, key, stage.rows[i].1)
                }
        }),
{
    let first = asserting(
        live(empty_plan()),
        stage.operation_row,
        Some(stage.operation_payload),
    );
    let second = asserting(first, stage.workspace_row, Some(stage.workspace_payload));
    let third = asserting(second, stage.path_row, stage.path_payload);
    let locator = locator_row_of(stage.locator_key);
    let started = put_absent(third, locator, stage.locator_payload);
    lemma_put_adds(third, locator, stage.locator_payload);
    lemma_index_rows(stage.rows, stage.rows.len(), started);
    let plan = stage_draft(stage).plan;
    let staged = stepped(index_step(stage.rows), stage.rows.len(), started);
    assert(started.halt is None && third.halt is None && second.halt is None && first.halt
        is None);
    assert(third.plan.predicates[0] == PlanPredicateView::Value {
        key: stage.operation_row,
        expected: Some(stage.operation_payload),
    });
    assert(third.plan.predicates[1] == PlanPredicateView::Value {
        key: stage.workspace_row,
        expected: Some(stage.workspace_payload),
    });
    assert(third.plan.predicates[2] == PlanPredicateView::Value {
        key: stage.path_row,
        expected: stage.path_payload,
    });
    let rows = index_changes(stage.rows).take(stage.rows.len() as int);
    let put = seq![PlanMutationView::Put { key: locator, value: stage.locator_payload }];
    assert forall|key: RowKeyView, expected: Option<Seq<u8>>| #[trigger]
        expects(third.plan, key, expected) implies expects(plan, key, expected) by {
        lemma_expects_stays(third, started, put, key, expected);
        lemma_expects_stays(started, staged, rows, key, expected);
    }
    assert(expects(third.plan, stage.operation_row, Some(stage.operation_payload)));
    assert(expects(third.plan, stage.workspace_row, Some(stage.workspace_payload)));
    assert(expects(third.plan, stage.path_row, stage.path_payload));
    lemma_expects_stays(started, staged, rows, locator, None);
    assert(third.plan.mutations =~= Seq::empty());
    assert(plan.mutations =~= put + index_changes(stage.rows));
    assert(plan.mutations[0] == put[0]);
    assert forall|i: int| 0 <= i < stage.rows.len() implies {
        let key = RowKeyView::Raw {
            family: MetadataFamily::SecondaryIndex,
            key: (#[trigger] stage.rows[i]).0,
        };
        expects(plan, key, None) && writes(plan, key, stage.rows[i].1)
    } by {
        assert(plan.mutations[i + 1] == index_changes(stage.rows)[i]);
    }
}

spec fn index_changes(rows: Seq<(Seq<u8>, Seq<u8>)>) -> Seq<PlanMutationView> {
    Seq::new(
        rows.len(),
        |i: int|
            PlanMutationView::Put {
                key: RowKeyView::Raw { family: MetadataFamily::SecondaryIndex, key: rows[i].0 },
                value: rows[i].1,
            },
    )
}

proof fn lemma_index_rows(rows: Seq<(Seq<u8>, Seq<u8>)>, n: nat, draft: Draft)
    requires
        n <= rows.len(),
    ensures
        adds_rows(draft, stepped(index_step(rows), n, draft), index_changes(rows).take(n as int)),
        stepped(index_step(rows), n, draft).halt is None ==> {
            &&& stepped(index_step(rows), n, draft).plan.events == draft.plan.events
            &&& forall|i: int|
                0 <= i < n ==> expects(
                    stepped(index_step(rows), n, draft).plan,
                    RowKeyView::Raw {
                        family: MetadataFamily::SecondaryIndex,
                        key: (#[trigger] rows[i]).0,
                    },
                    None,
                )
        },
    decreases n,
{
    let step = index_step(rows);
    let changes = index_changes(rows);
    if n == 0 {
        assert(changes.take(0) =~= Seq::empty());
        assert(draft.plan.mutations + Seq::<PlanMutationView>::empty() =~= draft.plan.mutations);
    } else {
        let m = (n - 1) as nat;
        lemma_index_rows(rows, m, draft);
        let before = stepped(step, m, draft);
        let after = stepped(step, n, draft);
        let key = RowKeyView::Raw { family: MetadataFamily::SecondaryIndex, key: rows[n - 1].0 };
        assert(after == put_absent(before, key, rows[n - 1].1));
        lemma_put_adds(before, key, rows[n - 1].1);
        lemma_adds_trans(draft, before, after, changes.take(m as int), seq![changes[n - 1]]);
        assert(changes.take(n as int) =~= changes.take(m as int) + seq![changes[n - 1]]);
        if after.halt is None {
            assert forall|i: int| 0 <= i < n implies expects(
                after.plan,
                RowKeyView::Raw {
                    family: MetadataFamily::SecondaryIndex,
                    key: (#[trigger] rows[i]).0,
                },
                None,
            ) by {
                if i < m {
                    lemma_expects_stays(
                        before,
                        after,
                        seq![changes[n - 1]],
                        RowKeyView::Raw {
                            family: MetadataFamily::SecondaryIndex,
                            key: rows[i].0,
                        },
                        None,
                    );
                }
            }
        }
    }
}

/// Whether the dependencies of a finalization are what it needs, and the
/// revision that the path shows can be let go.
pub open spec fn dependencies_stand(store: MetaShard, request: FinalizePublishRequest) -> bool {
    let operation = request.expected_operation.record;
    let owners = request.dependency_owner_revision_ids@;
    &&& forall|i: int| 0 <= i < owners.len() ==> is_available(store, request, #[trigger] owners[i])
    &&& owners.len() == 0 ==> operation.dependency_depth == 0
    &&& owners.len() > 0 ==> reaches(store, request, operation.dependency_depth - 1)
    &&& shown_before(store, request) matches Some(shown) ==> {
        let row = RowKeyView::PathRevisionRef {
            root_id: request.context.root_id,
            incarnation: operation.workspace_incarnation_id,
            path: operation.path@,
            revision: shown,
        };
        let reference = revision_ref_of(store, request.context.read_version, row);
        &&& shown != operation.artifact_revision_id
        &&& is_available(store, request, shown)
        &&& revision_ref_halt(store, request.context.read_version, row) is None
        &&& reference is Some
        &&& reference.unwrap().reference_epoch_at_add.value <= revision_before(
            store,
            request,
            shown,
        ).unwrap().reference_epoch.value
    }
}

/// Dependencies that stand are accepted.
pub proof fn standing_dependencies_are_accepted(store: MetaShard, request: FinalizePublishRequest)
    requires
        dependencies_stand(store, request),
    ensures
        owners_halt(
            store,
            request.context,
            request.expected_operation.record,
            request.dependency_owner_revision_ids@,
        ) is None,
{
    let context = request.context;
    let operation = request.expected_operation.record;
    let owners = request.dependency_owner_revision_ids@;
    let n = owners.len();
    reveal(owners_halt);
    reveal(available_halt);
    let g = dependencies_halt(store, context, owners);
    assert forall|i: int| 0 <= i < n implies (#[trigger] g(i)) is None by {
        assert(is_available(store, request, owners[i]));
    }
    lemma_no_stop(g, n);
    lemma_deepest(store, request, n);
    if n > 0 {
        let deep = deepest(store, context, owners, n);
        let depth = operation.dependency_depth - 1;
        let i = choose|i: int|
            0 <= i < n && revision_before(
                store,
                request,
                #[trigger] owners[i],
            ).unwrap().dependency_depth == depth;
        let j = choose|j: int|
            0 <= j < n && revision_before(
                store,
                request,
                #[trigger] owners[j],
            ).unwrap().dependency_depth == deep;
        assert(deep == depth);
    }
}

proof fn lemma_no_stop(g: spec_fn(int) -> Option<StopView>, n: nat)
    requires
        forall|i: int| 0 <= i < n ==> (#[trigger] g(i)) is None,
    ensures
        fault_upto(g, n) is None,
    decreases n,
{
    if n > 0 {
        lemma_no_stop(g, (n - 1) as nat);
        assert(g(n - 1) is None);
    }
}

/// Whether what a publication tells can be stored: the path fits its length,
/// and where everyone is told, both sets of fields and the names fit, and the
/// event is no larger than the policy allows.
pub open spec fn event_fits(store: MetaShard, request: FinalizePublishRequest) -> bool {
    let operation = request.expected_operation.record;
    let event = event_of(store, request);
    &&& utf8(operation.path@).len() <= u32::MAX
    &&& operation.authority is Visible ==> {
        &&& projection_fault(event.before) is None
        &&& projection_fault(event.after) is None
        &&& utf8(operation.workbench_id@).len() <= MAX_QUERY_SCALAR_BYTES
        &&& change_event_bytes(event).len() <= store.policy.max_event_bytes
    }
}

/// A publication goes on exactly where its place is free, its dependencies are
/// accepted, its event fits, its index is staged, the versions and references
/// can be counted, and its codec has published the operation.
pub proof fn publications_go_on_exactly(store: MetaShard, request: FinalizePublishRequest)
    ensures
        publication_halt(store, request) is None <==> {
            let context = request.context;
            let owners = request.dependency_owner_revision_ids@;
            let shown = shown_before(store, request);
            &&& target_halt(store, request) is None
            &&& owners_halt(
                store,
                context,
                request.expected_operation.record,
                owners,
            ) is None
            &&& event_fits(store, request)
            &&& stage_halt(store, context, stage_of(store, request)) is None
            &&& execution_context(store, context).read_version.value < u64::MAX
            &&& forall|i: int|
                0 <= i < touched(owners, shown).len() ==> reference_fault(
                    revision_before(store, request, #[trigger] touched(owners, shown)[i]).unwrap(),
                    touched(owners, shown)[i],
                    owners.contains(touched(owners, shown)[i]),
                    shown == Some(touched(owners, shown)[i]),
                ) is None
            &&& store.transitioned matches Some(Ok(_))
            &&& store.next_payload matches Some(Ok(_))
        },
{
    lemma_event_fits(store, request);
    lemma_settles(store, request);
}

proof fn lemma_event_fits(store: MetaShard, request: FinalizePublishRequest)
    ensures
        projections_fault(store, request) is None <==> event_fits(store, request),
{
    reveal(projections_fault);
}

proof fn lemma_settles(store: MetaShard, request: FinalizePublishRequest)
    ensures
        settlement_halt(store, request) is None <==> {
            let owners = request.dependency_owner_revision_ids@;
            let shown = shown_before(store, request);
            &&& execution_context(store, request.context).read_version.value < u64::MAX
            &&& forall|i: int|
                0 <= i < touched(owners, shown).len() ==> reference_fault(
                    revision_before(store, request, #[trigger] touched(owners, shown)[i]).unwrap(),
                    touched(owners, shown)[i],
                    owners.contains(touched(owners, shown)[i]),
                    shown == Some(touched(owners, shown)[i]),
                ) is None
            &&& store.transitioned matches Some(Ok(_))
            &&& store.next_payload matches Some(Ok(_))
        },
{
    reveal(settlement_halt);
    reveal(next_payload_halt);
    lemma_references_counted(store, request);
}

proof fn lemma_references_counted(store: MetaShard, request: FinalizePublishRequest)
    ensures
        ({
            let owners = request.dependency_owner_revision_ids@;
            let shown = shown_before(store, request);
            let ids = touched(owners, shown);
            fault_upto(references_fault(store, request.context, owners, shown), ids.len()) is None
                <==> forall|i: int|
                0 <= i < ids.len() ==> reference_fault(
                    revision_before(store, request, #[trigger] ids[i]).unwrap(),
                    ids[i],
                    owners.contains(ids[i]),
                    shown == Some(ids[i]),
                ) is None
        }),
{
    let owners = request.dependency_owner_revision_ids@;
    let shown = shown_before(store, request);
    let ids = touched(owners, shown);
    let g = references_fault(store, request.context, owners, shown);
    let counted = |i: int|
        reference_fault(
            revision_before(store, request, ids[i]).unwrap(),
            ids[i],
            owners.contains(ids[i]),
            shown == Some(ids[i]),
        ) is None;
    assert forall|i: int| 0 <= i < ids.len() implies counted(i) == ((#[trigger] g(i)) is None) by {}
    if fault_upto(g, ids.len()) is None {
        assert forall|i: int| 0 <= i < ids.len() implies reference_fault(
            revision_before(store, request, #[trigger] ids[i]).unwrap(),
            ids[i],
            owners.contains(ids[i]),
            shown == Some(ids[i]),
        ) is None by {
            lemma_fault_none(g, ids.len(), i);
        }
    } else if forall|i: int|
        0 <= i < ids.len() ==> reference_fault(
            revision_before(store, request, #[trigger] ids[i]).unwrap(),
            ids[i],
            owners.contains(ids[i]),
            shown == Some(ids[i]),
        ) is None {
        assert forall|i: int| 0 <= i < ids.len() implies (#[trigger] g(i)) is None by {
            assert(revision_before(store, request, ids[i]) == revision_before(
                store,
                request,
                ids[i],
            ));
        }
        lemma_no_reference_fault(g, ids.len());
    }
}

proof fn lemma_no_reference_fault(g: spec_fn(int) -> Option<PublicationError>, n: nat)
    requires
        forall|i: int| 0 <= i < n ==> (#[trigger] g(i)) is None,
    ensures
        fault_upto(g, n) is None,
    decreases n,
{
    if n > 0 {
        lemma_no_reference_fault(g, (n - 1) as nat);
        assert(g(n - 1) is None);
    }
}

/// The publishing command reads where the stage has left the shard, and
/// commits one version further; where the stage ran earlier, it reads at the
/// request's version.
pub proof fn publications_follow_their_stage(store: MetaShard, context: PublicationContext)
    ensures
        ({
            let receipt = stage_receipt(store);
            let reading = execution_context(store, context);
            &&& reading.read_version.value == (if receipt.replayed {
                context.read_version.value
            } else {
                receipt.commit_version.value
            })
            &&& reading == (PublicationContext { read_version: reading.read_version, ..context })
            &&& reading.read_version.value < u64::MAX ==> publication_version(store, context).value
                == reading.read_version.value + 1
        }),
        store.request_result matches Some(Ok(Some(replay))) ==> stage_receipt(store) == replay,
        store.request_result matches Some(Ok(None)) ==> stage_receipt(store)
            == store.executed.unwrap().unwrap(),
{
    reveal(stage_receipt);
}

} // verus!
