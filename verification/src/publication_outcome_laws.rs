//! What publishing a path leaves behind: every row that the command changes,
//! what it holds afterwards, and how references are kept.

use crate::be::lemma_be_bytes_len;
use crate::change_events::{change_event_bytes, change_event_round_trip, change_event_valid,
    locator_bytes, locator_round_trip, ChangeEventKind, ChangeEventView, PathIndexLocatorState};
use crate::digest::lemma_sha256_len;
use crate::ids::{ArtifactRevisionId, CommitVersion, GcClaimState, MetadataFamily,
    PathIndexGenerationId, ReferenceEpoch, RevisionState};
use crate::index_keys::{locator_key, path_digest_of};
use crate::publication_authority::{claim_release_draft, named_workspace, path_key_of,
    revision_key_of, workspace_key_of};
use crate::publication_claim_laws::holds_claim;
use crate::publication_commit_laws::lemma_release_adds;
use crate::publication_commit_stage::{finalize_draft, finalize_halt};
use crate::publication_digests::{dependency_digest_of, lemma_fault_none, owners_sorted, payload_of};
use crate::publication_effect_laws::{adds_rows, candidate_in, count_after, entry_in, event_in,
    expects, fields_in, installs_reference, installs_revision, lemma_adds_trans, lemma_assert_adds,
    lemma_delete_adds, lemma_expects_stays, lemma_net_concat, lemma_net_one, lemma_put_adds,
    lemma_reference_in, lemma_replace_adds, lemma_revision_in, lemma_sealed_adds, locator_in,
    net_references, removes, revision_in, workspace_in, writes};
use crate::publication_finalize::{asked_fields, asked_locator, asked_rows, closure_halt,
    current_fields, event_draft, event_of, execution_context, first_reference, index_draft,
    index_pin_step, locator_payload_of, new_revision, next_entry, next_workspace_revision,
    place_draft, publication_draft, publication_halt, publication_version, revision_draft,
    settlement_halt, target_halt, FinalizePublishRequest};
use crate::publication_index_stage::{index_rows_of, locator_row_of};
use crate::publication_laws::lemma_prefix_contains;
use crate::publication_lifecycle::{advancing, transitioned_of};
use crate::publication_owners::{available_halt, dependencies_halt, encoded, fresh_candidate,
    owners_halt, record_fault, reference_fault, references_fault, revision_bytes_at, shown_revision,
    touch_draft, touch_step, touched, touched_record, touched_revisions_are_distinct,
    touches_draft};
use crate::publication_plan::{asserting, empty_plan, failing, halted, live, put_absent, replacing,
    stepped, Draft, OperationKind, PlanMutationView, PlanPredicateView, PlanView, RowKeyView};
use crate::publication_records::{artifact_revision_bytes, artifact_revision_canonical,
    artifact_revision_fault, gc_candidate_bytes, gc_candidate_round_trip, parse_artifact_revision,
    path_entry_bytes, path_entry_fault, path_entry_round_trip, revision_ref_bytes, workspace_bytes,
    workspace_round_trip, ArtifactRevisionView, PathEntryView, RevisionRefRecord, WorkspaceRecord};
use crate::publication_replay::path_ref_key_of;
use crate::publication_rules::PublicationAuthorityPurpose;
use crate::publication_store::{bytes_of, next_payload_of, path_entry_of, publish_key, revision_halt,
    revision_of, workspace_of, MetaShard};
use crate::query_records::{fields_bytes, fields_sorted, floats_canonical, projection_canonical,
    projection_fault, FieldView};
use crate::text::path_fault;
use vstd::prelude::*;

verus! {

/// The operation, the workspace where everyone sees it, and the path.
spec fn place_rows(store: MetaShard, request: FinalizePublishRequest) -> Seq<PlanMutationView> {
    let root_id = request.context.root_id;
    let operation = request.expected_operation.record;
    let row = RowKeyView::WorkspaceCurrent { root_id, workbench_id: operation.workbench_id@ };
    let first = seq![
        PlanMutationView::Put {
            key: RowKeyView::Operation {
                root_id,
                kind: OperationKind::Publish,
                operation_id: operation.operation_id,
            },
            value: store.next_payload.unwrap().unwrap()@,
        },
    ];
    let counted = if operation.authority is Visible {
        seq![
            PlanMutationView::Put {
                key: row,
                value: workspace_bytes(
                    WorkspaceRecord {
                        workspace_revision: next_workspace_revision(store, request),
                        ..workspace_of(store, request.context.read_version, row).unwrap()
                    },
                ),
            },
        ]
    } else {
        Seq::empty()
    };
    first + counted + seq![
        PlanMutationView::Put {
            key: RowKeyView::PathCurrent {
                root_id,
                incarnation: operation.workspace_incarnation_id,
                path: operation.path@,
            },
            value: path_entry_bytes(next_entry(request)),
        },
    ]
}

/// The index locator.
spec fn locator_rows(request: FinalizePublishRequest) -> Seq<PlanMutationView> {
    seq![
        PlanMutationView::Put {
            key: RowKeyView::Raw {
                family: MetadataFamily::PathIndexLocator,
                key: asked_locator(request),
            },
            value: locator_payload_of(request, PathIndexLocatorState::Published),
        },
    ]
}

/// The revision, its claim, and the path's references.
spec fn revision_rows(store: MetaShard, request: FinalizePublishRequest) -> Seq<PlanMutationView> {
    let root_id = request.context.root_id;
    let operation = request.expected_operation.record;
    let revision = operation.artifact_revision_id;
    let created = seq![
        PlanMutationView::Put {
            key: RowKeyView::ArtifactRevision { root_id, revision },
            value: artifact_revision_bytes(new_revision(request)),
        },
    ];
    let released = if holds_claim(
        store,
        execution_context(store, request.context),
        revision,
        operation.operation_id,
    ) {
        seq![PlanMutationView::Delete { key: RowKeyView::ArtifactRevisionClaim { root_id, revision } }]
    } else {
        Seq::empty()
    };
    let referred = seq![
        PlanMutationView::Put {
            key: RowKeyView::PathRevisionRef {
                root_id,
                incarnation: operation.workspace_incarnation_id,
                path: operation.path@,
                revision,
            },
            value: revision_ref_bytes(
                RevisionRefRecord { reference_epoch_at_add: ReferenceEpoch { value: 1 } },
            ),
        },
    ];
    let left = match shown_before(store, request) {
        None => Seq::empty(),
        Some(shown) => seq![
            PlanMutationView::Delete {
                key: RowKeyView::PathRevisionRef {
                    root_id,
                    incarnation: operation.workspace_incarnation_id,
                    path: operation.path@,
                    revision: shown,
                },
            },
        ],
    };
    created + released + referred + left
}

/// The entry of the path before the publication, as it was read.
pub open spec fn entry_before(store: MetaShard, request: FinalizePublishRequest) -> Option<
    PathEntryView,
> {
    path_entry_of(
        store,
        request.context.read_version,
        RowKeyView::PathCurrent {
            root_id: request.context.root_id,
            incarnation: request.expected_operation.record.workspace_incarnation_id,
            path: request.expected_operation.record.path@,
        },
    )
}

/// The revision that the path shows before the publication, if it shows one.
pub open spec fn shown_before(store: MetaShard, request: FinalizePublishRequest) -> Option<
    ArtifactRevisionId,
> {
    match entry_before(store, request) {
        None => None,
        Some(entry) => Some(entry.artifact_revision_id),
    }
}

/// The record of a revision before the publication, as it was read.
pub open spec fn revision_before(
    store: MetaShard,
    request: FinalizePublishRequest,
    revision: ArtifactRevisionId,
) -> Option<ArtifactRevisionView> {
    revision_of(
        store,
        request.context.read_version,
        RowKeyView::ArtifactRevision { root_id: request.context.root_id, revision },
    )
}

/// The record of a touched revision afterwards.
spec fn touched_after(
    store: MetaShard,
    request: FinalizePublishRequest,
    revision: ArtifactRevisionId,
) -> ArtifactRevisionView {
    touched_record(
        revision_before(store, request, revision).unwrap(),
        request.dependency_owner_revision_ids@.contains(revision),
        shown_before(store, request) == Some(revision),
        publication_version(store, request.context),
    )
}

/// A touched revision: its record, the reference of the new dependent, and
/// its candidate where nothing refers to it.
spec fn touch_rows(
    store: MetaShard,
    request: FinalizePublishRequest,
    revision: ArtifactRevisionId,
) -> Seq<PlanMutationView> {
    let root_id = request.context.root_id;
    let next = touched_after(store, request, revision);
    let recorded = seq![
        PlanMutationView::Put {
            key: RowKeyView::ArtifactRevision { root_id, revision },
            value: artifact_revision_bytes(next),
        },
    ];
    let referred = if request.dependency_owner_revision_ids@.contains(revision) {
        seq![
            PlanMutationView::Put {
                key: RowKeyView::DependencyRef {
                    root_id,
                    revision: request.expected_operation.record.artifact_revision_id,
                    dependency: revision,
                },
                value: revision_ref_bytes(
                    RevisionRefRecord { reference_epoch_at_add: next.reference_epoch },
                ),
            },
        ]
    } else {
        Seq::empty()
    };
    let collected = if next.strong_reference_count == 0 {
        seq![
            PlanMutationView::Put {
                key: RowKeyView::GcCandidate { root_id, revision, epoch: next.reference_epoch },
                value: gc_candidate_bytes(
                    fresh_candidate(publication_version(store, request.context)),
                ),
            },
        ]
    } else {
        Seq::empty()
    };
    recorded + referred + collected
}

/// The revisions whose references change.
spec fn changed_revisions(store: MetaShard, request: FinalizePublishRequest) -> Seq<
    ArtifactRevisionId,
> {
    touched(request.dependency_owner_revision_ids@, shown_before(store, request))
}

/// The rows of the first `n` touched revisions.
spec fn touched_rows(store: MetaShard, request: FinalizePublishRequest, n: nat) -> Seq<
    PlanMutationView,
>
    decreases n,
{
    if n == 0 {
        Seq::empty()
    } else {
        touched_rows(store, request, (n - 1) as nat) + touch_rows(
            store,
            request,
            changed_revisions(store, request)[n - 1],
        )
    }
}

/// Every row that publishing a path changes.
spec fn changed_rows(store: MetaShard, request: FinalizePublishRequest) -> Seq<PlanMutationView> {
    place_rows(store, request) + locator_rows(request) + revision_rows(store, request)
        + touched_rows(store, request, changed_revisions(store, request).len())
}

proof fn lemma_place_adds(store: MetaShard, request: FinalizePublishRequest, draft: Draft)
    ensures
        adds_rows(draft, place_draft(store, request, draft), place_rows(store, request)),
        place_draft(store, request, draft).halt is None ==> {
            &&& path_entry_fault(next_entry(request)) is None
            &&& place_draft(store, request, draft).plan.events == draft.plan.events
            &&& expects(
                place_draft(store, request, draft).plan,
                RowKeyView::PathCurrent {
                    root_id: request.context.root_id,
                    incarnation: request.expected_operation.record.workspace_incarnation_id,
                    path: request.expected_operation.record.path@,
                },
                bytes_of(
                    store,
                    request.context.read_version,
                    RowKeyView::PathCurrent {
                        root_id: request.context.root_id,
                        incarnation: request.expected_operation.record.workspace_incarnation_id,
                        path: request.expected_operation.record.path@,
                    },
                ),
            )
        },
{
    reveal(place_draft);
    reveal(next_payload_of);
    let context = request.context;
    let operation = request.expected_operation.record;
    let path_key = path_key_of(context, operation);
    let workspace_key = workspace_key_of(context, operation);
    let advanced = advancing(store, context, request.expected_operation, draft);
    lemma_replace_adds(
        draft,
        publish_key(context, operation),
        payload_of(request.expected_operation),
        next_payload_of(store),
    );
    let before = bytes_of(store, context.read_version, workspace_key).unwrap();
    let after = workspace_bytes(
        WorkspaceRecord {
            workspace_revision: next_workspace_revision(store, request),
            ..named_workspace(store, context, operation).unwrap()
        },
    );
    let counted = if operation.authority is Visible {
        replacing(advanced, workspace_key, before, after)
    } else {
        advanced
    };
    lemma_replace_adds(advanced, workspace_key, before, after);
    let encoded = halted(counted, failing(record_fault(path_entry_fault(next_entry(request)))));
    let value = path_entry_bytes(next_entry(request));
    lemma_put_adds(encoded, path_key, value);
    let placed = place_draft(store, request, draft);
    match bytes_of(store, context.read_version, path_key) {
        None => {},
        Some(bytes) => {
            lemma_replace_adds(encoded, path_key, bytes, value);
        },
    }
    if placed.halt is None {
        assert(placed.plan.mutations =~= draft.plan.mutations + place_rows(store, request));
    }
}

proof fn lemma_pins_add(rows: Seq<(Seq<u8>, Seq<u8>)>, n: nat, draft: Draft)
    ensures
        adds_rows(draft, stepped(index_pin_step(rows), n, draft), Seq::empty()),
        stepped(index_pin_step(rows), n, draft).halt is None ==> {
            &&& stepped(index_pin_step(rows), n, draft).plan.events == draft.plan.events
            &&& forall|i: int|
                0 <= i < n ==> expects(
                    stepped(index_pin_step(rows), n, draft).plan,
                    RowKeyView::Raw {
                        family: MetadataFamily::SecondaryIndex,
                        key: (#[trigger] rows[i]).0,
                    },
                    Some(rows[i].1),
                )
        },
    decreases n,
{
    let step = index_pin_step(rows);
    if n > 0 {
        lemma_pins_add(rows, (n - 1) as nat, draft);
        let before = stepped(step, (n - 1) as nat, draft);
        let after = stepped(step, n, draft);
        let key = RowKeyView::Raw {
            family: MetadataFamily::SecondaryIndex,
            key: rows[n - 1].0,
        };
        assert(after == asserting(before, key, Some(rows[n - 1].1)));
        lemma_assert_adds(before, key, Some(rows[n - 1].1));
        lemma_adds_trans(draft, before, after, Seq::empty(), Seq::empty());
        assert(Seq::<PlanMutationView>::empty() + Seq::<PlanMutationView>::empty() =~= Seq::<
            PlanMutationView,
        >::empty());
        if after.halt is None {
            assert(after.plan.predicates.last() == PlanPredicateView::Value {
                key,
                expected: Some(rows[n - 1].1),
            });
            assert forall|i: int| 0 <= i < n implies expects(
                after.plan,
                RowKeyView::Raw {
                    family: MetadataFamily::SecondaryIndex,
                    key: (#[trigger] rows[i]).0,
                },
                Some(rows[i].1),
            ) by {
                if i < n - 1 {
                    lemma_expects_stays(
                        before,
                        after,
                        Seq::empty(),
                        RowKeyView::Raw {
                            family: MetadataFamily::SecondaryIndex,
                            key: rows[i].0,
                        },
                        Some(rows[i].1),
                    );
                }
            }
        }
    } else {
        assert(draft.plan.mutations + Seq::<PlanMutationView>::empty() =~= draft.plan.mutations);
    }
}

proof fn lemma_index_adds(request: FinalizePublishRequest, draft: Draft)
    ensures
        adds_rows(draft, index_draft(request, draft), locator_rows(request)),
        index_draft(request, draft).halt is None ==> {
            &&& index_draft(request, draft).plan.events == draft.plan.events
            &&& expects(
                index_draft(request, draft).plan,
                RowKeyView::Raw {
                    family: MetadataFamily::PathIndexLocator,
                    key: asked_locator(request),
                },
                Some(locator_payload_of(request, PathIndexLocatorState::Staged)),
            )
            &&& forall|i: int|
                0 <= i < asked_rows(request).len() ==> expects(
                    index_draft(request, draft).plan,
                    RowKeyView::Raw {
                        family: MetadataFamily::SecondaryIndex,
                        key: (#[trigger] asked_rows(request)[i]).0,
                    },
                    Some(asked_rows(request)[i].1),
                )
        },
{
    reveal(index_draft);
    let key = locator_row_of(asked_locator(request));
    let staged = locator_payload_of(request, PathIndexLocatorState::Staged);
    let flipped = replacing(
        draft,
        key,
        staged,
        locator_payload_of(request, PathIndexLocatorState::Published),
    );
    lemma_replace_adds(
        draft,
        key,
        staged,
        locator_payload_of(request, PathIndexLocatorState::Published),
    );
    let rows = asked_rows(request);
    lemma_pins_add(rows, rows.len(), flipped);
    lemma_adds_trans(
        draft,
        flipped,
        index_draft(request, draft),
        locator_rows(request),
        Seq::empty(),
    );
    assert(locator_rows(request) + Seq::<PlanMutationView>::empty() =~= locator_rows(request));
    if index_draft(request, draft).halt is None {
        lemma_expects_stays(flipped, index_draft(request, draft), Seq::empty(), key, Some(staged));
    }
}

proof fn lemma_revision_adds(store: MetaShard, request: FinalizePublishRequest, draft: Draft)
    ensures
        adds_rows(draft, revision_draft(store, request, draft), revision_rows(store, request)),
        revision_draft(store, request, draft).halt is None ==> {
            &&& artifact_revision_fault(new_revision(request)) is None
            &&& revision_draft(store, request, draft).plan.events == draft.plan.events
            &&& expects(
                revision_draft(store, request, draft).plan,
                RowKeyView::ArtifactRevision {
                    root_id: request.context.root_id,
                    revision: request.expected_operation.record.artifact_revision_id,
                },
                None,
            )
            &&& expects(
                revision_draft(store, request, draft).plan,
                RowKeyView::PathRevisionRef {
                    root_id: request.context.root_id,
                    incarnation: request.expected_operation.record.workspace_incarnation_id,
                    path: request.expected_operation.record.path@,
                    revision: request.expected_operation.record.artifact_revision_id,
                },
                None,
            )
        },
{
    reveal(revision_draft);
    let context = request.context;
    let reading = execution_context(store, context);
    let operation = request.expected_operation.record;
    let revision = operation.artifact_revision_id;
    let row = revision_key_of(context, revision);
    let checked = halted(
        draft,
        failing(record_fault(artifact_revision_fault(new_revision(request)))),
    );
    let record = artifact_revision_bytes(new_revision(request));
    let created = put_absent(checked, row, record);
    lemma_put_adds(checked, row, record);
    let released = claim_release_draft(store, reading, revision, operation.operation_id, created);
    lemma_release_adds(store, reading, revision, operation.operation_id, created);
    let reference = path_ref_key_of(context, operation, revision);
    let referred = put_absent(released, reference, revision_ref_bytes(first_reference()));
    lemma_put_adds(released, reference, revision_ref_bytes(first_reference()));
    let after = revision_draft(store, request, draft);
    match shown_revision(store, context, operation) {
        None => {},
        Some(shown) => {
            let key = path_ref_key_of(context, operation, shown);
            lemma_delete_adds(
                referred,
                key,
                bytes_of(store, context.read_version, key).unwrap(),
            );
        },
    }
    if after.halt is None {
        assert(after.plan.mutations =~= draft.plan.mutations + revision_rows(store, request));
        reveal(claim_release_draft);
        lemma_prefix_contains(
            created.plan.predicates,
            released.plan.predicates,
            PlanPredicateView::Value { key: row, expected: None },
        );
        lemma_prefix_contains(
            released.plan.predicates,
            referred.plan.predicates,
            PlanPredicateView::Value { key: row, expected: None },
        );
        lemma_prefix_contains(
            referred.plan.predicates,
            after.plan.predicates,
            PlanPredicateView::Value { key: row, expected: None },
        );
        lemma_prefix_contains(
            referred.plan.predicates,
            after.plan.predicates,
            PlanPredicateView::Value { key: reference, expected: None },
        );
    }
}

proof fn lemma_touch_adds(
    store: MetaShard,
    request: FinalizePublishRequest,
    revision: ArtifactRevisionId,
    draft: Draft,
)
    ensures
        ({
            let after = touch_draft(
                store,
                request.context,
                request.expected_operation.record,
                request.dependency_owner_revision_ids@,
                shown_before(store, request),
                publication_version(store, request.context),
                revision,
                draft,
            );
            &&& adds_rows(draft, after, touch_rows(store, request, revision))
            &&& after.halt is None ==> {
                &&& artifact_revision_fault(touched_after(store, request, revision)) is None
                &&& after.plan.events == draft.plan.events
                &&& expects_touched(after.plan, store, request, revision)
            }
        }),
{
    reveal(touch_draft);
    let context = request.context;
    let operation = request.expected_operation.record;
    let owners = request.dependency_owner_revision_ids@;
    let shown = shown_before(store, request);
    let version = publication_version(store, context);
    let next = touched_after(store, request, revision);
    let checked = halted(draft, failing(record_fault(artifact_revision_fault(next))));
    let row = revision_key_of(context, revision);
    let bytes = revision_bytes_at(store, context, revision);
    let replaced = replacing(checked, row, bytes, artifact_revision_bytes(next));
    lemma_replace_adds(checked, row, bytes, artifact_revision_bytes(next));
    let dependency = RowKeyView::DependencyRef {
        root_id: context.root_id,
        revision: operation.artifact_revision_id,
        dependency: revision,
    };
    let reference = revision_ref_bytes(
        RevisionRefRecord { reference_epoch_at_add: next.reference_epoch },
    );
    let adds = owners.contains(revision);
    let referred = if adds {
        put_absent(replaced, dependency, reference)
    } else {
        replaced
    };
    lemma_put_adds(replaced, dependency, reference);
    let candidate = RowKeyView::GcCandidate {
        root_id: context.root_id,
        revision,
        epoch: next.reference_epoch,
    };
    lemma_put_adds(referred, candidate, gc_candidate_bytes(fresh_candidate(version)));
    let after = touch_draft(
        store,
        context,
        operation,
        owners,
        shown,
        version,
        revision,
        draft,
    );
    if after.halt is None {
        assert(after.plan.mutations =~= draft.plan.mutations + touch_rows(
            store,
            request,
            revision,
        ));
        let pinned = PlanPredicateView::Value { key: row, expected: Some(bytes) };
        lemma_prefix_contains(replaced.plan.predicates, referred.plan.predicates, pinned);
        lemma_prefix_contains(referred.plan.predicates, after.plan.predicates, pinned);
        if adds {
            lemma_prefix_contains(
                referred.plan.predicates,
                after.plan.predicates,
                PlanPredicateView::Value { key: dependency, expected: None },
            );
        }
    }
}

/// What a plan expects of a touched revision and its new rows.
spec fn expects_touched(
    plan: PlanView,
    store: MetaShard,
    request: FinalizePublishRequest,
    revision: ArtifactRevisionId,
) -> bool {
    let root_id = request.context.root_id;
    let row = RowKeyView::ArtifactRevision { root_id, revision };
    let next = touched_after(store, request, revision);
    &&& expects(plan, row, Some(bytes_of(store, request.context.read_version, row).unwrap()))
    &&& request.dependency_owner_revision_ids@.contains(revision) ==> expects(
        plan,
        RowKeyView::DependencyRef {
            root_id,
            revision: request.expected_operation.record.artifact_revision_id,
            dependency: revision,
        },
        None,
    )
    &&& next.strong_reference_count == 0 ==> expects(
        plan,
        RowKeyView::GcCandidate { root_id, revision, epoch: next.reference_epoch },
        None,
    )
}

proof fn lemma_touched_stays(
    before: Draft,
    after: Draft,
    rows: Seq<PlanMutationView>,
    store: MetaShard,
    request: FinalizePublishRequest,
    revision: ArtifactRevisionId,
)
    requires
        adds_rows(before, after, rows),
        after.halt is None,
        expects_touched(before.plan, store, request, revision),
    ensures
        expects_touched(after.plan, store, request, revision),
{
    let root_id = request.context.root_id;
    let row = RowKeyView::ArtifactRevision { root_id, revision };
    let next = touched_after(store, request, revision);
    let bytes = Some(bytes_of(store, request.context.read_version, row).unwrap());
    lemma_expects_stays(before, after, rows, row, bytes);
    if request.dependency_owner_revision_ids@.contains(revision) {
        let key = RowKeyView::DependencyRef {
            root_id,
            revision: request.expected_operation.record.artifact_revision_id,
            dependency: revision,
        };
        lemma_expects_stays(before, after, rows, key, None);
    }
    if next.strong_reference_count == 0 {
        let key = RowKeyView::GcCandidate { root_id, revision, epoch: next.reference_epoch };
        lemma_expects_stays(before, after, rows, key, None);
    }
}

proof fn lemma_touches_add(
    store: MetaShard,
    request: FinalizePublishRequest,
    n: nat,
    draft: Draft,
)
    requires
        n <= changed_revisions(store, request).len(),
    ensures
        ({
            let step = touch_step(
                store,
                request.context,
                request.expected_operation.record,
                request.dependency_owner_revision_ids@,
                shown_before(store, request),
                publication_version(store, request.context),
            );
            let after = stepped(step, n, draft);
            &&& adds_rows(draft, after, touched_rows(store, request, n))
            &&& after.halt is None ==> {
                &&& after.plan.events == draft.plan.events
                &&& forall|i: int|
                    0 <= i < n ==> artifact_revision_fault(
                        touched_after(
                            store,
                            request,
                            #[trigger] changed_revisions(store, request)[i],
                        ),
                    ) is None
                &&& forall|i: int|
                    0 <= i < n ==> expects_touched(
                        after.plan,
                        store,
                        request,
                        #[trigger] changed_revisions(store, request)[i],
                    )
            }
        }),
    decreases n,
{
    let step = touch_step(
        store,
        request.context,
        request.expected_operation.record,
        request.dependency_owner_revision_ids@,
        shown_before(store, request),
        publication_version(store, request.context),
    );
    if n == 0 {
        assert(draft.plan.mutations + Seq::<PlanMutationView>::empty() =~= draft.plan.mutations);
    } else {
        let m = (n - 1) as nat;
        lemma_touches_add(store, request, m, draft);
        let before = stepped(step, m, draft);
        let after = stepped(step, n, draft);
        let ids = changed_revisions(store, request);
        let revision = ids[n - 1];
        lemma_touch_adds(store, request, revision, before);
        assert(after == step(n - 1, before));
        lemma_adds_trans(
            draft,
            before,
            after,
            touched_rows(store, request, m),
            touch_rows(store, request, revision),
        );
        if after.halt is None {
            assert forall|i: int| 0 <= i < n implies expects_touched(
                after.plan,
                store,
                request,
                #[trigger] ids[i],
            ) by {
                if i < m {
                    lemma_touched_stays(
                        before,
                        after,
                        touch_rows(store, request, revision),
                        store,
                        request,
                        ids[i],
                    );
                }
            }
        }
    }
}

/// Everything that is known of the plan of a publication.
proof fn lemma_publication_rows(store: MetaShard, request: FinalizePublishRequest)
    requires
        publication_draft(store, request).halt is None,
    ensures
        publication_halt(store, request) is None,
        publication_draft(store, request).plan.mutations == changed_rows(store, request),
        publication_draft(store, request).plan.events == (
        if request.expected_operation.record.authority is Visible {
            seq![change_event_bytes(event_of(store, request))]
        } else {
            Seq::empty()
        }),
        path_entry_fault(next_entry(request)) is None,
        artifact_revision_fault(new_revision(request)) is None,
        forall|i: int|
            0 <= i < changed_revisions(store, request).len() ==> artifact_revision_fault(
                touched_after(store, request, #[trigger] changed_revisions(store, request)[i]),
            ) is None,
        forall|i: int|
            0 <= i < changed_revisions(store, request).len() ==> expects_touched(
                publication_draft(store, request).plan,
                store,
                request,
                #[trigger] changed_revisions(store, request)[i],
            ),
        expects_place(publication_draft(store, request).plan, store, request),
{
    let context = request.context;
    let operation = request.expected_operation.record;
    let owners = request.dependency_owner_revision_ids@;
    let opened = halted(live(empty_plan()), publication_halt(store, request));
    let placed = place_draft(store, request, opened);
    let indexed = index_draft(request, placed);
    let revised = revision_draft(store, request, indexed);
    let shown = shown_revision(store, context, operation);
    let version = publication_version(store, context);
    let written = touches_draft(store, context, operation, owners, shown, version, revised);
    let told = event_draft(store, request, written);
    let draft = publication_draft(store, request);
    let n = changed_revisions(store, request).len();
    let touched_list = touched_rows(store, request, n);
    lemma_place_adds(store, request, opened);
    lemma_index_adds(request, placed);
    lemma_revision_adds(store, request, indexed);
    assert(written == stepped(
        touch_step(store, context, operation, owners, shown_before(store, request), version),
        n,
        revised,
    )) by {
        reveal(touches_draft);
    }
    lemma_touches_add(store, request, n, revised);
    lemma_sealed_adds(
        store,
        execution_context(store, context),
        transitioned_of(store),
        PublicationAuthorityPurpose::Forward,
        told,
    );
    assert(told.halt is None && written.halt is None && revised.halt is None);
    assert(indexed.halt is None && placed.halt is None && opened.halt is None);
    assert(opened.plan.mutations =~= Seq::empty());
    assert(draft.plan.mutations =~= changed_rows(store, request));
    assert(draft.plan.events =~= (if operation.authority is Visible {
        seq![change_event_bytes(event_of(store, request))]
    } else {
        Seq::empty()
    }));
    assert(adds_rows(written, draft, Seq::empty())) by {
        assert(written.plan.mutations + Seq::<PlanMutationView>::empty()
            =~= written.plan.mutations);
    }
    assert forall|i: int| 0 <= i < n implies expects_touched(
        draft.plan,
        store,
        request,
        #[trigger] changed_revisions(store, request)[i],
    ) by {
        lemma_touched_stays(
            written,
            draft,
            Seq::empty(),
            store,
            request,
            changed_revisions(store, request)[i],
        );
    }
    lemma_place_expects(store, request, placed, indexed, revised, written, draft);
}

/// What a plan expects of the path, its index rows, the revision and the
/// path's reference.
spec fn expects_place(plan: PlanView, store: MetaShard, request: FinalizePublishRequest) -> bool {
    let root_id = request.context.root_id;
    let operation = request.expected_operation.record;
    let path = RowKeyView::PathCurrent {
        root_id,
        incarnation: operation.workspace_incarnation_id,
        path: operation.path@,
    };
    &&& expects(plan, path, bytes_of(store, request.context.read_version, path))
    &&& expects(
        plan,
        RowKeyView::Raw {
            family: MetadataFamily::PathIndexLocator,
            key: asked_locator(request),
        },
        Some(locator_payload_of(request, PathIndexLocatorState::Staged)),
    )
    &&& forall|i: int|
        0 <= i < asked_rows(request).len() ==> expects(
            plan,
            RowKeyView::Raw {
                family: MetadataFamily::SecondaryIndex,
                key: (#[trigger] asked_rows(request)[i]).0,
            },
            Some(asked_rows(request)[i].1),
        )
    &&& expects(
        plan,
        RowKeyView::ArtifactRevision { root_id, revision: operation.artifact_revision_id },
        None,
    )
    &&& expects(
        plan,
        RowKeyView::PathRevisionRef {
            root_id,
            incarnation: operation.workspace_incarnation_id,
            path: operation.path@,
            revision: operation.artifact_revision_id,
        },
        None,
    )
}

proof fn lemma_place_expects(
    store: MetaShard,
    request: FinalizePublishRequest,
    placed: Draft,
    indexed: Draft,
    revised: Draft,
    written: Draft,
    draft: Draft,
)
    requires
        exists|opened: Draft| placed == #[trigger] place_draft(store, request, opened),
        indexed == index_draft(request, placed),
        revised == revision_draft(store, request, indexed),
        adds_rows(
            revised,
            written,
            touched_rows(store, request, changed_revisions(store, request).len()),
        ),
        adds_rows(written, draft, Seq::empty()),
        draft.halt is None,
        written.halt is None,
        revised.halt is None,
        indexed.halt is None,
        placed.halt is None,
    ensures
        expects_place(draft.plan, store, request),
{
    let opened = choose|opened: Draft| placed == #[trigger] place_draft(store, request, opened);
    let root_id = request.context.root_id;
    let operation = request.expected_operation.record;
    lemma_place_adds(store, request, opened);
    lemma_index_adds(request, placed);
    lemma_revision_adds(store, request, indexed);
    let list = touched_rows(store, request, changed_revisions(store, request).len());
    assert forall|key: RowKeyView, expected: Option<Seq<u8>>| #[trigger]
        expects(revised.plan, key, expected) implies expects(draft.plan, key, expected) by {
        lemma_expects_stays(revised, written, list, key, expected);
        lemma_expects_stays(written, draft, Seq::empty(), key, expected);
    }
    assert forall|key: RowKeyView, expected: Option<Seq<u8>>| #[trigger]
        expects(indexed.plan, key, expected) implies expects(draft.plan, key, expected) by {
        lemma_expects_stays(indexed, revised, revision_rows(store, request), key, expected);
        assert(expects(revised.plan, key, expected));
    }
    let path = RowKeyView::PathCurrent {
        root_id,
        incarnation: operation.workspace_incarnation_id,
        path: operation.path@,
    };
    let bytes = bytes_of(store, request.context.read_version, path);
    lemma_expects_stays(placed, indexed, locator_rows(request), path, bytes);
    assert(expects(indexed.plan, path, bytes));
    let rows = asked_rows(request);
    assert forall|i: int| 0 <= i < rows.len() implies expects(
        draft.plan,
        RowKeyView::Raw { family: MetadataFamily::SecondaryIndex, key: (#[trigger] rows[i]).0 },
        Some(rows[i].1),
    ) by {
        assert(expects(
            indexed.plan,
            RowKeyView::Raw { family: MetadataFamily::SecondaryIndex, key: rows[i].0 },
            Some(rows[i].1),
        ));
    }
}

/// What a publication may change, and to what.
spec fn is_change(store: MetaShard, request: FinalizePublishRequest, change: PlanMutationView) -> bool {
    let root = request.context.root_id;
    let operation = request.expected_operation.record;
    let ids = changed_revisions(store, request);
    match change {
        PlanMutationView::Put { key, value } => match key {
            RowKeyView::Operation { root_id, kind, operation_id } => {
                &&& root_id == root
                &&& kind == OperationKind::Publish
                &&& operation_id == operation.operation_id
                &&& value == store.next_payload.unwrap().unwrap()@
            },
            RowKeyView::WorkspaceCurrent { root_id, workbench_id } => {
                &&& root_id == root
                &&& workbench_id == operation.workbench_id@
                &&& operation.authority is Visible
                &&& value == workspace_bytes(
                    WorkspaceRecord {
                        workspace_revision: next_workspace_revision(store, request),
                        ..workspace_of(store, request.context.read_version, key).unwrap()
                    },
                )
            },
            RowKeyView::PathCurrent { root_id, incarnation, path } => {
                &&& root_id == root
                &&& incarnation == operation.workspace_incarnation_id
                &&& path == operation.path@
                &&& value == path_entry_bytes(next_entry(request))
            },
            RowKeyView::Raw { family, key } => {
                &&& family == MetadataFamily::PathIndexLocator
                &&& key == asked_locator(request)
                &&& value == locator_payload_of(request, PathIndexLocatorState::Published)
            },
            RowKeyView::ArtifactRevision { root_id, revision } => root_id == root && ({
                ||| revision == operation.artifact_revision_id && value == artifact_revision_bytes(
                    new_revision(request),
                )
                ||| ids.contains(revision) && value == artifact_revision_bytes(
                    touched_after(store, request, revision),
                )
            }),
            RowKeyView::PathRevisionRef { root_id, incarnation, path, revision } => {
                &&& root_id == root
                &&& incarnation == operation.workspace_incarnation_id
                &&& path == operation.path@
                &&& revision == operation.artifact_revision_id
                &&& value == revision_ref_bytes(
                    RevisionRefRecord { reference_epoch_at_add: ReferenceEpoch { value: 1 } },
                )
            },
            RowKeyView::DependencyRef { root_id, revision, dependency } => {
                &&& root_id == root
                &&& revision == operation.artifact_revision_id
                &&& request.dependency_owner_revision_ids@.contains(dependency)
                &&& ids.contains(dependency)
                &&& value == revision_ref_bytes(
                    RevisionRefRecord {
                        reference_epoch_at_add: touched_after(
                            store,
                            request,
                            dependency,
                        ).reference_epoch,
                    },
                )
            },
            RowKeyView::GcCandidate { root_id, revision, epoch } => {
                &&& root_id == root
                &&& ids.contains(revision)
                &&& touched_after(store, request, revision).strong_reference_count == 0
                &&& epoch == touched_after(store, request, revision).reference_epoch
                &&& value == gc_candidate_bytes(
                    fresh_candidate(publication_version(store, request.context)),
                )
            },
            _ => false,
        },
        PlanMutationView::Delete { key } => match key {
            RowKeyView::ArtifactRevisionClaim { root_id, revision } => root_id == root && revision
                == operation.artifact_revision_id,
            RowKeyView::PathRevisionRef { root_id, incarnation, path, revision } => {
                &&& root_id == root
                &&& incarnation == operation.workspace_incarnation_id
                &&& path == operation.path@
                &&& shown_before(store, request) == Some(revision)
            },
            _ => false,
        },
    }
}

proof fn lemma_touched_changes(store: MetaShard, request: FinalizePublishRequest, n: nat)
    requires
        n <= changed_revisions(store, request).len(),
    ensures
        forall|i: int|
            0 <= i < touched_rows(store, request, n).len() ==> is_change(
                store,
                request,
                #[trigger] touched_rows(store, request, n)[i],
            ),
    decreases n,
{
    if n > 0 {
        let m = (n - 1) as nat;
        lemma_touched_changes(store, request, m);
        let rest = touched_rows(store, request, m);
        let revision = changed_revisions(store, request)[n - 1];
        let last = touch_rows(store, request, revision);
        assert(changed_revisions(store, request).contains(revision));
        assert(touched_rows(store, request, n) == rest + last);
        assert forall|i: int| 0 <= i < (rest + last).len() implies is_change(
            store,
            request,
            #[trigger] (rest + last)[i],
        ) by {
            if i < rest.len() {
                assert((rest + last)[i] == rest[i]);
            } else {
                let j = i - rest.len();
                assert((rest + last)[i] == last[j]);
                assert(is_change(store, request, last[0]));
            }
        }
    }
}

proof fn lemma_changes(store: MetaShard, request: FinalizePublishRequest)
    ensures
        forall|i: int|
            0 <= i < changed_rows(store, request).len() ==> is_change(
                store,
                request,
                #[trigger] changed_rows(store, request)[i],
            ),
{
    let n = changed_revisions(store, request).len();
    let a = place_rows(store, request);
    let b = locator_rows(request);
    let c = revision_rows(store, request);
    let d = touched_rows(store, request, n);
    lemma_touched_changes(store, request, n);
    assert forall|i: int| 0 <= i < ((a + b) + c + d).len() implies is_change(
        store,
        request,
        #[trigger] ((a + b) + c + d)[i],
    ) by {
        let k = a.len() + b.len() + c.len();
        if i < a.len() {
            assert(((a + b) + c + d)[i] == a[i]);
        } else if i < a.len() + b.len() {
            assert(((a + b) + c + d)[i] == b[i - a.len()]);
        } else if i < k {
            assert(((a + b) + c + d)[i] == c[i - a.len() - b.len()]);
        } else {
            assert(((a + b) + c + d)[i] == d[i - k]);
        }
    }
}

/// Every row that the plan of a publication changes is one of its own.
proof fn lemma_plan_changes(store: MetaShard, request: FinalizePublishRequest, plan: PlanView)
    requires
        plan.mutations == changed_rows(store, request),
    ensures
        forall|key: RowKeyView, value: Seq<u8>| #[trigger]
            writes(plan, key, value) ==> is_change(
                store,
                request,
                PlanMutationView::Put { key, value },
            ),
        forall|key: RowKeyView| #[trigger]
            removes(plan, key) ==> is_change(store, request, PlanMutationView::Delete { key }),
{
    lemma_changes(store, request);
    assert forall|key: RowKeyView, value: Seq<u8>| #[trigger]
        writes(plan, key, value) implies is_change(
        store,
        request,
        PlanMutationView::Put { key, value },
    ) by {
        let change = PlanMutationView::Put { key, value };
        let i = choose|i: int| 0 <= i < plan.mutations.len() && plan.mutations[i] == change;
        assert(is_change(store, request, changed_rows(store, request)[i]));
    }
    assert forall|key: RowKeyView| #[trigger] removes(plan, key) implies is_change(
        store,
        request,
        PlanMutationView::Delete { key },
    ) by {
        let change = PlanMutationView::Delete { key };
        let i = choose|i: int| 0 <= i < plan.mutations.len() && plan.mutations[i] == change;
        assert(is_change(store, request, changed_rows(store, request)[i]));
    }
}

proof fn lemma_concat_contains<T>(a: Seq<T>, b: Seq<T>, item: T)
    ensures
        (a + b).contains(item) <==> a.contains(item) || b.contains(item),
{
    if a.contains(item) {
        let i = choose|i: int| 0 <= i < a.len() && a[i] == item;
        assert((a + b)[i] == item);
    }
    if b.contains(item) {
        let i = choose|i: int| 0 <= i < b.len() && b[i] == item;
        assert((a + b)[a.len() + i] == item);
    }
    if (a + b).contains(item) {
        let i = choose|i: int| 0 <= i < (a + b).len() && (a + b)[i] == item;
        if i < a.len() {
            assert(a[i] == item);
        } else {
            assert(b[i - a.len()] == item);
        }
    }
}

proof fn lemma_touched_contains(
    store: MetaShard,
    request: FinalizePublishRequest,
    n: nat,
    i: int,
    change: PlanMutationView,
)
    requires
        0 <= i < n <= changed_revisions(store, request).len(),
        touch_rows(store, request, changed_revisions(store, request)[i]).contains(change),
    ensures
        touched_rows(store, request, n).contains(change),
    decreases n,
{
    let m = (n - 1) as nat;
    lemma_concat_contains(
        touched_rows(store, request, m),
        touch_rows(store, request, changed_revisions(store, request)[n - 1]),
        change,
    );
    if i < m {
        lemma_touched_contains(store, request, m, i, change);
    }
}

/// A change of any part of a publication is a change of the publication.
proof fn lemma_part_contains(
    store: MetaShard,
    request: FinalizePublishRequest,
    change: PlanMutationView,
)
    requires
        place_rows(store, request).contains(change) || locator_rows(request).contains(change)
            || revision_rows(store, request).contains(change) || touched_rows(
            store,
            request,
            changed_revisions(store, request).len(),
        ).contains(change),
    ensures
        changed_rows(store, request).contains(change),
{
    let a = place_rows(store, request);
    let b = locator_rows(request);
    let c = revision_rows(store, request);
    let d = touched_rows(store, request, changed_revisions(store, request).len());
    lemma_concat_contains(a, b, change);
    lemma_concat_contains(a + b, c, change);
    lemma_concat_contains((a + b) + c, d, change);
}

/// What has been checked of the revisions that a publication touches.
proof fn lemma_touched_facts(store: MetaShard, request: FinalizePublishRequest)
    requires
        finalize_halt(store, request) is None,
        !(request.expected_operation.record.authority is CommitStaging),
    ensures
        owners_sorted(changed_revisions(store, request)),
        forall|id: ArtifactRevisionId| #[trigger]
            changed_revisions(store, request).contains(id) <==> ({
                ||| request.dependency_owner_revision_ids@.contains(id)
                ||| shown_before(store, request) == Some(id)
            }),
        !changed_revisions(store, request).contains(
            request.expected_operation.record.artifact_revision_id,
        ),
        forall|id: ArtifactRevisionId| #[trigger]
            changed_revisions(store, request).contains(id) ==> {
                &&& revision_before(store, request, id) is Some
                &&& revision_before(store, request, id).unwrap().state == RevisionState::Available
                &&& revision_before(store, request, id).unwrap().reference_epoch.value < u64::MAX
            },
        forall|id: ArtifactRevisionId| #[trigger]
            changed_revisions(store, request).contains(id) ==> {
                let count = revision_before(store, request, id).unwrap().strong_reference_count;
                let adds = request.dependency_owner_revision_ids@.contains(id);
                let removes = shown_before(store, request) == Some(id);
                &&& adds && !removes ==> count < u64::MAX
                &&& removes && !adds ==> count > 0
            },
        publication_version(store, request.context).wf(),
{
    let context = request.context;
    let operation = request.expected_operation.record;
    let owners = request.dependency_owner_revision_ids@;
    let shown = shown_before(store, request);
    lemma_publication_rows(store, request);
    reveal(closure_halt);
    reveal(owners_halt);
    reveal(settlement_halt);
    touched_revisions_are_distinct(owners, shown);
    let ids = changed_revisions(store, request);
    assert forall|id: ArtifactRevisionId| #[trigger] ids.contains(id) implies {
        &&& revision_before(store, request, id) is Some
        &&& revision_before(store, request, id).unwrap().state == RevisionState::Available
    } by {
        reveal(available_halt);
        if owners.contains(id) {
            let i = choose|i: int| 0 <= i < owners.len() && owners[i] == id;
            lemma_fault_none(dependencies_halt(store, context, owners), owners.len(), i);
        }
    }
    assert forall|id: ArtifactRevisionId| #[trigger] ids.contains(id) implies reference_fault(
        revision_before(store, request, id).unwrap(),
        id,
        owners.contains(id),
        shown == Some(id),
    ) is None by {
        let i = choose|i: int| 0 <= i < ids.len() && ids[i] == id;
        lemma_fault_none(references_fault(store, context, owners, shown), ids.len(), i);
    }
}

/// Publishing a path shows the artifact there: the path's entry afterwards is
/// of the next generation, or the first where there was none, shows the
/// published revision, and holds what the request says of the artifact, its
/// projection byte for byte. The entry before is what the command expects.
pub proof fn publications_show_the_artifact(store: MetaShard, request: FinalizePublishRequest)
    requires
        finalize_halt(store, request) is None,
        !(request.expected_operation.record.authority is CommitStaging),
    ensures
        ({
            let plan = finalize_draft(store, request).plan;
            let operation = request.expected_operation.record;
            let artifact = request.artifact;
            let row = RowKeyView::PathCurrent {
                root_id: request.context.root_id,
                incarnation: operation.workspace_incarnation_id,
                path: operation.path@,
            };
            &&& expects(plan, row, bytes_of(store, request.context.read_version, row))
            &&& exists|value: Seq<u8>| #[trigger] writes(plan, row, value)
            &&& forall|value: Seq<u8>| #[trigger]
                writes(plan, row, value) ==> {
                    let entry = entry_in(value).unwrap();
                    &&& entry_in(value) is Some
                    &&& entry.generation.value == (match entry_before(store, request) {
                        None => 1,
                        Some(before) => before.generation.value + 1,
                    })
                    &&& entry.index_generation.bits == request.context.request_id.bits
                    &&& entry.path_digest == path_digest_of(operation.path@)
                    &&& entry.artifact_revision_id == operation.artifact_revision_id
                    &&& entry.body_digest_uri == artifact.body_digest_uri@
                    &&& entry.manifest_digest_uri == artifact.manifest_digest_uri@
                    &&& entry.logical_size == artifact.logical_size
                    &&& entry.dependency_count == request.dependency_owner_revision_ids@.len()
                    &&& entry.dependency_depth == operation.dependency_depth
                    &&& entry.content_type == artifact.content_type@
                    &&& entry.producer == (match artifact.producer {
                        None => None,
                        Some(text) => Some(text@),
                    })
                    &&& entry.manifest_id == (match artifact.manifest_id {
                        None => None,
                        Some(text) => Some(text@),
                    })
                    &&& entry.typed_index_projection == artifact.typed_index_projection@
                }
            &&& operation.claim is CreateOnly ==> entry_before(store, request) is None
            &&& !(operation.claim is CreateOnly) ==> entry_before(store, request) is Some
        }),
{
    broadcast use lemma_sha256_len;

    let operation = request.expected_operation.record;
    let plan = finalize_draft(store, request).plan;
    let row = RowKeyView::PathCurrent {
        root_id: request.context.root_id,
        incarnation: operation.workspace_incarnation_id,
        path: operation.path@,
    };
    let value = path_entry_bytes(next_entry(request));
    lemma_publication_rows(store, request);
    lemma_plan_changes(store, request, plan);
    let change = PlanMutationView::Put { key: row, value };
    assert(place_rows(store, request).last() == change);
    assert(place_rows(store, request).contains(change));
    lemma_part_contains(store, request, change);
    assert(writes(plan, row, value));
    lemma_generation(store, request);
    lemma_entry_in(next_entry(request));
}

proof fn lemma_entry_in(entry: PathEntryView)
    requires
        path_entry_fault(entry) is None,
        entry.generation.wf(),
        entry.path_digest.len() == 32,
    ensures
        entry_in(path_entry_bytes(entry)) == Some(entry),
{
    reveal(entry_in);
    path_entry_round_trip(entry);
}

proof fn lemma_generation(store: MetaShard, request: FinalizePublishRequest)
    requires
        finalize_halt(store, request) is None,
        publication_halt(store, request) is None,
    ensures
        next_entry(request).generation.value == (match entry_before(store, request) {
            None => 1,
            Some(before) => before.generation.value + 1,
        }),
        request.expected_operation.record.claim is CreateOnly <==> entry_before(
            store,
            request,
        ) is None,
        request.expected_operation.record.dependency_count
            == request.dependency_owner_revision_ids@.len(),
        next_entry(request).path_digest.len() == 32,
{
    broadcast use lemma_sha256_len;

    reveal(target_halt);
    reveal(closure_halt);
}

/// Publishing a path creates the revision: available, with one reference
/// counted, of the first epoch, and with what the request and the operation
/// say of the artifact. There was no such revision.
pub proof fn publications_create_the_revision(store: MetaShard, request: FinalizePublishRequest)
    requires
        finalize_halt(store, request) is None,
        !(request.expected_operation.record.authority is CommitStaging),
    ensures
        expects(
            finalize_draft(store, request).plan,
            RowKeyView::ArtifactRevision {
                root_id: request.context.root_id,
                revision: request.expected_operation.record.artifact_revision_id,
            },
            None,
        ),
        installs_revision(
            finalize_draft(store, request).plan,
            RowKeyView::ArtifactRevision {
                root_id: request.context.root_id,
                revision: request.expected_operation.record.artifact_revision_id,
            },
            ArtifactRevisionView {
                logical_size: request.artifact.logical_size,
                body_digest_uri: request.artifact.body_digest_uri@,
                manifest_digest_uri: request.artifact.manifest_digest_uri@,
                block_count: request.expected_operation.record.manifest_row_count as u64,
                dependency_count: request.dependency_owner_revision_ids@.len() as u32,
                dependency_depth: request.expected_operation.record.dependency_depth,
                dependency_digest: dependency_digest_of(request.dependency_owner_revision_ids@),
                content_type: request.artifact.content_type@,
                state: RevisionState::Available,
                reference_epoch: ReferenceEpoch { value: 1 },
                strong_reference_count: 1,
                last_zero_ref_version: None,
            },
        ),
{
    broadcast use lemma_sha256_len;

    let revision = request.expected_operation.record.artifact_revision_id;
    let plan = finalize_draft(store, request).plan;
    let row = RowKeyView::ArtifactRevision { root_id: request.context.root_id, revision };
    let value = artifact_revision_bytes(new_revision(request));
    lemma_publication_rows(store, request);
    lemma_touched_facts(store, request);
    lemma_plan_changes(store, request, plan);
    let change = PlanMutationView::Put { key: row, value };
    assert(revision_rows(store, request)[0] == change);
    lemma_part_contains(store, request, change);
    assert(writes(plan, row, value));
    lemma_dependencies_sealed(store, request);
    lemma_revision_in(new_revision(request));
}

proof fn lemma_dependencies_sealed(store: MetaShard, request: FinalizePublishRequest)
    requires
        finalize_halt(store, request) is None,
    ensures
        request.expected_operation.record.dependency_count
            == request.dependency_owner_revision_ids@.len(),
        request.expected_operation.record.dependency_digest@ == dependency_digest_of(
            request.dependency_owner_revision_ids@,
        ),
{
    reveal(closure_halt);
}

/// The path refers to what it shows: the command puts its reference on the
/// published revision, of the first epoch, and removes the one on the revision
/// that it showed before. It changes no other reference of a path, and none of
/// a commit.
pub proof fn publications_move_the_path_reference(
    store: MetaShard,
    request: FinalizePublishRequest,
)
    requires
        finalize_halt(store, request) is None,
        !(request.expected_operation.record.authority is CommitStaging),
    ensures
        installs_reference(
            finalize_draft(store, request).plan,
            RowKeyView::PathRevisionRef {
                root_id: request.context.root_id,
                incarnation: request.expected_operation.record.workspace_incarnation_id,
                path: request.expected_operation.record.path@,
                revision: request.expected_operation.record.artifact_revision_id,
            },
            1,
        ),
        shown_before(store, request) is Some ==> removes(
            finalize_draft(store, request).plan,
            RowKeyView::PathRevisionRef {
                root_id: request.context.root_id,
                incarnation: request.expected_operation.record.workspace_incarnation_id,
                path: request.expected_operation.record.path@,
                revision: shown_before(store, request).unwrap(),
            },
        ),
        forall|i: int|
            0 <= i < finalize_draft(store, request).plan.mutations.len() ==> match (
            #[trigger] finalize_draft(store, request).plan.mutations[i]).key() {
                RowKeyView::PathRevisionRef { root_id, incarnation, path, revision } => {
                    &&& root_id == request.context.root_id
                    &&& incarnation == request.expected_operation.record.workspace_incarnation_id
                    &&& path == request.expected_operation.record.path@
                    &&& ({
                        ||| revision == request.expected_operation.record.artifact_revision_id
                        ||| shown_before(store, request) == Some(revision)
                    })
                },
                RowKeyView::CommitRef { .. } => false,
                _ => true,
            },
{
    let root_id = request.context.root_id;
    let operation = request.expected_operation.record;
    let plan = finalize_draft(store, request).plan;
    lemma_publication_rows(store, request);
    lemma_plan_changes(store, request, plan);
    lemma_changes(store, request);
    let key = RowKeyView::PathRevisionRef {
        root_id,
        incarnation: operation.workspace_incarnation_id,
        path: operation.path@,
        revision: operation.artifact_revision_id,
    };
    let value = revision_ref_bytes(
        RevisionRefRecord { reference_epoch_at_add: ReferenceEpoch { value: 1 } },
    );
    let change = PlanMutationView::Put { key, value };
    let rows = revision_rows(store, request);
    assert(rows[1] == change || rows[2] == change);
    assert(rows.contains(change));
    lemma_part_contains(store, request, change);
    assert(writes(plan, key, value));
    lemma_reference_in(ReferenceEpoch { value: 1 });
    match shown_before(store, request) {
        None => {},
        Some(shown) => {
            let gone = PlanMutationView::Delete {
                key: RowKeyView::PathRevisionRef {
                    root_id,
                    incarnation: operation.workspace_incarnation_id,
                    path: operation.path@,
                    revision: shown,
                },
            };
            assert(rows.last() == gone);
            assert(rows.contains(gone));
            lemma_part_contains(store, request, gone);
        },
    }
    assert forall|i: int| 0 <= i < plan.mutations.len() implies match (
    #[trigger] plan.mutations[i]).key() {
        RowKeyView::PathRevisionRef { root_id: root, incarnation, path, revision } => {
            &&& root == request.context.root_id
            &&& incarnation == operation.workspace_incarnation_id
            &&& path == operation.path@
            &&& revision == operation.artifact_revision_id || shown_before(store, request) == Some(
                revision,
            )
        },
        RowKeyView::CommitRef { .. } => false,
        _ => true,
    } by {
        assert(is_change(store, request, changed_rows(store, request)[i]));
    }
}

/// Dependencies are recorded: for every revision that the artifact borrows
/// from, the command puts the published revision's reference on it, where
/// there was none, of the epoch that the dependency then has. It records no
/// other dependency.
pub proof fn publications_record_their_dependencies(
    store: MetaShard,
    request: FinalizePublishRequest,
    dependency: ArtifactRevisionId,
)
    requires
        finalize_halt(store, request) is None,
        !(request.expected_operation.record.authority is CommitStaging),
    ensures
        request.dependency_owner_revision_ids@.contains(dependency) ==> {
            &&& revision_before(store, request, dependency) is Some
            &&& installs_reference(
                finalize_draft(store, request).plan,
                RowKeyView::DependencyRef {
                    root_id: request.context.root_id,
                    revision: request.expected_operation.record.artifact_revision_id,
                    dependency,
                },
                revision_before(store, request, dependency).unwrap().reference_epoch.value + 1,
            )
        },
        forall|i: int|
            0 <= i < finalize_draft(store, request).plan.mutations.len() ==> match (
            #[trigger] finalize_draft(store, request).plan.mutations[i]).key() {
                RowKeyView::DependencyRef { root_id, revision, dependency: other } => {
                    &&& finalize_draft(store, request).plan.mutations[i] is Put
                    &&& root_id == request.context.root_id
                    &&& revision == request.expected_operation.record.artifact_revision_id
                    &&& request.dependency_owner_revision_ids@.contains(other)
                },
                _ => true,
            },
{
    let plan = finalize_draft(store, request).plan;
    let owners = request.dependency_owner_revision_ids@;
    let ids = changed_revisions(store, request);
    lemma_publication_rows(store, request);
    lemma_touched_facts(store, request);
    lemma_plan_changes(store, request, plan);
    lemma_changes(store, request);
    if owners.contains(dependency) {
        assert(ids.contains(dependency));
        let i = choose|i: int| 0 <= i < ids.len() && ids[i] == dependency;
        let epoch = touched_after(store, request, dependency).reference_epoch;
        let key = RowKeyView::DependencyRef {
            root_id: request.context.root_id,
            revision: request.expected_operation.record.artifact_revision_id,
            dependency,
        };
        let value = revision_ref_bytes(RevisionRefRecord { reference_epoch_at_add: epoch });
        let change = PlanMutationView::Put { key, value };
        assert(touch_rows(store, request, dependency)[1] == change);
        lemma_touched_contains(store, request, ids.len(), i, change);
        lemma_part_contains(store, request, change);
        assert(writes(plan, key, value));
        lemma_reference_in(epoch);
        assert(expects_touched(plan, store, request, ids[i]));
    }
    assert forall|i: int| 0 <= i < plan.mutations.len() implies match (
    #[trigger] plan.mutations[i]).key() {
        RowKeyView::DependencyRef { root_id, revision, dependency: other } => {
            &&& plan.mutations[i] is Put
            &&& root_id == request.context.root_id
            &&& revision == request.expected_operation.record.artifact_revision_id
            &&& owners.contains(other)
        },
        _ => true,
    } by {
        assert(is_change(store, request, changed_rows(store, request)[i]));
    }
}

/// A revision that gains a dependent or loses the path is recorded so: its
/// epoch advances by one, its count by one up or down, and nothing else of it
/// changes but that it keeps the version of the command exactly where no
/// reference is left. The command expects the record that was read.
pub proof fn publications_recount_touched_revisions(
    store: MetaShard,
    request: FinalizePublishRequest,
    revision: ArtifactRevisionId,
)
    requires
        finalize_halt(store, request) is None,
        !(request.expected_operation.record.authority is CommitStaging),
        request.dependency_owner_revision_ids@.contains(revision) || shown_before(store, request)
            == Some(revision),
    ensures
        ({
            let plan = finalize_draft(store, request).plan;
            let row = RowKeyView::ArtifactRevision { root_id: request.context.root_id, revision };
            let before = revision_before(store, request, revision).unwrap();
            let count = count_left(store, request, revision);
            &&& revision_before(store, request, revision) is Some
            &&& expects(plan, row, bytes_of(store, request.context.read_version, row))
            &&& exists|value: Seq<u8>| #[trigger] writes(plan, row, value)
            &&& forall|value: Seq<u8>| #[trigger]
                writes(plan, row, value) ==> {
                    let after = revision_in(value).unwrap();
                    &&& revision_in(value) is Some
                    &&& after.strong_reference_count == count
                    &&& after.reference_epoch.value == before.reference_epoch.value + 1
                    &&& count > 0 ==> after.last_zero_ref_version is None
                    &&& count == 0 ==> after.last_zero_ref_version is Some
                        && after.last_zero_ref_version.unwrap().value == execution_context(
                        store,
                        request.context,
                    ).read_version.value + 1
                    &&& after == (ArtifactRevisionView {
                        reference_epoch: after.reference_epoch,
                        strong_reference_count: after.strong_reference_count,
                        last_zero_ref_version: after.last_zero_ref_version,
                        ..before
                    })
                }
        }),
{
    let i = lemma_touched_one(store, request, revision);
    lemma_revision_values(store, request, finalize_draft(store, request).plan, i);
    lemma_touched_record(store, request, revision);
}

/// What is known of one touched revision.
proof fn lemma_touched_one(
    store: MetaShard,
    request: FinalizePublishRequest,
    revision: ArtifactRevisionId,
) -> (i: int)
    requires
        finalize_halt(store, request) is None,
        !(request.expected_operation.record.authority is CommitStaging),
        request.dependency_owner_revision_ids@.contains(revision) || shown_before(store, request)
            == Some(revision),
    ensures
        0 <= i < changed_revisions(store, request).len(),
        changed_revisions(store, request)[i] == revision,
        revision != request.expected_operation.record.artifact_revision_id,
        finalize_draft(store, request).plan.mutations == changed_rows(store, request),
        revision_before(store, request, revision) is Some,
        revision_before(store, request, revision).unwrap().reference_epoch.value < u64::MAX,
        revision_before(store, request, revision).unwrap().dependency_digest.len() == 32,
        0 <= count_left(store, request, revision) <= u64::MAX,
        publication_version(store, request.context).wf(),
        publication_version(store, request.context).value == execution_context(
            store,
            request.context,
        ).read_version.value + 1,
        artifact_revision_fault(touched_after(store, request, revision)) is None,
        bytes_of(
            store,
            request.context.read_version,
            RowKeyView::ArtifactRevision { root_id: request.context.root_id, revision },
        ) is Some,
        expects_touched(finalize_draft(store, request).plan, store, request, revision),
        touched_after(store, request, revision).strong_reference_count == count_left(
            store,
            request,
            revision,
        ),
{
    let i = lemma_touched_index(store, request, revision);
    lemma_touched_planned(store, request, i);
    lemma_read_revision(store, request, revision);
    i
}

proof fn lemma_touched_index(
    store: MetaShard,
    request: FinalizePublishRequest,
    revision: ArtifactRevisionId,
) -> (i: int)
    requires
        finalize_halt(store, request) is None,
        !(request.expected_operation.record.authority is CommitStaging),
        request.dependency_owner_revision_ids@.contains(revision) || shown_before(store, request)
            == Some(revision),
    ensures
        0 <= i < changed_revisions(store, request).len(),
        changed_revisions(store, request)[i] == revision,
        revision != request.expected_operation.record.artifact_revision_id,
        revision_before(store, request, revision) is Some,
        revision_before(store, request, revision).unwrap().reference_epoch.value < u64::MAX,
        0 <= count_left(store, request, revision) <= u64::MAX,
        publication_version(store, request.context).wf(),
{
    lemma_touched_facts(store, request);
    let ids = changed_revisions(store, request);
    assert(ids.contains(revision));
    choose|i: int| 0 <= i < ids.len() && ids[i] == revision
}

proof fn lemma_touched_planned(store: MetaShard, request: FinalizePublishRequest, i: int)
    requires
        finalize_halt(store, request) is None,
        !(request.expected_operation.record.authority is CommitStaging),
        0 <= i < changed_revisions(store, request).len(),
    ensures
        publication_halt(store, request) is None,
        finalize_draft(store, request).plan.mutations == changed_rows(store, request),
        artifact_revision_fault(
            touched_after(store, request, changed_revisions(store, request)[i]),
        ) is None,
        expects_touched(
            finalize_draft(store, request).plan,
            store,
            request,
            changed_revisions(store, request)[i],
        ),
        publication_version(store, request.context).value == execution_context(
            store,
            request.context,
        ).read_version.value + 1,
{
    lemma_publication_rows(store, request);
    reveal(settlement_halt);
}

/// What a touched revision becomes.
proof fn lemma_touched_record(
    store: MetaShard,
    request: FinalizePublishRequest,
    revision: ArtifactRevisionId,
)
    requires
        revision_before(store, request, revision).unwrap().reference_epoch.value < u64::MAX,
        0 <= count_left(store, request, revision) <= u64::MAX,
        publication_version(store, request.context).wf(),
        revision_before(store, request, revision).unwrap().dependency_digest.len() == 32,
        artifact_revision_fault(touched_after(store, request, revision)) is None,
    ensures
        ({
            let before = revision_before(store, request, revision).unwrap();
            let after = touched_after(store, request, revision);
            let count = count_left(store, request, revision);
            &&& revision_in(artifact_revision_bytes(after)) == Some(after)
            &&& after.strong_reference_count == count
            &&& after.reference_epoch.value == before.reference_epoch.value + 1
            &&& count > 0 ==> after.last_zero_ref_version is None
            &&& count == 0 ==> after.last_zero_ref_version == Some(
                publication_version(store, request.context),
            )
            &&& after == (ArtifactRevisionView {
                reference_epoch: after.reference_epoch,
                strong_reference_count: after.strong_reference_count,
                last_zero_ref_version: after.last_zero_ref_version,
                ..before
            })
        }),
{
    lemma_revision_in(touched_after(store, request, revision));
}

/// What a plan puts under a touched revision.
proof fn lemma_revision_values(
    store: MetaShard,
    request: FinalizePublishRequest,
    plan: PlanView,
    i: int,
)
    requires
        plan.mutations == changed_rows(store, request),
        0 <= i < changed_revisions(store, request).len(),
        changed_revisions(store, request)[i]
            != request.expected_operation.record.artifact_revision_id,
    ensures
        ({
            let revision = changed_revisions(store, request)[i];
            let row = RowKeyView::ArtifactRevision { root_id: request.context.root_id, revision };
            let next = artifact_revision_bytes(touched_after(store, request, revision));
            &&& writes(plan, row, next)
            &&& forall|value: Seq<u8>| #[trigger] writes(plan, row, value) ==> value == next
        }),
{
    let ids = changed_revisions(store, request);
    let revision = ids[i];
    let row = RowKeyView::ArtifactRevision { root_id: request.context.root_id, revision };
    let value = artifact_revision_bytes(touched_after(store, request, revision));
    let change = PlanMutationView::Put { key: row, value };
    lemma_plan_changes(store, request, plan);
    assert(touch_rows(store, request, revision)[0] == change);
    lemma_touched_contains(store, request, ids.len(), i, change);
    lemma_part_contains(store, request, change);
}

/// What a plan puts under the candidate of a touched revision.
proof fn lemma_candidate_values(
    store: MetaShard,
    request: FinalizePublishRequest,
    plan: PlanView,
    i: int,
)
    requires
        plan.mutations == changed_rows(store, request),
        0 <= i < changed_revisions(store, request).len(),
        touched_after(
            store,
            request,
            changed_revisions(store, request)[i],
        ).strong_reference_count == 0,
    ensures
        ({
            let revision = changed_revisions(store, request)[i];
            let row = RowKeyView::GcCandidate {
                root_id: request.context.root_id,
                revision,
                epoch: touched_after(store, request, revision).reference_epoch,
            };
            let made = gc_candidate_bytes(
                fresh_candidate(publication_version(store, request.context)),
            );
            &&& writes(plan, row, made)
            &&& forall|value: Seq<u8>| #[trigger] writes(plan, row, value) ==> value == made
        }),
{
    let ids = changed_revisions(store, request);
    let revision = ids[i];
    let row = RowKeyView::GcCandidate {
        root_id: request.context.root_id,
        revision,
        epoch: touched_after(store, request, revision).reference_epoch,
    };
    let value = gc_candidate_bytes(fresh_candidate(publication_version(store, request.context)));
    let change = PlanMutationView::Put { key: row, value };
    lemma_plan_changes(store, request, plan);
    let rows = touch_rows(store, request, revision);
    assert(rows.last() == change);
    assert(rows.contains(change));
    lemma_touched_contains(store, request, ids.len(), i, change);
    lemma_part_contains(store, request, change);
}

/// Which candidates a plan makes.
proof fn lemma_candidates(store: MetaShard, request: FinalizePublishRequest, plan: PlanView)
    requires
        plan.mutations == changed_rows(store, request),
    ensures
        forall|i: int|
            0 <= i < plan.mutations.len() ==> match (#[trigger] plan.mutations[i]).key() {
                RowKeyView::GcCandidate { root_id, revision, epoch } => {
                    &&& root_id == request.context.root_id
                    &&& changed_revisions(store, request).contains(revision)
                    &&& touched_after(store, request, revision).strong_reference_count == 0
                    &&& epoch == touched_after(store, request, revision).reference_epoch
                },
                _ => true,
            },
{
    lemma_changes(store, request);
    assert forall|i: int| 0 <= i < plan.mutations.len() implies match (
    #[trigger] plan.mutations[i]).key() {
        RowKeyView::GcCandidate { root_id, revision, epoch } => {
            &&& root_id == request.context.root_id
            &&& changed_revisions(store, request).contains(revision)
            &&& touched_after(store, request, revision).strong_reference_count == 0
            &&& epoch == touched_after(store, request, revision).reference_epoch
        },
        _ => true,
    } by {
        assert(is_change(store, request, changed_rows(store, request)[i]));
    }
}

/// How many references a revision is left with: one more for the new
/// dependent, and one less for the path that leaves it.
pub open spec fn count_left(
    store: MetaShard,
    request: FinalizePublishRequest,
    revision: ArtifactRevisionId,
) -> int {
    let gains: int = if request.dependency_owner_revision_ids@.contains(revision) {
        1
    } else {
        0
    };
    let loses: int = if shown_before(store, request) == Some(revision) {
        1
    } else {
        0
    };
    revision_before(store, request, revision).unwrap().strong_reference_count + gains - loses
}

/// A revision is handed to collection when, and only when, the publication
/// leaves it without references: as a fresh candidate of its new epoch, with
/// the version of the command.
pub proof fn publications_hand_over_unreferenced_revisions(
    store: MetaShard,
    request: FinalizePublishRequest,
    revision: ArtifactRevisionId,
)
    requires
        finalize_halt(store, request) is None,
        !(request.expected_operation.record.authority is CommitStaging),
        request.dependency_owner_revision_ids@.contains(revision) || shown_before(store, request)
            == Some(revision),
    ensures
        count_left(store, request, revision) == 0 ==> {
            let plan = finalize_draft(store, request).plan;
            let candidate = RowKeyView::GcCandidate {
                root_id: request.context.root_id,
                revision,
                epoch: ReferenceEpoch {
                    value: (revision_before(
                        store,
                        request,
                        revision,
                    ).unwrap().reference_epoch.value + 1) as u64,
                },
            };
            &&& expects(plan, candidate, None)
            &&& exists|value: Seq<u8>| #[trigger] writes(plan, candidate, value)
            &&& forall|value: Seq<u8>| #[trigger]
                writes(plan, candidate, value) ==> {
                    let made = candidate_in(value).unwrap();
                    &&& candidate_in(value) is Some
                    &&& made.last_zero_ref_version.value == execution_context(
                        store,
                        request.context,
                    ).read_version.value + 1
                    &&& made.claim_state == GcClaimState::Candidate
                    &&& made.retry_count == 0
                    &&& made.quarantine_evidence is None
                }
        },
{
    let plan = finalize_draft(store, request).plan;
    let i = lemma_touched_one(store, request, revision);
    lemma_candidate_in(publication_version(store, request.context));
    if count_left(store, request, revision) == 0 {
        lemma_candidate_values(store, request, plan, i);
    }
}

/// Nothing else is handed to collection.
pub proof fn publications_hand_over_nothing_else(store: MetaShard, request: FinalizePublishRequest)
    requires
        finalize_halt(store, request) is None,
        !(request.expected_operation.record.authority is CommitStaging),
    ensures
        forall|i: int|
            0 <= i < finalize_draft(store, request).plan.mutations.len() ==> match (
            #[trigger] finalize_draft(store, request).plan.mutations[i]).key() {
                RowKeyView::GcCandidate { root_id, revision: other, epoch } => {
                    &&& root_id == request.context.root_id
                    &&& request.dependency_owner_revision_ids@.contains(other) || shown_before(
                        store,
                        request,
                    ) == Some(other)
                    &&& count_left(store, request, other) == 0
                    &&& epoch.value == revision_before(
                        store,
                        request,
                        other,
                    ).unwrap().reference_epoch.value + 1
                },
                _ => true,
            },
{
    let plan = finalize_draft(store, request).plan;
    lemma_publication_rows(store, request);
    lemma_candidates(store, request, plan);
    lemma_touched_facts(store, request);
    assert forall|i: int|
        0 <= i < plan.mutations.len() && (#[trigger] plan.mutations[i]).key()
            is GcCandidate implies match plan.mutations[i].key() {
        RowKeyView::GcCandidate { root_id, revision: other, epoch } => {
            &&& root_id == request.context.root_id
            &&& request.dependency_owner_revision_ids@.contains(other) || shown_before(
                store,
                request,
            ) == Some(other)
            &&& count_left(store, request, other) == 0
            &&& epoch.value == revision_before(
                store,
                request,
                other,
            ).unwrap().reference_epoch.value + 1
        },
        _ => true,
    } by {
        let other = plan.mutations[i].key()->GcCandidate_revision;
        assert(changed_revisions(store, request).contains(other));
    }
}

proof fn lemma_candidate_in(version: CommitVersion)
    requires
        version.wf(),
    ensures
        candidate_in(gc_candidate_bytes(fresh_candidate(version))) == Some(
            fresh_candidate(version),
        ),
{
    reveal(candidate_in);
    gc_candidate_round_trip(fresh_candidate(version));
}

/// A revision that was read has a digest of its dependencies.
proof fn lemma_read_revision(
    store: MetaShard,
    request: FinalizePublishRequest,
    revision: ArtifactRevisionId,
)
    requires
        finalize_halt(store, request) is None,
        publication_halt(store, request) is None,
        request.dependency_owner_revision_ids@.contains(revision) || shown_before(store, request)
            == Some(revision),
    ensures
        bytes_of(
            store,
            request.context.read_version,
            RowKeyView::ArtifactRevision { root_id: request.context.root_id, revision },
        ) is Some,
        revision_before(store, request, revision).unwrap().dependency_digest.len() == 32,
{
    let context = request.context;
    let owners = request.dependency_owner_revision_ids@;
    reveal(owners_halt);
    if owners.contains(revision) {
        let i = choose|i: int| 0 <= i < owners.len() && owners[i] == revision;
        lemma_fault_none(dependencies_halt(store, context, owners), owners.len(), i);
    }
    reveal(available_halt);
    reveal(revision_halt);
    reveal(revision_of);
    let key = revision_key_of(context, revision);
    let bytes = bytes_of(store, context.read_version, key).unwrap();
    assert(parse_artifact_revision(bytes) is Ok);
    artifact_revision_canonical(bytes);
}

/// The index generation becomes visible with the path: the command expects
/// the locator that was staged for this request and leaves it published, for
/// the same path, and expects every index row of the projection as it was
/// staged.
pub proof fn publications_publish_the_locator(store: MetaShard, request: FinalizePublishRequest)
    requires
        finalize_halt(store, request) is None,
        !(request.expected_operation.record.authority is CommitStaging),
        request.expected_operation.record.wf(),
    ensures
        ({
            let plan = finalize_draft(store, request).plan;
            let operation = request.expected_operation.record;
            let row = RowKeyView::Raw {
                family: MetadataFamily::PathIndexLocator,
                key: locator_key(
                    request.context.root_id,
                    operation.workspace_incarnation_id,
                    path_digest_of(operation.path@),
                    PathIndexGenerationId { bits: request.context.request_id.bits },
                ),
            };
            let rows = index_rows_of(
                request.context.root_id,
                operation.workspace_incarnation_id,
                path_digest_of(operation.path@),
                PathIndexGenerationId { bits: request.context.request_id.bits },
                fields_in(request.artifact.typed_index_projection@).unwrap(),
            );
            &&& fields_in(request.artifact.typed_index_projection@) is Some
            &&& exists|before: Seq<u8>| #[trigger]
                expects(plan, row, Some(before)) && locator_in(before) == Some(
                    (PathIndexLocatorState::Staged, operation.path@),
                )
            &&& exists|value: Seq<u8>| #[trigger] writes(plan, row, value)
            &&& forall|value: Seq<u8>| #[trigger]
                writes(plan, row, value) ==> locator_in(value) == Some(
                    (PathIndexLocatorState::Published, operation.path@),
                )
            &&& forall|i: int|
                0 <= i < rows.len() ==> expects(
                    plan,
                    RowKeyView::Raw {
                        family: MetadataFamily::SecondaryIndex,
                        key: (#[trigger] rows[i]).0,
                    },
                    Some(rows[i].1),
                )
        }),
{
    let operation = request.expected_operation.record;
    let plan = finalize_draft(store, request).plan;
    lemma_publication_rows(store, request);
    lemma_plan_changes(store, request, plan);
    lemma_asked_fields(store, request);
    let row = RowKeyView::Raw {
        family: MetadataFamily::PathIndexLocator,
        key: asked_locator(request),
    };
    let before = locator_payload_of(request, PathIndexLocatorState::Staged);
    let value = locator_payload_of(request, PathIndexLocatorState::Published);
    assert(expects(plan, row, Some(before)));
    let change = PlanMutationView::Put { key: row, value };
    assert(locator_rows(request)[0] == change);
    lemma_part_contains(store, request, change);
    assert(writes(plan, row, value));
    lemma_locator_in((PathIndexLocatorState::Staged, operation.path@));
    lemma_locator_in((PathIndexLocatorState::Published, operation.path@));
}

proof fn lemma_locator_in(record: (PathIndexLocatorState, Seq<char>))
    requires
        path_fault(record.1) is None,
    ensures
        locator_in(locator_bytes(record)) == Some(record),
{
    reveal(locator_in);
    locator_round_trip(record);
}

proof fn lemma_asked_fields(store: MetaShard, request: FinalizePublishRequest)
    requires
        finalize_halt(store, request) is None,
    ensures
        fields_in(request.artifact.typed_index_projection@) == Some(asked_fields(request)),
        projection_fault(asked_fields(request)) is None,
        fields_sorted(asked_fields(request)),
        floats_canonical(asked_fields(request)),
{
    reveal(closure_halt);
    reveal(fields_in);
    projection_canonical(request.artifact.typed_index_projection@);
}

/// The fields that a path is indexed under, where its entry holds any.
pub open spec fn fields_of_entry(entry: Option<PathEntryView>) -> Option<Seq<FieldView>> {
    match entry {
        None => Some(Seq::empty()),
        Some(entry) => if entry.typed_index_projection.len() == 0 {
            Some(Seq::empty())
        } else {
            fields_in(entry.typed_index_projection)
        },
    }
}

/// Everyone is told what changed: a publication into a visible workspace emits
/// one event, which says that the artifact was published, where and by which
/// operation. Its fields before are those of the path's entry as it was read,
/// none where there was no entry, and its fields after are those of the
/// artifact, which the path's new entry holds. Any other publication is
/// silent.
pub proof fn publications_tell_what_changed(store: MetaShard, request: FinalizePublishRequest)
    requires
        finalize_halt(store, request) is None,
        !(request.expected_operation.record.authority is CommitStaging),
        request.expected_operation.record.wf(),
    ensures
        !(request.expected_operation.record.authority is Visible) ==> finalize_draft(
            store,
            request,
        ).plan.events.len() == 0,
        request.expected_operation.record.authority is Visible ==> {
            let plan = finalize_draft(store, request).plan;
            let operation = request.expected_operation.record;
            let event = event_in(plan.events[0]).unwrap();
            &&& plan.events.len() == 1
            &&& event_in(plan.events[0]) is Some
            &&& event.kind == ChangeEventKind::ArtifactPublished
            &&& event.workbench_id == operation.workbench_id@
            &&& event.workspace_incarnation_id == operation.workspace_incarnation_id
            &&& event.artifact_revision_id == Some(operation.artifact_revision_id)
            &&& event.operation_id == Some(operation.operation_id)
            &&& event.path == Some(operation.path@)
            &&& event.commit_id is None
            &&& fields_of_entry(entry_before(store, request)) == Some(event.before)
            &&& fields_in(request.artifact.typed_index_projection@) == Some(event.after)
        },
{
    lemma_publication_rows(store, request);
    lemma_asked_fields(store, request);
    lemma_fields_before(store, request);
    if request.expected_operation.record.authority is Visible {
        lemma_event_in(event_of(store, request));
    }
}

proof fn lemma_fields_before(store: MetaShard, request: FinalizePublishRequest)
    requires
        publication_halt(store, request) is None,
    ensures
        fields_of_entry(entry_before(store, request)) == Some(current_fields(store, request)),
        projection_fault(current_fields(store, request)) is None,
        fields_sorted(current_fields(store, request)),
        floats_canonical(current_fields(store, request)),
{
    reveal(target_halt);
    reveal(fields_in);
    lemma_no_fields();
    match entry_before(store, request) {
        None => {},
        Some(entry) => {
            if entry.typed_index_projection.len() > 0 {
                projection_canonical(entry.typed_index_projection);
            }
        },
    }
}

proof fn lemma_no_fields()
    ensures
        projection_fault(Seq::<FieldView>::empty()) is None,
{
    broadcast use lemma_be_bytes_len;

    assert(fields_bytes(Seq::<FieldView>::empty()) =~= Seq::empty());
}

proof fn lemma_event_in(event: ChangeEventView)
    requires
        change_event_valid(event),
    ensures
        event_in(change_event_bytes(event)) == Some(event),
{
    reveal(event_in);
    change_event_round_trip(event);
}

/// A publication into a visible workspace takes the workspace one revision
/// further, and changes nothing else of it. Any other leaves it as it is.
pub proof fn publications_advance_the_workspace(store: MetaShard, request: FinalizePublishRequest)
    requires
        finalize_halt(store, request) is None,
        !(request.expected_operation.record.authority is CommitStaging),
    ensures
        ({
            let plan = finalize_draft(store, request).plan;
            let operation = request.expected_operation.record;
            let row = RowKeyView::WorkspaceCurrent {
                root_id: request.context.root_id,
                workbench_id: operation.workbench_id@,
            };
            let before = workspace_of(store, request.context.read_version, row).unwrap();
            &&& workspace_of(store, request.context.read_version, row) is Some
            &&& operation.authority is Visible ==> {
                &&& exists|value: Seq<u8>| #[trigger] writes(plan, row, value)
                &&& forall|value: Seq<u8>| #[trigger]
                    writes(plan, row, value) ==> {
                        let after = workspace_in(value).unwrap();
                        &&& workspace_in(value) is Some
                        &&& after.workspace_revision.value == before.workspace_revision.value + 1
                        &&& after.incarnation_id == before.incarnation_id
                        &&& after.state == before.state
                        &&& after.owning_operation_id == before.owning_operation_id
                    }
            }
            &&& forall|i: int|
                0 <= i < plan.mutations.len() ==> ((#[trigger] plan.mutations[i]).key()
                    is WorkspaceCurrent ==> operation.authority is Visible
                    && plan.mutations[i].key() == row && plan.mutations[i] is Put)
        }),
{
    let operation = request.expected_operation.record;
    let plan = finalize_draft(store, request).plan;
    let row = RowKeyView::WorkspaceCurrent {
        root_id: request.context.root_id,
        workbench_id: operation.workbench_id@,
    };
    lemma_publication_rows(store, request);
    lemma_plan_changes(store, request, plan);
    lemma_changes(store, request);
    assert(workspace_of(store, request.context.read_version, row) is Some && workspace_of(
        store,
        request.context.read_version,
        row,
    ).unwrap().workspace_revision.value < u64::MAX) by {
        reveal(target_halt);
    }
    let before = workspace_of(store, request.context.read_version, row).unwrap();
    let next = WorkspaceRecord {
        workspace_revision: next_workspace_revision(store, request),
        ..before
    };
    if operation.authority is Visible {
        let value = workspace_bytes(next);
        let change = PlanMutationView::Put { key: row, value };
        assert(place_rows(store, request)[1] == change);
        lemma_part_contains(store, request, change);
        assert(writes(plan, row, value));
        lemma_workspace_in(next);
    }
    assert forall|i: int|
        0 <= i < plan.mutations.len() && (#[trigger] plan.mutations[i]).key()
            is WorkspaceCurrent implies operation.authority is Visible && plan.mutations[i].key()
        == row && plan.mutations[i] is Put by {
        assert(is_change(store, request, changed_rows(store, request)[i]));
    }
}

proof fn lemma_workspace_in(record: WorkspaceRecord)
    ensures
        workspace_in(workspace_bytes(record)) == Some(record),
{
    reveal(workspace_in);
    workspace_round_trip(record);
}

/// What one touched revision does to the references of any revision.
proof fn lemma_touch_net(
    store: MetaShard,
    request: FinalizePublishRequest,
    revision: ArtifactRevisionId,
    target: ArtifactRevisionId,
    count: int,
)
    ensures
        net_references(
            touch_rows(store, request, revision),
            request.context.root_id,
            target,
        ) == (if revision == target && request.dependency_owner_revision_ids@.contains(revision) {
            1int
        } else {
            0
        }),
        count_after(
            count,
            touch_rows(store, request, revision),
            request.context.root_id,
            target,
        ) == (if revision == target {
            revision_in(
                artifact_revision_bytes(touched_after(store, request, revision)),
            ).unwrap().strong_reference_count as int
        } else {
            count
        }),
{
    let root = request.context.root_id;
    let rows = touch_rows(store, request, revision);
    let adds = request.dependency_owner_revision_ids@.contains(revision);
    let empty = touched_after(store, request, revision).strong_reference_count == 0;
    let none = Seq::<PlanMutationView>::empty();
    let a = seq![rows[0]];
    let b = if adds {
        seq![rows[1]]
    } else {
        none
    };
    let c = if empty {
        seq![rows.last()]
    } else {
        none
    };
    assert(rows =~= (a + b) + c);
    lemma_net_concat(a, b, root, target, count);
    lemma_net_concat(a + b, c, root, target, count);
    lemma_net_one(rows[0], root, target, count);
    let counted = count_after(count, a, root, target);
    lemma_net_one(rows[1], root, target, counted);
    lemma_net_one(rows.last(), root, target, counted);
}

proof fn lemma_touched_net(
    store: MetaShard,
    request: FinalizePublishRequest,
    n: nat,
    target: ArtifactRevisionId,
    count: int,
)
    requires
        n <= changed_revisions(store, request).len(),
        owners_sorted(changed_revisions(store, request)),
    ensures
        net_references(touched_rows(store, request, n), request.context.root_id, target) == (
        if changed_revisions(store, request).take(n as int).contains(target)
            && request.dependency_owner_revision_ids@.contains(target) {
            1int
        } else {
            0
        }),
        count_after(
            count,
            touched_rows(store, request, n),
            request.context.root_id,
            target,
        ) == (if changed_revisions(store, request).take(n as int).contains(target) {
            revision_in(
                artifact_revision_bytes(touched_after(store, request, target)),
            ).unwrap().strong_reference_count as int
        } else {
            count
        }),
    decreases n,
{
    let root = request.context.root_id;
    let ids = changed_revisions(store, request);
    if n > 0 {
        let m = (n - 1) as nat;
        let revision = ids[n - 1];
        lemma_touched_net(store, request, m, target, count);
        let rest = touched_rows(store, request, m);
        lemma_net_concat(rest, touch_rows(store, request, revision), root, target, count);
        lemma_touch_net(
            store,
            request,
            revision,
            target,
            count_after(count, rest, root, target),
        );
        lemma_touch_net(store, request, revision, target, count);
        assert(ids.take(n as int) =~= ids.take(m as int) + seq![revision]);
        lemma_concat_contains(ids.take(m as int), seq![revision], target);
        assert(seq![revision].contains(target) <==> revision == target) by {
            assert(seq![revision][0] == revision);
        }
        if ids.take(m as int).contains(target) {
            let j = choose|j: int| 0 <= j < m && ids.take(m as int)[j] == target;
            assert(ids[j].bits < ids[n - 1].bits);
        }
    }
}

/// What the rest of a publication does to the references of any revision.
proof fn lemma_head_net(
    store: MetaShard,
    request: FinalizePublishRequest,
    target: ArtifactRevisionId,
    count: int,
)
    requires
        shown_before(store, request) != Some(
            request.expected_operation.record.artifact_revision_id,
        ),
        revision_in(artifact_revision_bytes(new_revision(request))) == Some(new_revision(request)),
    ensures
        ({
            let head = place_rows(store, request) + locator_rows(request) + revision_rows(
                store,
                request,
            );
            let root = request.context.root_id;
            let new = target == request.expected_operation.record.artifact_revision_id;
            let shown = shown_before(store, request) == Some(target);
            &&& net_references(head, root, target) == (if new {
                1int
            } else if shown {
                -1
            } else {
                0
            })
            &&& count_after(count, head, root, target) == (if new {
                1
            } else {
                count
            })
        }),
{
    let root = request.context.root_id;
    let none = Seq::<PlanMutationView>::empty();
    let a = place_rows(store, request);
    let b = locator_rows(request);
    let c = revision_rows(store, request);
    lemma_net_concat(a, b, root, target, count);
    lemma_net_concat(a + b, c, root, target, count);
    let a0 = seq![a[0]];
    let a1 = if a.len() == 3 {
        seq![a[1]]
    } else {
        none
    };
    let a2 = seq![a[a.len() - 1]];
    assert(a =~= (a0 + a1) + a2);
    lemma_net_concat(a0, a1, root, target, count);
    lemma_net_concat(a0 + a1, a2, root, target, count);
    lemma_net_one(a[0], root, target, count);
    lemma_net_one(a[1], root, target, count);
    lemma_net_one(a[a.len() - 1], root, target, count);
    lemma_net_one(b[0], root, target, count);
    assert(b =~= seq![b[0]]);
    let held = holds_claim(
        store,
        execution_context(store, request.context),
        request.expected_operation.record.artifact_revision_id,
        request.expected_operation.record.operation_id,
    );
    let k: int = if held {
        2
    } else {
        1
    };
    let c0 = seq![c[0]];
    let c1 = if held {
        seq![c[1]]
    } else {
        none
    };
    let c2 = seq![c[k]];
    let c3 = if shown_before(store, request) is Some {
        seq![c[k + 1]]
    } else {
        none
    };
    assert(c =~= ((c0 + c1) + c2) + c3);
    lemma_net_concat(c0, c1, root, target, count);
    lemma_net_concat(c0 + c1, c2, root, target, count);
    lemma_net_concat((c0 + c1) + c2, c3, root, target, count);
    let counted = count_after(count, c0, root, target);
    lemma_net_one(c[0], root, target, count);
    lemma_net_one(c[1], root, target, counted);
    lemma_net_one(c[k], root, target, counted);
    lemma_net_one(c[k + 1], root, target, counted);
}

/// References are balanced: for every revision, publishing a path changes the
/// references that its record counts by those that the command puts on it,
/// less those that it removes. The published revision had none; a revision
/// that the path showed or the artifact borrows from had those that were read.
pub proof fn publication_references_are_balanced(
    store: MetaShard,
    request: FinalizePublishRequest,
    target: ArtifactRevisionId,
    count: int,
)
    requires
        finalize_halt(store, request) is None,
        !(request.expected_operation.record.authority is CommitStaging),
        target == request.expected_operation.record.artifact_revision_id ==> count == 0,
        request.dependency_owner_revision_ids@.contains(target) || shown_before(store, request)
            == Some(target) ==> count == revision_before(
            store,
            request,
            target,
        ).unwrap().strong_reference_count,
    ensures
        count_after(
            count,
            finalize_draft(store, request).plan.mutations,
            request.context.root_id,
            target,
        ) - count == net_references(
            finalize_draft(store, request).plan.mutations,
            request.context.root_id,
            target,
        ),
{
    broadcast use lemma_sha256_len;

    let root = request.context.root_id;
    let ids = changed_revisions(store, request);
    lemma_publication_rows(store, request);
    lemma_touched_facts(store, request);
    lemma_dependencies_sealed(store, request);
    lemma_revision_in(new_revision(request));
    assert(ids.contains(target) <==> request.dependency_owner_revision_ids@.contains(target)
        || shown_before(store, request) == Some(target));
    assert(!ids.contains(request.expected_operation.record.artifact_revision_id));
    lemma_publication_balance(store, request, target, count);
}

proof fn lemma_publication_balance(
    store: MetaShard,
    request: FinalizePublishRequest,
    target: ArtifactRevisionId,
    count: int,
)
    requires
        finalize_halt(store, request) is None,
        !(request.expected_operation.record.authority is CommitStaging),
        owners_sorted(changed_revisions(store, request)),
        changed_revisions(store, request).contains(target)
            <==> request.dependency_owner_revision_ids@.contains(target) || shown_before(
            store,
            request,
        ) == Some(target),
        changed_revisions(store, request).contains(target) ==> target
            != request.expected_operation.record.artifact_revision_id,
        shown_before(store, request) != Some(
            request.expected_operation.record.artifact_revision_id,
        ),
        revision_in(artifact_revision_bytes(new_revision(request))) == Some(new_revision(request)),
        target == request.expected_operation.record.artifact_revision_id ==> count == 0,
        changed_revisions(store, request).contains(target) ==> count == revision_before(
            store,
            request,
            target,
        ).unwrap().strong_reference_count,
    ensures
        count_after(
            count,
            changed_rows(store, request),
            request.context.root_id,
            target,
        ) - count == net_references(
            changed_rows(store, request),
            request.context.root_id,
            target,
        ),
{
    let root = request.context.root_id;
    let ids = changed_revisions(store, request);
    let head = place_rows(store, request) + locator_rows(request) + revision_rows(store, request);
    let n = ids.len();
    lemma_head_net(store, request, target, count);
    lemma_net_concat(head, touched_rows(store, request, n), root, target, count);
    lemma_touched_net(store, request, n, target, count_after(count, head, root, target));
    assert(ids.take(n as int) =~= ids);
    if ids.contains(target) {
        let i = lemma_touched_one(store, request, target);
        lemma_touched_record(store, request, target);
    }
}

/// Publishing a path changes its own rows and no others: its operation, the
/// workspace, the path, the locator, the revision and its claim, the
/// references of the path and of the revision, and the records and candidates
/// of the revisions that it depends on or that the path showed. It removes the
/// claim and the path's reference before, and no other row.
pub proof fn publications_change_their_own_rows(store: MetaShard, request: FinalizePublishRequest)
    requires
        finalize_halt(store, request) is None,
        !(request.expected_operation.record.authority is CommitStaging),
    ensures
        writes(
            finalize_draft(store, request).plan,
            RowKeyView::Operation {
                root_id: request.context.root_id,
                kind: OperationKind::Publish,
                operation_id: request.expected_operation.record.operation_id,
            },
            store.next_payload.unwrap().unwrap()@,
        ),
        forall|i: int|
            0 <= i < finalize_draft(store, request).plan.mutations.len() ==> {
                let change = #[trigger] finalize_draft(store, request).plan.mutations[i];
                let operation = request.expected_operation.record;
                match change.key() {
                    RowKeyView::Operation { root_id, kind, operation_id } => {
                        &&& change is Put
                        &&& root_id == request.context.root_id
                        &&& kind == OperationKind::Publish
                        &&& operation_id == operation.operation_id
                    },
                    RowKeyView::PathCurrent { root_id, incarnation, path } => {
                        &&& change is Put
                        &&& root_id == request.context.root_id
                        &&& incarnation == operation.workspace_incarnation_id
                        &&& path == operation.path@
                    },
                    RowKeyView::ArtifactRevision { root_id, revision } => {
                        &&& change is Put
                        &&& root_id == request.context.root_id
                        &&& ({
                            ||| revision == operation.artifact_revision_id
                            ||| request.dependency_owner_revision_ids@.contains(revision)
                            ||| shown_before(store, request) == Some(revision)
                        })
                    },
                    RowKeyView::ArtifactRevisionClaim { root_id, revision } => {
                        &&& change is Delete
                        &&& root_id == request.context.root_id
                        &&& revision == operation.artifact_revision_id
                    },
                    RowKeyView::Raw { family, .. } => {
                        &&& change is Put
                        &&& family == MetadataFamily::PathIndexLocator
                    },
                    RowKeyView::PathRevisionRef { revision, .. } => {
                        change is Delete <==> shown_before(store, request) == Some(revision)
                    },
                    RowKeyView::DependencyRef { .. } => change is Put,
                    RowKeyView::GcCandidate { .. } => change is Put,
                    RowKeyView::WorkspaceCurrent { .. } => change is Put,
                    RowKeyView::StagedObject { .. } => false,
                    RowKeyView::ArtifactManifest { .. } => false,
                    RowKeyView::CommitRef { .. } => false,
                }
            },
{
    let plan = finalize_draft(store, request).plan;
    let operation = request.expected_operation.record;
    lemma_publication_rows(store, request);
    lemma_changes(store, request);
    lemma_touched_facts(store, request);
    let change = place_rows(store, request)[0];
    assert(place_rows(store, request).contains(change));
    lemma_part_contains(store, request, change);
    assert forall|i: int| 0 <= i < plan.mutations.len() implies is_change(
        store,
        request,
        #[trigger] plan.mutations[i],
    ) by {
        assert(is_change(store, request, changed_rows(store, request)[i]));
    }
    assert(!changed_revisions(store, request).contains(operation.artifact_revision_id));
}

} // verus!
