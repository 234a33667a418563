//! The life of a claim: it is taken by a beginning, lasts through every step
//! that is carried out, of its own operation and of others, until its own
//! operation gives it up, and the revision can then be begun again.

use crate::ids::{ArtifactRevisionId, OperationId, RootId};
use crate::publication_authority::{authority_draft, claim_key_of, claim_release_draft,
    revision_key_of};
use crate::publication_batches::{mark_uploaded_draft, stage_objects_draft,
    MarkObjectsUploadedBatchRequest, StageObjectsBatchRequest};
use crate::publication_claim_laws::{batches_spare_claims, beginnings_spare_foreign_claims,
    beginnings_write_their_claim, claim_context, finished_cleanups_give_up_their_claim,
    held_claims_refuse_a_beginning, holds_claim, index_stages_spare_claims, leaves_row,
    lemma_row_untouched, own_claim, publications_spare_claims, resolutions_spare_claims, row_after,
    spares_claims, steps_in_flight_spare_claims, sweeps_spare_claims, transitions_spare_claims};
use crate::publication_commit_stage::{commit_stage_referred, finalize_draft};
use crate::publication_digests::payload_fault;
use crate::publication_error::PublicationError;
use crate::publication_finalize::{event_draft, execution_context, index_draft, new_revision,
    place_draft, publication_halt, publication_version, revision_draft, FinalizePublishRequest};
use crate::publication_index_stage::{stage_draft, IndexStageView};
use crate::publication_laws::{beginning_takes_the_only_claim, extends, lemma_authority_extends,
    lemma_prefix_contains, lemma_sealed_extends, lemma_touches_extend};
use crate::publication_lifecycle::{advancing, begin_bare, begin_draft, begin_fault, begin_halt,
    begin_opening, begun, finish_reconcile_draft, finish_reconcile_ready, heartbeat_draft,
    lease_clock_halt, takeover_draft, transition_draft, transition_ready, transitioned_of,
    BeginPublishRequest, FinishReconcileQuarantinedPublishRequest, HeartbeatPublishRequest,
    TakeOverOrphanedPublishRequest, TransitionPublishRequest};
use crate::publication_manifest::{stage_manifest_draft, StageManifestBatchRequest};
use crate::publication_owners::{record_fault, shown_revision, touched, touches_draft};
use crate::publication_plan::{empty_plan, failing, halted, live, put_absent, Draft,
    PlanPredicateView, PublicationContext, RowKeyView, StopView};
use crate::publication_records::{artifact_revision_bytes, artifact_revision_fault,
    revision_claim_bytes, revision_claim_round_trip, ArtifactRevisionClaimRecord};
use crate::publication_rules::{purpose_of, PublicationAuthorityPurpose};
use crate::publication_store::{bytes_of, claim_halt, claim_of, publish_halt, publish_key, read_halt,
    MetaShard};
use crate::publication_sweeps::{cleanup_draft, reconcile_draft, CleanupPublishBatchRequest,
    ReconcileQuarantinedPublishBatchRequest};
use crate::publish_records::{PublishAuthority, PublishOperationRecord};
use vstd::prelude::*;

verus! {

/// One publication command, with the answers that it was planned on.
pub enum PublicationStep {
    Begin { store: MetaShard, request: BeginPublishRequest },
    Transition { store: MetaShard, request: TransitionPublishRequest },
    Heartbeat { store: MetaShard, request: HeartbeatPublishRequest },
    TakeOver { store: MetaShard, request: TakeOverOrphanedPublishRequest },
    StageObjects { store: MetaShard, request: StageObjectsBatchRequest },
    MarkUploaded { store: MetaShard, request: MarkObjectsUploadedBatchRequest },
    StageManifest { store: MetaShard, request: StageManifestBatchRequest },
    Cleanup { store: MetaShard, request: CleanupPublishBatchRequest },
    Reconcile { store: MetaShard, request: ReconcileQuarantinedPublishBatchRequest },
    FinishReconcile { store: MetaShard, request: FinishReconcileQuarantinedPublishRequest },
    Finalize { store: MetaShard, request: FinalizePublishRequest },
    StageIndex { stage: IndexStageView },
}

impl PublicationStep {
    /// What the step plans.
    pub open spec fn draft(self) -> Draft {
        match self {
            PublicationStep::Begin { store, request } => begin_draft(store, request),
            PublicationStep::Transition { store, request } => transition_draft(store, request),
            PublicationStep::Heartbeat { store, request } => heartbeat_draft(store, request),
            PublicationStep::TakeOver { store, request } => takeover_draft(store, request),
            PublicationStep::StageObjects { store, request } => stage_objects_draft(store, request),
            PublicationStep::MarkUploaded { store, request } => mark_uploaded_draft(store, request),
            PublicationStep::StageManifest { store, request } => stage_manifest_draft(
                store,
                request,
            ),
            PublicationStep::Cleanup { store, request } => cleanup_draft(store, request),
            PublicationStep::Reconcile { store, request } => reconcile_draft(store, request),
            PublicationStep::FinishReconcile { store, request } => finish_reconcile_draft(
                store,
                request,
            ),
            PublicationStep::Finalize { store, request } => finalize_draft(store, request),
            PublicationStep::StageIndex { stage } => stage_draft(stage),
        }
    }

    /// Whether this is a step by which an operation gives up its claim on a
    /// revision: it publishes, it ends its cleanup, or it is reconciled.
    pub open spec fn gives_up(
        self,
        root_id: RootId,
        revision: ArtifactRevisionId,
        operation_id: OperationId,
    ) -> bool {
        match self {
            PublicationStep::Transition { store, request } => {
                &&& request.transition is FinishCleanup
                &&& request.context.root_id == root_id
                &&& request.expected_operation.record.artifact_revision_id == revision
                &&& request.expected_operation.record.operation_id == operation_id
            },
            PublicationStep::FinishReconcile { store, request } => {
                &&& request.context.root_id == root_id
                &&& request.expected_operation.record.artifact_revision_id == revision
                &&& request.expected_operation.record.operation_id == operation_id
            },
            PublicationStep::Finalize { store, request } => {
                &&& request.context.root_id == root_id
                &&& request.expected_operation.record.artifact_revision_id == revision
                &&& request.expected_operation.record.operation_id == operation_id
            },
            _ => false,
        }
    }
}

/// The claim row of a revision.
pub open spec fn claim_row(root_id: RootId, revision: ArtifactRevisionId) -> RowKeyView {
    RowKeyView::ArtifactRevisionClaim { root_id, revision }
}

/// The claim row that an operation leaves when it begins.
pub open spec fn claim_by(operation_id: OperationId) -> Option<Seq<u8>> {
    Some(revision_claim_bytes(ArtifactRevisionClaimRecord { operation_id }))
}

/// Whether a planned step can be carried out where a row stands as it does:
/// the row is what the plan expects of it.
pub open spec fn carried_out(step: PublicationStep, row: Option<Seq<u8>>, key: RowKeyView) -> bool {
    &&& step.draft().halt is None
    &&& forall|expected: Option<Seq<u8>>|
        #[trigger] step.draft().plan.predicates.contains(
            PlanPredicateView::Value { key, expected },
        ) ==> expected == row
}

/// What a row holds after steps in order.
pub open spec fn row_after_steps(
    row: Option<Seq<u8>>,
    steps: Seq<PublicationStep>,
    key: RowKeyView,
) -> Option<Seq<u8>>
    decreases steps.len(),
{
    if steps.len() == 0 {
        row
    } else {
        row_after(
            row_after_steps(row, steps.drop_last(), key),
            steps.last().draft().plan.mutations,
            key,
        )
    }
}

/// Whether steps can be carried out one behind the other.
pub open spec fn carried_out_in_turn(
    row: Option<Seq<u8>>,
    steps: Seq<PublicationStep>,
    key: RowKeyView,
) -> bool
    decreases steps.len(),
{
    steps.len() > 0 ==> {
        &&& carried_out_in_turn(row, steps.drop_last(), key)
        &&& carried_out(steps.last(), row_after_steps(row, steps.drop_last(), key), key)
    }
}

/// Whether a draft that goes through expects a row to be as given.
spec fn pinned(draft: Draft, key: RowKeyView, expected: Option<Seq<u8>>) -> bool {
    draft.halt is None ==> draft.plan.predicates.contains(
        PlanPredicateView::Value { key, expected },
    )
}

proof fn lemma_extends_pins(
    before: Draft,
    after: Draft,
    n: nat,
    key: RowKeyView,
    expected: Option<Seq<u8>>,
)
    requires
        extends(before, after, n),
        pinned(before, key, expected),
    ensures
        pinned(after, key, expected),
{
    if after.halt is None {
        lemma_prefix_contains(
            before.plan.predicates,
            after.plan.predicates,
            PlanPredicateView::Value { key, expected },
        );
    }
}

/// An operation that gives up a claim expects the claim row that it has read.
proof fn lemma_release_pins(
    store: MetaShard,
    context: PublicationContext,
    revision: ArtifactRevisionId,
    operation_id: OperationId,
    draft: Draft,
)
    requires
        holds_claim(store, context, revision, operation_id),
    ensures
        pinned(
            claim_release_draft(store, context, revision, operation_id, draft),
            claim_key_of(context, revision),
            bytes_of(store, context.read_version, claim_key_of(context, revision)),
        ),
{
    reveal(claim_release_draft);
    reveal(claim_of);
    let key = claim_key_of(context, revision);
    let expected = bytes_of(store, context.read_version, key);
    let after = claim_release_draft(store, context, revision, operation_id, draft);
    if after.halt is None {
        assert(after.plan.predicates.last() == PlanPredicateView::Value { key, expected });
    }
}

proof fn lemma_transition_pins(store: MetaShard, request: TransitionPublishRequest)
    requires
        request.transition is FinishCleanup,
        holds_claim(
            store,
            request.context,
            request.expected_operation.record.artifact_revision_id,
            request.expected_operation.record.operation_id,
        ),
    ensures
        pinned(
            transition_draft(store, request),
            own_claim(request.context, request.expected_operation.record),
            bytes_of(
                store,
                request.context.read_version,
                own_claim(request.context, request.expected_operation.record),
            ),
        ),
{
    let context = request.context;
    let operation = request.expected_operation.record;
    let key = own_claim(context, operation);
    let advanced = advancing(
        store,
        context,
        request.expected_operation,
        transition_ready(store, request),
    );
    let released = claim_release_draft(
        store,
        context,
        operation.artifact_revision_id,
        operation.operation_id,
        advanced,
    );
    lemma_release_pins(
        store,
        context,
        operation.artifact_revision_id,
        operation.operation_id,
        advanced,
    );
    let purpose = purpose_of(request.transition);
    lemma_sealed_extends(store, context, transitioned_of(store), purpose, released);
    lemma_extends_pins(
        released,
        transition_draft(store, request),
        4,
        key,
        bytes_of(store, context.read_version, key),
    );
}

proof fn lemma_resolution_pins(store: MetaShard, request: FinishReconcileQuarantinedPublishRequest)
    requires
        holds_claim(
            store,
            request.context,
            request.expected_operation.record.artifact_revision_id,
            request.expected_operation.record.operation_id,
        ),
    ensures
        pinned(
            finish_reconcile_draft(store, request),
            own_claim(request.context, request.expected_operation.record),
            bytes_of(
                store,
                request.context.read_version,
                own_claim(request.context, request.expected_operation.record),
            ),
        ),
{
    let operation = request.expected_operation.record;
    lemma_release_pins(
        store,
        request.context,
        operation.artifact_revision_id,
        operation.operation_id,
        advancing(
            store,
            request.context,
            request.expected_operation,
            finish_reconcile_ready(store, request),
        ),
    );
}

/// A revision's rows keep what the release of its claim expects.
proof fn lemma_revision_pins(store: MetaShard, request: FinalizePublishRequest, draft: Draft)
    requires
        holds_claim(
            store,
            execution_context(store, request.context),
            request.expected_operation.record.artifact_revision_id,
            request.expected_operation.record.operation_id,
        ),
    ensures
        pinned(
            revision_draft(store, request, draft),
            own_claim(request.context, request.expected_operation.record),
            bytes_of(
                store,
                execution_context(store, request.context).read_version,
                own_claim(request.context, request.expected_operation.record),
            ),
        ),
{
    reveal(revision_draft);
    let context = request.context;
    let reading = execution_context(store, context);
    let operation = request.expected_operation.record;
    let key = own_claim(context, operation);
    let created = put_absent(
        halted(draft, failing(record_fault(artifact_revision_fault(new_revision(request))))),
        revision_key_of(context, operation.artifact_revision_id),
        artifact_revision_bytes(new_revision(request)),
    );
    lemma_release_pins(
        store,
        reading,
        operation.artifact_revision_id,
        operation.operation_id,
        created,
    );
    let released = claim_release_draft(
        store,
        reading,
        operation.artifact_revision_id,
        operation.operation_id,
        created,
    );
    let after = revision_draft(store, request, draft);
    assert(extends(released, after, 2));
    lemma_extends_pins(released, after, 2, key, bytes_of(store, reading.read_version, key));
}

proof fn lemma_finalize_pins(store: MetaShard, request: FinalizePublishRequest)
    requires
        holds_claim(
            store,
            claim_context(store, request),
            request.expected_operation.record.artifact_revision_id,
            request.expected_operation.record.operation_id,
        ),
    ensures
        pinned(
            finalize_draft(store, request),
            own_claim(request.context, request.expected_operation.record),
            bytes_of(
                store,
                claim_context(store, request).read_version,
                own_claim(request.context, request.expected_operation.record),
            ),
        ),
{
    let context = request.context;
    let reading = claim_context(store, request);
    let operation = request.expected_operation.record;
    let key = own_claim(context, operation);
    let expected = bytes_of(store, reading.read_version, key);
    let purpose = PublicationAuthorityPurpose::Forward;
    match operation.authority {
        PublishAuthority::CommitStaging { commit_operation_id } => {
            let referred = commit_stage_referred(store, request, commit_operation_id);
            assert forall|draft: Draft| pinned(
                #[trigger] claim_release_draft(
                    store,
                    context,
                    operation.artifact_revision_id,
                    operation.operation_id,
                    draft,
                ),
                key,
                expected,
            ) by {
                lemma_release_pins(
                    store,
                    context,
                    operation.artifact_revision_id,
                    operation.operation_id,
                    draft,
                );
            }
            assert forall|draft: Draft, other: RowKeyView, value: Seq<u8>| pinned(
                draft,
                key,
                expected,
            ) implies pinned(#[trigger] put_absent(draft, other, value), key, expected) by {
                let after = put_absent(draft, other, value);
                assert(extends(draft, after, 1));
                lemma_extends_pins(draft, after, 1, key, expected);
            }
            assert(pinned(referred, key, expected));
            lemma_sealed_extends(store, context, transitioned_of(store), purpose, referred);
            lemma_extends_pins(referred, finalize_draft(store, request), 4, key, expected);
        },
        _ => {
            let opened = halted(live(empty_plan()), publication_halt(store, request));
            let indexed = index_draft(request, place_draft(store, request, opened));
            let revised = revision_draft(store, request, indexed);
            lemma_revision_pins(store, request, indexed);
            let owners = request.dependency_owner_revision_ids@;
            let shown = shown_revision(store, context, operation);
            let version = publication_version(store, context);
            let written = touches_draft(
                store,
                context,
                operation,
                owners,
                shown,
                version,
                revised,
            );
            lemma_touches_extend(store, context, operation, owners, shown, version, revised);
            lemma_extends_pins(
                revised,
                written,
                3 * touched(owners, shown).len(),
                key,
                expected,
            );
            let told = event_draft(store, request, written);
            assert(extends(written, told, 1));
            lemma_extends_pins(written, told, 1, key, expected);
            lemma_sealed_extends(store, reading, transitioned_of(store), purpose, told);
            lemma_extends_pins(told, finalize_draft(store, request), 4, key, expected);
        },
    }
}

/// A claim row that is read as an operation's own is that operation's.
proof fn lemma_holder_is_unique(
    store: MetaShard,
    context: PublicationContext,
    revision: ArtifactRevisionId,
    holder: OperationId,
    other: OperationId,
)
    requires
        holds_claim(store, context, revision, other),
        bytes_of(store, context.read_version, claim_key_of(context, revision)) == claim_by(holder),
    ensures
        holder == other,
{
    reveal(claim_of);
    revision_claim_round_trip(ArtifactRevisionClaimRecord { operation_id: holder });
}

/// A step that is carried out while an operation holds the claim on a revision
/// leaves the claim row as it is, unless that operation gives the claim up.
/// The step may be the operation's own or any other's, on the same revision or
/// on another.
pub proof fn steps_leave_held_claims(
    step: PublicationStep,
    root_id: RootId,
    revision: ArtifactRevisionId,
    operation_id: OperationId,
)
    requires
        carried_out(step, claim_by(operation_id), claim_row(root_id, revision)),
        !step.gives_up(root_id, revision, operation_id),
    ensures
        leaves_row(step.draft().plan, claim_row(root_id, revision)),
{
    let key = claim_row(root_id, revision);
    let plan = step.draft().plan;
    match step {
        PublicationStep::Begin { store, request } => {
            beginnings_spare_foreign_claims(store, request);
            if own_claim(request.context, request.operation.record) == key {
                beginning_takes_the_only_claim(store, request);
                assert(plan.predicates.contains(PlanPredicateView::Value { key, expected: None }));
            }
        },
        PublicationStep::Transition { store, request } => {
            let operation = request.expected_operation.record;
            let own = own_claim(request.context, operation);
            if !(request.transition is FinishCleanup) {
                lemma_plain_transition_spares(store, request);
            } else if holds_claim(
                store,
                request.context,
                operation.artifact_revision_id,
                operation.operation_id,
            ) {
                transitions_spare_claims(store, request, Some(own));
                if own == key {
                    lemma_transition_pins(store, request);
                    lemma_holder_is_unique(
                        store,
                        request.context,
                        revision,
                        operation_id,
                        operation.operation_id,
                    );
                }
            } else {
                transitions_spare_claims(store, request, None);
            }
        },
        PublicationStep::FinishReconcile { store, request } => {
            let operation = request.expected_operation.record;
            let own = own_claim(request.context, operation);
            if holds_claim(
                store,
                request.context,
                operation.artifact_revision_id,
                operation.operation_id,
            ) {
                resolutions_spare_claims(store, request, Some(own));
                if own == key {
                    lemma_resolution_pins(store, request);
                    lemma_holder_is_unique(
                        store,
                        request.context,
                        revision,
                        operation_id,
                        operation.operation_id,
                    );
                }
            } else {
                resolutions_spare_claims(store, request, None);
            }
        },
        PublicationStep::Finalize { store, request } => {
            let operation = request.expected_operation.record;
            let own = own_claim(request.context, operation);
            let reading = claim_context(store, request);
            if holds_claim(
                store,
                reading,
                operation.artifact_revision_id,
                operation.operation_id,
            ) {
                publications_spare_claims(store, request, Some(own));
                if own == key {
                    lemma_finalize_pins(store, request);
                    lemma_holder_is_unique(
                        store,
                        reading,
                        revision,
                        operation_id,
                        operation.operation_id,
                    );
                }
            } else {
                publications_spare_claims(store, request, None);
            }
        },
        _ => {
            lemma_other_steps_spare(step);
        },
    }
}

proof fn lemma_plain_transition_spares(store: MetaShard, request: TransitionPublishRequest)
    requires
        !(request.transition is FinishCleanup),
        transition_draft(store, request).halt is None,
    ensures
        spares_claims(transition_draft(store, request).plan, None),
{
    steps_in_flight_spare_claims(store, request, arbitrary(), arbitrary());
}

/// The steps that never give up a claim.
proof fn lemma_other_steps_spare(step: PublicationStep)
    requires
        !(step is Begin),
        !(step is Transition),
        !(step is FinishReconcile),
        !(step is Finalize),
        step.draft().halt is None,
    ensures
        spares_claims(step.draft().plan, None),
{
    match step {
        PublicationStep::Heartbeat { store, request } => {
            steps_in_flight_spare_claims(store, arbitrary(), request, arbitrary());
        },
        PublicationStep::TakeOver { store, request } => {
            steps_in_flight_spare_claims(store, arbitrary(), arbitrary(), request);
        },
        PublicationStep::StageObjects { store, request } => {
            batches_spare_claims(store, request, arbitrary(), arbitrary());
        },
        PublicationStep::MarkUploaded { store, request } => {
            batches_spare_claims(store, arbitrary(), request, arbitrary());
        },
        PublicationStep::StageManifest { store, request } => {
            batches_spare_claims(store, arbitrary(), arbitrary(), request);
        },
        PublicationStep::Cleanup { store, request } => {
            sweeps_spare_claims(store, request, arbitrary());
        },
        PublicationStep::Reconcile { store, request } => {
            sweeps_spare_claims(store, arbitrary(), request);
        },
        PublicationStep::StageIndex { stage } => {
            index_stages_spare_claims(stage);
        },
        _ => {},
    }
}

/// A claim lasts until it is given up: whatever steps are carried out, in any
/// number and of any operations, the row is the claim that was taken, as long
/// as none of them is one by which the holder gives it up.
pub proof fn claims_last_until_given_up(
    steps: Seq<PublicationStep>,
    root_id: RootId,
    revision: ArtifactRevisionId,
    operation_id: OperationId,
)
    requires
        carried_out_in_turn(claim_by(operation_id), steps, claim_row(root_id, revision)),
        forall|i: int|
            0 <= i < steps.len() ==> !(#[trigger] steps[i]).gives_up(
                root_id,
                revision,
                operation_id,
            ),
    ensures
        row_after_steps(claim_by(operation_id), steps, claim_row(root_id, revision)) == claim_by(
            operation_id,
        ),
    decreases steps.len(),
{
    if steps.len() > 0 {
        let rest = steps.drop_last();
        let last = steps[steps.len() - 1];
        assert forall|i: int| 0 <= i < rest.len() implies !(#[trigger] rest[i]).gives_up(
            root_id,
            revision,
            operation_id,
        ) by {
            assert(rest[i] == steps[i]);
        }
        claims_last_until_given_up(rest, root_id, revision, operation_id);
        steps_leave_held_claims(last, root_id, revision, operation_id);
        lemma_row_untouched(
            claim_by(operation_id),
            last.draft().plan.mutations,
            claim_row(root_id, revision),
        );
    }
}

/// Whether the shard's answers let a new operation begin, but for the claim on
/// its revision: the request is sound, no operation of its id is stored, its
/// deadline is ahead of the lease clock, it can be encoded, and its authority
/// holds.
pub open spec fn may_begin(store: MetaShard, request: BeginPublishRequest) -> bool {
    let context = request.context;
    let operation = request.operation.record;
    &&& begin_fault(request) is None
    &&& publish_halt(store, context.read_version, publish_key(context, operation)) is None
    &&& begun(store, request) is None
    &&& lease_clock_halt(store, operation.activity_deadline_ms) is None
    &&& payload_fault(request.operation) is None
    &&& authority_draft(
        store,
        context,
        operation,
        PublicationAuthorityPurpose::Forward,
        live(empty_plan()),
    ).halt is None
}

/// What the claim row of a request's revision is read as.
pub open spec fn reads_claim(
    store: MetaShard,
    request: BeginPublishRequest,
    row: Option<Seq<u8>>,
) -> bool {
    let key = own_claim(request.context, request.operation.record);
    &&& read_halt(store, request.context.read_version, key) is None
    &&& bytes_of(store, request.context.read_version, key) == row
}

/// Authority does not rest on what a plan holds already.
proof fn lemma_authority_on_any_draft(
    store: MetaShard,
    context: PublicationContext,
    operation: PublishOperationRecord,
    draft: Draft,
)
    requires
        draft.halt is None,
        authority_draft(
            store,
            context,
            operation,
            PublicationAuthorityPurpose::Forward,
            live(empty_plan()),
        ).halt is None,
    ensures
        authority_draft(
            store,
            context,
            operation,
            PublicationAuthorityPurpose::Forward,
            draft,
        ).halt is None,
{
    reveal(authority_draft);
}

/// A revision that no claim stands on can be begun: where everything else lets
/// the operation begin, its beginning is planned, and is not answered from a
/// stored operation.
pub proof fn free_revisions_can_be_begun(store: MetaShard, request: BeginPublishRequest)
    requires
        may_begin(store, request),
        reads_claim(store, request, None),
    ensures
        begin_draft(store, request).halt is None,
        begin_halt(store, request) is None,
        begun(store, request) is None,
{
    reveal(claim_halt);
    reveal(claim_of);
    let context = request.context;
    let operation = request.operation.record;
    let purpose = PublicationAuthorityPurpose::Forward;
    let opened = begin_opening(store, request);
    let bare = begin_bare(store, request);
    assert(opened == live(empty_plan()));
    assert(bare.halt is None);
    assert(bare.plan.predicates.len() == 5);
    assert(bare.plan.mutations.len() == 2);
    lemma_authority_on_any_draft(store, context, operation, bare);
    lemma_authority_extends(store, context, operation, purpose, bare);
}

/// While an operation that has begun has not given up its claim, whatever it
/// and others have carried out since, another operation that begins on the
/// revision is answered with the revision and the first operation's id.
pub proof fn revisions_are_begun_once(
    first_store: MetaShard,
    first: BeginPublishRequest,
    row: Option<Seq<u8>>,
    steps: Seq<PublicationStep>,
    second_store: MetaShard,
    second: BeginPublishRequest,
)
    requires
        begin_draft(first_store, first).halt is None,
        carried_out_in_turn(
            row_after(
                row,
                begin_draft(first_store, first).plan.mutations,
                own_claim(first.context, first.operation.record),
            ),
            steps,
            own_claim(first.context, first.operation.record),
        ),
        forall|i: int|
            0 <= i < steps.len() ==> !(#[trigger] steps[i]).gives_up(
                first.context.root_id,
                first.operation.record.artifact_revision_id,
                first.operation.record.operation_id,
            ),
        own_claim(second.context, second.operation.record) == own_claim(
            first.context,
            first.operation.record,
        ),
        begin_fault(second) is None,
        publish_halt(
            second_store,
            second.context.read_version,
            publish_key(second.context, second.operation.record),
        ) is None,
        begun(second_store, second) is None,
        lease_clock_halt(second_store, second.operation.record.activity_deadline_ms) is None,
        reads_claim(
            second_store,
            second,
            row_after_steps(
                row_after(
                    row,
                    begin_draft(first_store, first).plan.mutations,
                    own_claim(first.context, first.operation.record),
                ),
                steps,
                own_claim(first.context, first.operation.record),
            ),
        ),
    ensures
        begin_halt(second_store, second) == Some(
            StopView::Fail(
                PublicationError::RevisionClaimHeld {
                    revision: second.operation.record.artifact_revision_id,
                    operation_id: first.operation.record.operation_id,
                },
            ),
        ),
{
    let operation = first.operation.record;
    beginnings_write_their_claim(first_store, first, row);
    claims_last_until_given_up(
        steps,
        first.context.root_id,
        operation.artifact_revision_id,
        operation.operation_id,
    );
    revision_claim_round_trip(
        ArtifactRevisionClaimRecord { operation_id: operation.operation_id },
    );
    reveal(claim_halt);
    reveal(claim_of);
    held_claims_refuse_a_beginning(second_store, second);
}

/// After the end of a cleanup whose operation held the claim on its revision,
/// a beginning on the revision is planned, where it reads the row that the
/// cleanup has left and everything else lets it begin.
pub proof fn cleaned_revisions_can_be_begun(
    store: MetaShard,
    cleanup: TransitionPublishRequest,
    row: Option<Seq<u8>>,
    second_store: MetaShard,
    second: BeginPublishRequest,
)
    requires
        cleanup.transition is FinishCleanup,
        transition_draft(store, cleanup).halt is None,
        holds_claim(
            store,
            cleanup.context,
            cleanup.expected_operation.record.artifact_revision_id,
            cleanup.expected_operation.record.operation_id,
        ),
        own_claim(second.context, second.operation.record) == own_claim(
            cleanup.context,
            cleanup.expected_operation.record,
        ),
        may_begin(second_store, second),
        reads_claim(
            second_store,
            second,
            row_after(
                row,
                transition_draft(store, cleanup).plan.mutations,
                own_claim(cleanup.context, cleanup.expected_operation.record),
            ),
        ),
    ensures
        begin_draft(second_store, second).halt is None,
        begin_halt(second_store, second) is None,
        begun(second_store, second) is None,
{
    finished_cleanups_give_up_their_claim(store, cleanup, row);
    free_revisions_can_be_begun(second_store, second);
}

/// A revision is held from a beginning to the end of its operation's cleanup:
/// after whatever steps were carried out in between, the cleanup ends by giving
/// the claim up, and another operation's beginning on the revision is then
/// planned.
pub proof fn revisions_are_begun_again_after_cleanup(
    first_store: MetaShard,
    first: BeginPublishRequest,
    row: Option<Seq<u8>>,
    steps: Seq<PublicationStep>,
    cleanup_store: MetaShard,
    cleanup: TransitionPublishRequest,
    second_store: MetaShard,
    second: BeginPublishRequest,
)
    requires
        begin_draft(first_store, first).halt is None,
        carried_out_in_turn(
            row_after(
                row,
                begin_draft(first_store, first).plan.mutations,
                own_claim(first.context, first.operation.record),
            ),
            steps,
            own_claim(first.context, first.operation.record),
        ),
        forall|i: int|
            0 <= i < steps.len() ==> !(#[trigger] steps[i]).gives_up(
                first.context.root_id,
                first.operation.record.artifact_revision_id,
                first.operation.record.operation_id,
            ),
        cleanup.transition is FinishCleanup,
        cleanup.expected_operation.record.operation_id == first.operation.record.operation_id,
        own_claim(cleanup.context, cleanup.expected_operation.record) == own_claim(
            first.context,
            first.operation.record,
        ),
        transition_draft(cleanup_store, cleanup).halt is None,
        bytes_of(
            cleanup_store,
            cleanup.context.read_version,
            own_claim(first.context, first.operation.record),
        ) == row_after_steps(
            row_after(
                row,
                begin_draft(first_store, first).plan.mutations,
                own_claim(first.context, first.operation.record),
            ),
            steps,
            own_claim(first.context, first.operation.record),
        ),
        own_claim(second.context, second.operation.record) == own_claim(
            first.context,
            first.operation.record,
        ),
        may_begin(second_store, second),
        reads_claim(
            second_store,
            second,
            row_after(
                bytes_of(
                    cleanup_store,
                    cleanup.context.read_version,
                    own_claim(first.context, first.operation.record),
                ),
                transition_draft(cleanup_store, cleanup).plan.mutations,
                own_claim(first.context, first.operation.record),
            ),
        ),
    ensures
        begin_draft(second_store, second).halt is None,
        begin_halt(second_store, second) is None,
        begun(second_store, second) is None,
{
    let operation = first.operation.record;
    let key = own_claim(first.context, operation);
    beginnings_write_their_claim(first_store, first, row);
    claims_last_until_given_up(
        steps,
        first.context.root_id,
        operation.artifact_revision_id,
        operation.operation_id,
    );
    revision_claim_round_trip(
        ArtifactRevisionClaimRecord { operation_id: operation.operation_id },
    );
    reveal(claim_of);
    cleaned_revisions_can_be_begun(
        cleanup_store,
        cleanup,
        bytes_of(cleanup_store, cleanup.context.read_version, key),
        second_store,
        second,
    );
}

} // verus!
