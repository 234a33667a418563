//! What the steps of a publication's life change and ask for: its beginning,
//! its transitions, its lease, its takeover and the end of its quarantine.

use crate::digest::sha256_of;
use crate::ids::OperationId;
use crate::publication_admission_laws::lemma_reads_are_plain;
use crate::publication_authority::{authority_draft, claim_key_of, claim_release_draft,
    lemma_authority_after_halt, revision_key_of, verdict_draft};
use crate::publication_authority_laws::authority_rests_on_the_store;
use crate::publication_claim_laws::holds_claim;
use crate::publication_commit_laws::lemma_release_adds;
use crate::publication_digest_laws::reconcile_input;
use crate::publication_digests::{absence_proof_of, payload_of, seals_fault};
use crate::publication_effect_laws::{adds_rows, expects, lemma_expects_stays, lemma_replace_adds,
    lemma_sealed_adds, writes};
use crate::publication_error::{MetaError, PublicationError, QuarantineReconcileResolution};
use crate::publication_finalize::{finalize_outcome_of, FinalizePublishOutcome};
use crate::publication_laws::{lemma_authority_extends, lemma_prefix_contains};
use crate::publication_ledger_laws::{keeps_the_verdict, lemma_verdict_holds, operation_row};
use crate::publication_lifecycle::{advancing, begin_bare, begin_draft, execution_error_of, extended,
    finish_reconcile_draft, finish_reconcile_ready, heartbeat_draft, heartbeat_ready, outcome_of,
    reconciled_halt, takeover_draft, takeover_ready, transition_draft, transition_ready,
    transitioned_of, BeginPublishRequest, FinishReconcileQuarantinedPublishRequest,
    HeartbeatPublishRequest, PublishCommandOutcome, TakeOverOrphanedPublishRequest,
    TransitionPublishRequest};
use crate::publication_plan::{empty_plan, failing, halted, live, Draft, PlanMutationView,
    PlanPredicateView, PlanView, PublicationContext, RowKeyView, RowPrefix, StopView};
use crate::publication_records::{first_fault, parse_revision_claim, revision_claim_bytes,
    revision_claim_round_trip, ArtifactRevisionClaimRecord, PublicationRecordCodecError};
use crate::publication_rules::{phase_fault, purpose_of, PublicationAuthorityPurpose};
use crate::publication_store::{bytes_of, current_operation_halt, next_payload_halt, next_payload_of,
    publish_key, read_halt, CommandReceipt, MetaShard};
use crate::publish_records::{Coded, PublishOperationRecord, PublishPhase, PublishRecordError,
    PublishResult, PublishTerminalErrorKind, PublishTransition};
use crate::wire::outcome;
use vstd::prelude::*;

verus! {

/// A beginning creates the operation as it was asked for and its claim on the
/// revision, where there was neither, and changes nothing else. It expects that
/// the operation has staged nothing, that the revision has no manifest, and
/// that there is no such revision.
pub proof fn beginnings_create_an_operation_and_its_claim(
    store: MetaShard,
    request: BeginPublishRequest,
)
    requires
        begin_draft(store, request).halt is None,
    ensures
        ({
            let plan = begin_draft(store, request).plan;
            let root_id = request.context.root_id;
            let operation = request.operation.record;
            let claim = RowKeyView::ArtifactRevisionClaim {
                root_id,
                revision: operation.artifact_revision_id,
            };
            let own = operation_row(request.context, operation);
            &&& plan.mutations.len() == 2
            &&& plan.events.len() == 0
            &&& writes(plan, own, request.operation.payload.unwrap()@)
            &&& expects(plan, own, None)
            &&& exists|value: Seq<u8>| #[trigger]
                writes(plan, claim, value) && parse_revision_claim(value) == Ok::<
                    ArtifactRevisionClaimRecord,
                    PublicationRecordCodecError,
                >(ArtifactRevisionClaimRecord { operation_id: operation.operation_id })
            &&& expects(plan, claim, None)
            &&& expects(
                plan,
                RowKeyView::ArtifactRevision {
                    root_id,
                    revision: operation.artifact_revision_id,
                },
                None,
            )
            &&& plan.predicates.contains(
                PlanPredicateView::PrefixEmpty {
                    prefix: RowPrefix::StagedObjects {
                        root_id,
                        operation_id: operation.operation_id,
                    },
                },
            )
            &&& plan.predicates.contains(
                PlanPredicateView::PrefixEmpty {
                    prefix: RowPrefix::ArtifactManifest {
                        root_id,
                        revision: operation.artifact_revision_id,
                    },
                },
            )
        }),
{
    let context = request.context;
    let operation = request.operation.record;
    let bare = begin_bare(store, request);
    let draft = begin_draft(store, request);
    let purpose = PublicationAuthorityPurpose::Forward;
    lemma_sealed_adds(store, context, operation, purpose, bare);
    let own = operation_row(context, operation);
    let claim = claim_key_of(context, operation.artifact_revision_id);
    let value = revision_claim_bytes(
        ArtifactRevisionClaimRecord { operation_id: operation.operation_id },
    );
    assert(bare.halt is None);
    assert(bare.plan.predicates[0] == PlanPredicateView::Value { key: own, expected: None });
    assert(bare.plan.predicates[1] == PlanPredicateView::Value { key: claim, expected: None });
    assert(bare.plan.predicates[2] is PrefixEmpty);
    assert(bare.plan.predicates[3] is PrefixEmpty);
    assert(bare.plan.predicates[4] == PlanPredicateView::Value {
        key: revision_key_of(context, operation.artifact_revision_id),
        expected: None,
    });
    assert(draft.plan.mutations =~= bare.plan.mutations);
    assert(draft.plan.mutations[0] == PlanMutationView::Put {
        key: own,
        value: payload_of(request.operation),
    });
    assert(draft.plan.mutations[1] == PlanMutationView::Put { key: claim, value });
    assert(writes(draft.plan, claim, value));
    assert forall|i: int| 0 <= i < 5 implies draft.plan.predicates.contains(
        #[trigger] bare.plan.predicates[i],
    ) by {
        lemma_prefix_contains(
            bare.plan.predicates,
            draft.plan.predicates,
            bare.plan.predicates[i],
        );
    }
    revision_claim_round_trip(
        ArtifactRevisionClaimRecord { operation_id: operation.operation_id },
    );
}

/// Whether a plan takes an operation from the form that the caller has seen to
/// its next form, and changes nothing else but, where `released`, the claim on
/// the operation's revision.
pub open spec fn only_advances(
    plan: PlanView,
    store: MetaShard,
    context: PublicationContext,
    expected: Coded<PublishOperationRecord>,
    released: bool,
) -> bool {
    let operation = expected.record;
    let claim = RowKeyView::ArtifactRevisionClaim {
        root_id: context.root_id,
        revision: operation.artifact_revision_id,
    };
    let change = PlanMutationView::Put {
        key: operation_row(context, operation),
        value: store.next_payload.unwrap().unwrap()@,
    };
    &&& expects(plan, operation_row(context, operation), Some(expected.payload.unwrap()@))
    &&& plan.mutations == (if released {
        seq![change, PlanMutationView::Delete { key: claim }]
    } else {
        seq![change]
    })
    &&& plan.events.len() == 0
}

proof fn lemma_advances(
    store: MetaShard,
    context: PublicationContext,
    expected: Coded<PublishOperationRecord>,
    ready: Draft,
    draft: Draft,
)
    requires
        ready.plan.mutations.len() == 0,
        ready.plan.events.len() == 0,
        adds_rows(advancing(store, context, expected, ready), draft, Seq::empty()),
        draft.halt is None,
        draft.plan.events == advancing(store, context, expected, ready).plan.events,
    ensures
        only_advances(draft.plan, store, context, expected, false),
{
    reveal(next_payload_of);
    let advanced = advancing(store, context, expected, ready);
    let key = publish_key(context, expected.record);
    lemma_replace_adds(ready, key, payload_of(expected), next_payload_of(store));
    lemma_expects_stays(advanced, draft, Seq::empty(), key, Some(payload_of(expected)));
    assert(draft.plan.mutations =~= seq![
        PlanMutationView::Put { key, value: store.next_payload.unwrap().unwrap()@ },
    ]);
}

/// A heartbeat takes its operation to its next form and changes nothing else.
pub proof fn heartbeats_only_advance(store: MetaShard, request: HeartbeatPublishRequest)
    requires
        heartbeat_draft(store, request).halt is None,
    ensures
        only_advances(
            heartbeat_draft(store, request).plan,
            store,
            request.context,
            request.expected_operation,
            false,
        ),
{
    let context = request.context;
    let expected = request.expected_operation;
    let ready = heartbeat_ready(store, request);
    let next = extended(expected.record, request.activity_deadline_ms);
    let purpose = PublicationAuthorityPurpose::Forward;
    let advanced = advancing(store, context, expected, ready);
    lemma_sealed_adds(store, context, next, purpose, advanced);
    assert(ready.plan.mutations =~= Seq::empty());
    lemma_advances(store, context, expected, ready, heartbeat_draft(store, request));
}

/// What a heartbeat asks to be stored: the operation with the new deadline,
/// and nothing else changed.
pub proof fn heartbeats_ask_for_the_new_deadline(
    store: MetaShard,
    request: HeartbeatPublishRequest,
    next: PublishOperationRecord,
)
    requires
        store.next_payload is None,
        heartbeat_draft(store, request).halt == Some(StopView::Encode { operation: next }),
    ensures
        next == (PublishOperationRecord {
            activity_deadline_ms: request.activity_deadline_ms,
            ..request.expected_operation.record
        }),
{
    let context = request.context;
    let expected = request.expected_operation;
    let ready = heartbeat_ready(store, request);
    reveal(next_payload_halt);
    assert(ready.halt is Some);
    lemma_authority_after_halt(
        store,
        context,
        extended(expected.record, request.activity_deadline_ms),
        PublicationAuthorityPurpose::Forward,
        ready,
    );
    reveal(current_operation_halt);
    lemma_reads_are_plain(
        store,
        context.read_version,
        publish_key(context, expected.record),
    );
}

/// A heartbeat is planned exactly where its owner extends a running lease
/// ahead of the clock, the operation is the durable one and can be stored, and
/// its authority holds.
pub proof fn heartbeats_are_planned_exactly(store: MetaShard, request: HeartbeatPublishRequest)
    ensures
        heartbeat_draft(store, request).halt is None <==> {
            let operation = request.expected_operation.record;
            let next = PublishOperationRecord {
                activity_deadline_ms: request.activity_deadline_ms,
                ..operation
            };
            &&& seals_fault(request.expected_operation) is None
            &&& request.context.owner_epoch == operation.initiating_owner_epoch
            &&& operation.phase == PublishPhase::Uploading || operation.phase
                == PublishPhase::Finalizing
            &&& request.activity_deadline_ms > operation.activity_deadline_ms
            &&& store.lease_clock matches Some(Ok(clock))
            &&& request.activity_deadline_ms > store.lease_clock.unwrap().unwrap()
            &&& is_durable(store, request.context, request.expected_operation)
            &&& store.next_payload matches Some(Ok(_))
            &&& authority_draft(
                store,
                request.context,
                next,
                PublicationAuthorityPurpose::Forward,
                live(empty_plan()),
            ).halt is None
        },
{
    let context = request.context;
    let expected = request.expected_operation;
    let next = extended(expected.record, request.activity_deadline_ms);
    let ready = heartbeat_ready(store, request);
    let advanced = advancing(store, context, expected, ready);
    reveal(next_payload_halt);
    reveal(current_operation_halt);
    if ready.halt is None {
        assert(advanced.halt is None);
        authority_rests_on_the_store(store, context, next, advanced);
        lemma_authority_extends(
            store,
            context,
            next,
            PublicationAuthorityPurpose::Forward,
            advanced,
        );
    } else {
        lemma_authority_after_halt(
            store,
            context,
            next,
            PublicationAuthorityPurpose::Forward,
            ready,
        );
    }
}

/// Whether an operation is the one that the shard holds.
pub open spec fn is_durable(
    store: MetaShard,
    context: PublicationContext,
    expected: Coded<PublishOperationRecord>,
) -> bool {
    let row = operation_row(context, expected.record);
    &&& read_halt(store, context.read_version, row) is None
    &&& expected.payload is Ok
    &&& bytes_of(store, context.read_version, row) == Some(expected.payload.unwrap()@)
}

/// A transition takes its operation to its next form. Where it ends a cleanup
/// and the operation holds the claim on its revision, it gives the claim up; it
/// changes nothing else.
pub proof fn transitions_only_advance(store: MetaShard, request: TransitionPublishRequest)
    requires
        transition_draft(store, request).halt is None,
    ensures
        !(request.transition is Publish),
        is_durable(store, request.context, request.expected_operation),
        only_advances(
            transition_draft(store, request).plan,
            store,
            request.context,
            request.expected_operation,
            request.transition is FinishCleanup && holds_claim(
                store,
                request.context,
                request.expected_operation.record.artifact_revision_id,
                request.expected_operation.record.operation_id,
            ),
        ),
{
    let context = request.context;
    let expected = request.expected_operation;
    let operation = expected.record;
    let ready = transition_ready(store, request);
    let advanced = advancing(store, context, expected, ready);
    let released = if request.transition is FinishCleanup {
        claim_release_draft(
            store,
            context,
            operation.artifact_revision_id,
            operation.operation_id,
            advanced,
        )
    } else {
        advanced
    };
    let draft = transition_draft(store, request);
    let key = publish_key(context, operation);
    reveal(next_payload_of);
    reveal(current_operation_halt);
    lemma_replace_adds(ready, key, payload_of(expected), next_payload_of(store));
    lemma_release_adds(
        store,
        context,
        operation.artifact_revision_id,
        operation.operation_id,
        advanced,
    );
    lemma_sealed_adds(
        store,
        context,
        transitioned_of(store),
        purpose_of(request.transition),
        released,
    );
    let stored = Some(payload_of(expected));
    lemma_prefix_contains(
        advanced.plan.predicates,
        released.plan.predicates,
        PlanPredicateView::Value { key, expected: stored },
    );
    lemma_expects_stays(released, draft, Seq::empty(), key, stored);
    assert(ready.plan.mutations =~= Seq::empty());
    let change = PlanMutationView::Put { key, value: store.next_payload.unwrap().unwrap()@ };
    if request.transition is FinishCleanup {
        reveal(claim_release_draft);
        if holds_claim(
            store,
            context,
            operation.artifact_revision_id,
            operation.operation_id,
        ) {
            assert(draft.plan.mutations =~= seq![
                change,
                PlanMutationView::Delete {
                    key: claim_key_of(context, operation.artifact_revision_id),
                },
            ]);
        } else {
            assert(draft.plan.mutations =~= seq![change]);
        }
    } else {
        assert(draft.plan.mutations =~= seq![change]);
    }
}

/// What a transition asks its codec to do: to take the very operation through
/// the very step that was asked for. What it then asks to be stored is the
/// codec's answer.
pub proof fn transitions_ask_for_their_step(store: MetaShard, request: TransitionPublishRequest)
    ensures
        store.transitioned is None ==> match transition_draft(store, request).halt {
            Some(StopView::Transition { operation, transition }) => {
                &&& operation == request.expected_operation.record
                &&& transition == request.transition
            },
            _ => true,
        },
        store.transitioned is Some && store.next_payload is None ==> match transition_draft(
            store,
            request,
        ).halt {
            Some(StopView::Encode { operation }) => operation
                == store.transitioned.unwrap().unwrap(),
            _ => true,
        },
{
    let context = request.context;
    let expected = request.expected_operation;
    let ready = transition_ready(store, request);
    reveal(next_payload_halt);
    reveal(current_operation_halt);
    reveal(claim_release_draft);
    lemma_reads_are_plain(
        store,
        context.read_version,
        publish_key(context, expected.record),
    );
    if ready.halt is Some {
        lemma_authority_after_halt(
            store,
            context,
            transitioned_of(store),
            purpose_of(request.transition),
            ready,
        );
    }
}

/// A takeover takes its operation to its next form and changes nothing else.
pub proof fn takeovers_only_advance(store: MetaShard, request: TakeOverOrphanedPublishRequest)
    requires
        takeover_draft(store, request).halt is None,
    ensures
        is_durable(store, request.context, request.expected_operation),
        only_advances(
            takeover_draft(store, request).plan,
            store,
            request.context,
            request.expected_operation,
            false,
        ),
{
    let context = request.context;
    let expected = request.expected_operation;
    let ready = takeover_ready(store, request);
    let purpose = PublicationAuthorityPurpose::Cleanup;
    let advanced = advancing(store, context, expected, ready);
    lemma_sealed_adds(store, context, transitioned_of(store), purpose, advanced);
    assert(ready.plan.mutations =~= Seq::empty());
    reveal(current_operation_halt);
    lemma_advances(store, context, expected, ready, takeover_draft(store, request));
}

/// What a takeover asks its codec to do: to abort an uploading operation, with
/// the caller's error, and to take over a finalizing one with that error and
/// the proof that its own stored form determines.
pub proof fn takeovers_ask_for_an_abort(store: MetaShard, request: TakeOverOrphanedPublishRequest)
    requires
        store.transitioned is None,
    ensures
        takeover_draft(store, request).halt matches Some(
            StopView::Transition { operation, transition },
        ) ==> {
            &&& operation == request.expected_operation.record
            &&& operation.phase == PublishPhase::Uploading
            &&& transition == (PublishTransition::BeginAbort {
                terminal_error: request.terminal_error,
            })
        },
        takeover_draft(store, request).halt matches Some(
            StopView::TakeOver { operation, proof: evidence, terminal_error },
        ) ==> {
            &&& operation == request.expected_operation.record
            &&& operation.phase == PublishPhase::Finalizing
            &&& evidence == absence_proof_of(
                request.context,
                request.expected_operation.payload.unwrap()@,
            )
            &&& terminal_error == request.terminal_error
        },
{
    let context = request.context;
    let expected = request.expected_operation;
    let ready = takeover_ready(store, request);
    reveal(next_payload_halt);
    reveal(current_operation_halt);
    lemma_reads_are_plain(
        store,
        context.read_version,
        publish_key(context, expected.record),
    );
    assert(ready.halt is Some);
    lemma_authority_after_halt(
        store,
        context,
        transitioned_of(store),
        PublicationAuthorityPurpose::Cleanup,
        ready,
    );
}

/// The end of a quarantine takes its operation to its next form, gives up the
/// claim that the operation holds, and changes nothing else. It needs a
/// quarantined operation and the operator's verdict on the revision, which the
/// command expects to hold.
pub proof fn resolutions_only_advance(
    store: MetaShard,
    request: FinishReconcileQuarantinedPublishRequest,
)
    requires
        finish_reconcile_draft(store, request).halt is None,
    ensures
        request.expected_operation.record.phase == PublishPhase::Quarantined,
        is_durable(store, request.context, request.expected_operation),
        keeps_the_verdict(
            finish_reconcile_draft(store, request).plan,
            store,
            request.context,
            request.expected_operation.record,
            request.resolution,
        ),
        only_advances(
            finish_reconcile_draft(store, request).plan,
            store,
            request.context,
            request.expected_operation,
            holds_claim(
                store,
                request.context,
                request.expected_operation.record.artifact_revision_id,
                request.expected_operation.record.operation_id,
            ),
        ),
{
    let context = request.context;
    let expected = request.expected_operation;
    let operation = expected.record;
    let opened = halted(
        live(empty_plan()),
        first_fault(
            failing(seals_fault(expected)),
            first_fault(
                current_operation_halt(store, context, expected),
                failing(phase_fault(operation, PublishPhase::Quarantined)),
            ),
        ),
    );
    let judged = verdict_draft(store, context, operation, request.resolution, opened);
    let ready = finish_reconcile_ready(store, request);
    let advanced = advancing(store, context, expected, ready);
    let released = claim_release_draft(
        store,
        context,
        operation.artifact_revision_id,
        operation.operation_id,
        advanced,
    );
    let draft = finish_reconcile_draft(store, request);
    let key = publish_key(context, operation);
    reveal(next_payload_of);
    reveal(current_operation_halt);
    lemma_verdict_holds(store, context, operation, request.resolution, opened);
    lemma_replace_adds(ready, key, payload_of(expected), next_payload_of(store));
    lemma_release_adds(
        store,
        context,
        operation.artifact_revision_id,
        operation.operation_id,
        advanced,
    );
    assert(draft == released && released.halt is None && advanced.halt is None);
    assert(ready == judged && judged.halt is None && opened.halt is None);
    let stored = Some(payload_of(expected));
    lemma_prefix_contains(
        advanced.plan.predicates,
        released.plan.predicates,
        PlanPredicateView::Value { key, expected: stored },
    );
    let revision = revision_key_of(context, operation.artifact_revision_id);
    let verdict = PlanPredicateView::Value {
        key: revision,
        expected: bytes_of(store, context.read_version, revision),
    };
    lemma_prefix_contains(judged.plan.predicates, advanced.plan.predicates, verdict);
    lemma_prefix_contains(advanced.plan.predicates, released.plan.predicates, verdict);
    let change = PlanMutationView::Put { key, value: store.next_payload.unwrap().unwrap()@ };
    assert(opened.plan.mutations =~= Seq::empty());
    reveal(claim_release_draft);
    if holds_claim(store, context, operation.artifact_revision_id, operation.operation_id) {
        assert(draft.plan.mutations =~= seq![
            change,
            PlanMutationView::Delete {
                key: claim_key_of(context, operation.artifact_revision_id),
            },
        ]);
    } else {
        assert(draft.plan.mutations =~= seq![change]);
    }
}

/// What a receipt says of the operation that its command was planned for: the
/// decoded operation, if it is that one, with the receipt's version and
/// whether it was a replay.
pub proof fn outcomes_are_of_their_operation(
    receipt: CommandReceipt,
    decoded: Result<PublishOperationRecord, PublishRecordError>,
    operation_id: OperationId,
)
    ensures
        decoded matches Err(error) ==> outcome_of(receipt, decoded, operation_id) == Err::<
            PublishCommandOutcome,
            PublicationError,
        >(PublicationError::OperationCodec(error)),
        decoded matches Ok(operation) ==> {
            let outcome = outcome_of(receipt, decoded, operation_id);
            &&& outcome is Ok <==> operation.operation_id == operation_id
            &&& outcome is Err ==> outcome == Err::<PublishCommandOutcome, PublicationError>(
                PublicationError::ReplayResultMismatch,
            )
            &&& outcome is Ok ==> {
                &&& outcome.unwrap().operation == operation
                &&& outcome.unwrap().commit_version == receipt.commit_version
                &&& outcome.unwrap().replayed == receipt.replayed
            }
        },
{
}

/// A finalization has come out as planned exactly where the operation is
/// published with the planned result.
pub proof fn finalizations_come_out_as_planned(
    outcome: PublishCommandOutcome,
    expected: PublishResult,
)
    ensures
        ({
            let came = finalize_outcome_of(outcome, expected);
            let result = outcome.operation.result.unwrap();
            &&& came is Ok <==> {
                &&& outcome.operation.phase == PublishPhase::Published
                &&& outcome.operation.result is Some
                &&& result.path_generation == expected.path_generation
                &&& result.workspace_revision == expected.workspace_revision
                &&& result.logical_size == expected.logical_size
                &&& result.body_digest_uri@ == expected.body_digest_uri@
            }
            &&& came is Err ==> came == Err::<FinalizePublishOutcome, PublicationError>(
                PublicationError::ReplayResultMismatch,
            )
            &&& came is Ok ==> {
                &&& came.unwrap().result == result
                &&& came.unwrap().operation == outcome.operation
                &&& came.unwrap().commit_version == outcome.commit_version
                &&& came.unwrap().replayed == outcome.replayed
            }
        }),
{
}

/// A deadline that a command ran under and that was reached is one that was
/// not ahead of the clock. Any other failure of a command stays what it is.
pub proof fn reached_deadlines_were_not_ahead(error: MetaError, lease_deadline_ms: Option<u64>)
    ensures
        lease_deadline_ms is Some ==> (error matches MetaError::LeaseDeadlineReached {
            lease_clock_ms,
            requested_deadline_ms,
        } ==> execution_error_of(error, lease_deadline_ms) == (
        PublicationError::ActivityDeadlineNotFuture {
            clock: lease_clock_ms,
            requested: requested_deadline_ms,
        })),
        lease_deadline_ms is None || !(error is LeaseDeadlineReached) ==> execution_error_of(
            error,
            lease_deadline_ms,
        ) == PublicationError::Meta(error),
{
}

/// The codec is asked to end a quarantine as an operator's reconciliation, with
/// a message that gives the verdict and the reason, and with evidence that
/// binds the verdict, the operator's evidence, and that of the quarantine.
pub proof fn resolutions_ask_for_their_audit(
    store: MetaShard,
    request: FinishReconcileQuarantinedPublishRequest,
)
    requires
        store.transitioned is None,
    ensures
        reconciled_halt(store, request) == Some(
            StopView::Reconcile {
                operation: request.expected_operation.record,
                kind: PublishTerminalErrorKind::OperatorReconciled,
                message: "operator reconciliation ("@ + (if request.resolution
                    == QuarantineReconcileResolution::RevisionPublished {
                    "revision-published"@
                } else {
                    "revision-unpublished"@
                }) + "): "@ + request.reason@,
                evidence_digest: sha256_of(
                    reconcile_input(
                        request.resolution,
                        match request.expected_operation.record.terminal_error {
                            None => None,
                            Some(error) => match error.evidence_digest {
                                None => None,
                                Some(digest) => Some(digest@),
                            },
                        },
                        request.operator_evidence_digest@,
                    ),
                ),
            },
        ),
{
}

} // verus!
