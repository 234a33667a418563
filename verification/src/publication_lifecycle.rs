//! The life of a publish operation outside its batches: beginning, steps,
//! heartbeats, takeover, and the end of an operator's reconciliation.

use crate::be::{copy_bytes, same_bytes};
use crate::ids::{CommitVersion, OperationId};
use crate::publication_authority::{bounded, claim_key_of, claim_release_draft,
    lemma_authority_after_halt, lemma_release_after_halt, lemma_verdict_after_halt, revision_key_of,
    sealed_draft, verdict_draft};
use crate::publication_digests::{absence_proof_of, canonical_length_fault, check_operation_seals,
    digest_view, finalization_takeover_absence_proof, get_payload, identity_digest_of,
    initialization_digest_of, payload_fault, payload_of, publish_identity_digest,
    publish_initialization_digest, reconcile_digest_of, reconcile_evidence_digest,
    reconcile_message_of, reconcile_terminal_message, seal_mismatch, seals_fault,
    validate_operation_seals};
use crate::publication_error::{MetaError, PublicationError, QuarantineReconcileResolution};
use crate::publication_plan::{asserting, empty_plan, failing, halted, lift, live, prefix_empty,
    put_absent, replacing, CommandPlan, Draft, OperationKind, PlannedCommand, PlannedCommandView,
    PublicationContext, RowKey, RowPrefix, Stop, StopView};
use crate::publication_records::{first_fault, revision_claim_bytes, ArtifactRevisionClaimRecord};
use crate::publication_replay::existing_replay_halt;
use crate::publication_rules::{phase_fault, purpose_of, require_operation_phase,
    transition_authority_purpose, PublicationAuthorityPurpose};
use crate::publication_store::{claim_halt, claim_of, current_operation_halt, next_payload_halt,
    next_payload_of, publish_halt, publish_key, publish_of, CommandReceipt, MetaShard,
    PublicationService};
use crate::publish_records::{Coded, PublishAuthority, PublishOperationRecord, PublishPhase,
    PublishRecordError, PublishTerminalError, PublishTerminalErrorKind, PublishTransition};
use vstd::prelude::*;

verus! {

/// Atomic creation of one empty publish operation.
#[derive(Debug, PartialEq, Eq)]
pub struct BeginPublishRequest {
    pub context: PublicationContext,
    pub operation: Coded<PublishOperationRecord>,
}

/// Compare-and-set step of one exact observed publish operation.
#[derive(Debug, PartialEq, Eq)]
pub struct TransitionPublishRequest {
    pub context: PublicationContext,
    pub expected_operation: Coded<PublishOperationRecord>,
    pub transition: PublishTransition,
}

/// Initiating-owner, extend-only activity heartbeat for one exact nonterminal
/// publish operation.
#[derive(Debug, PartialEq, Eq)]
pub struct HeartbeatPublishRequest {
    pub context: PublicationContext,
    pub expected_operation: Coded<PublishOperationRecord>,
    pub activity_deadline_ms: u64,
}

/// Fenced takeover of one exact nonterminal publish operation.
#[derive(Debug, PartialEq, Eq)]
pub struct TakeOverOrphanedPublishRequest {
    pub context: PublicationContext,
    pub expected_operation: Coded<PublishOperationRecord>,
    pub observed_now_ms: u64,
    pub maximum_clock_skew_ms: u64,
    pub terminal_error: PublishTerminalError,
}

/// Atomic operator resolution of one fully swept quarantined operation.
#[derive(Debug, PartialEq, Eq)]
pub struct FinishReconcileQuarantinedPublishRequest {
    pub context: PublicationContext,
    pub expected_operation: Coded<PublishOperationRecord>,
    pub resolution: QuarantineReconcileResolution,
    /// Reason that the terminal error keeps.
    pub reason: String,
    /// Digest of the operator's transcript.
    pub operator_evidence_digest: [u8; 32],
}

/// Decoded durable result of a publication command.
#[derive(Clone, Debug, PartialEq, Eq)]
pub struct PublishCommandOutcome {
    pub commit_version: CommitVersion,
    pub operation: PublishOperationRecord,
    pub replayed: bool,
}

/// How a publication begins.
#[derive(Debug, PartialEq, Eq)]
pub enum BeginPlan {
    /// The operation exists already and speaks for itself.
    Replayed(PublishCommandOutcome),
    /// The command that creates the operation.
    Execute(PlannedCommand),
}

/// The operation row is taken from what the caller has observed to the next
/// operation.
pub open spec fn advancing(
    store: MetaShard,
    context: PublicationContext,
    expected: Coded<PublishOperationRecord>,
    draft: Draft,
) -> Draft {
    replacing(
        draft,
        publish_key(context, expected.record),
        payload_of(expected),
        next_payload_of(store),
    )
}

/// The row of the operation that a caller has observed.
pub fn publish_row(context: PublicationContext, operation: &PublishOperationRecord) -> (key: RowKey)
    ensures
        key@ == publish_key(context, *operation),
{
    RowKey::Operation {
        root_id: context.root_id,
        kind: OperationKind::Publish,
        operation_id: operation.operation_id,
    }
}

/// The command that a finished draft stands for.
pub open spec fn command_of(
    context: PublicationContext,
    draft: Draft,
    result: Seq<u8>,
    lease_deadline_ms: Option<u64>,
) -> PlannedCommandView {
    PlannedCommandView { context, plan: draft.plan, deterministic_result: result, lease_deadline_ms }
}

/// A planned command is exactly what a draft stands for, or planning stopped
/// where the draft stopped. What is planned can be carried out as one
/// compare-and-set.
pub open spec fn plans(
    result: Result<PlannedCommand, Stop>,
    context: PublicationContext,
    draft: Draft,
    deterministic_result: Seq<u8>,
    lease_deadline_ms: Option<u64>,
) -> bool {
    match result {
        Ok(command) => {
            &&& draft.halt is None
            &&& command@ == command_of(context, draft, deterministic_result, lease_deadline_ms)
            &&& command.plan.wf()
        },
        Err(stop) => draft.halt == Some(stop@),
    }
}

/// The deadline is not beyond the lease clock, or the clock is not known yet.
pub open spec fn lease_clock_halt(store: MetaShard, deadline_ms: u64) -> Option<StopView> {
    match store.lease_clock {
        None => Some(StopView::LeaseClock),
        Some(Err(error)) => Some(StopView::Fail(PublicationError::Meta(error))),
        Some(Ok(clock)) => if deadline_ms <= clock {
            Some(
                StopView::Fail(
                    PublicationError::ActivityDeadlineNotFuture { clock, requested: deadline_ms },
                ),
            )
        } else {
            None
        },
    }
}

/// An operation that does not begin at its beginning.
pub open spec fn begin_fault(request: BeginPublishRequest) -> Option<PublicationError> {
    let operation = request.operation.record;
    first_fault(
        seals_fault(request.operation),
        if operation.initiating_owner_epoch != request.context.owner_epoch {
            Some(
                PublicationError::InitiatingOwnerEpochMismatch {
                    expected: request.context.owner_epoch,
                    actual: operation.initiating_owner_epoch,
                },
            )
        } else if operation.phase != PublishPhase::Uploading {
            Some(
                PublicationError::InvalidOperationPhase {
                    expected: PublishPhase::Uploading,
                    actual: operation.phase,
                },
            )
        } else if operation.staged_object_cursor != 0 || operation.uploaded_object_cursor != 0
            || operation.manifest_cursor != 0 || operation.manifest_last_position is Some
            || operation.cleanup_staged_object_cursor != 0 || operation.cleanup_manifest_cursor
            != 0 {
            Some(PublicationError::InvalidOperationSeal { seal: "initial cursor" })
        } else {
            None
        },
    )
}

/// Checks that an operation begins at its beginning.
pub fn validate_begin_request(request: &BeginPublishRequest) -> (result: Result<
    (),
    PublicationError,
>)
    requires
        request.operation.record.wf(),
    ensures
        match result {
            Ok(_) => begin_fault(*request) is None,
            Err(error) => begin_fault(*request) == Some(error),
        },
{
    validate_operation_seals(&request.operation)?;
    let operation: &PublishOperationRecord = &request.operation.record;
    if operation.initiating_owner_epoch != request.context.owner_epoch {
        return Err(
            PublicationError::InitiatingOwnerEpochMismatch {
                expected: request.context.owner_epoch,
                actual: operation.initiating_owner_epoch,
            },
        );
    }
    if operation.phase != PublishPhase::Uploading {
        return Err(
            PublicationError::InvalidOperationPhase {
                expected: PublishPhase::Uploading,
                actual: operation.phase,
            },
        );
    }
    if operation.staged_object_cursor != 0 || operation.uploaded_object_cursor != 0
        || operation.manifest_cursor != 0 || operation.manifest_last_position.is_some()
        || operation.cleanup_staged_object_cursor != 0 || operation.cleanup_manifest_cursor != 0 {
        return Err(PublicationError::InvalidOperationSeal { seal: "initial cursor" });
    }
    Ok(())
}

/// What a replay of a beginning compares: the request's operation. The owner
/// epoch of a published restore manifest is the stored one, since a successor
/// owner may ask for it.
pub open spec fn replay_candidate(
    requested: PublishOperationRecord,
    stored: PublishOperationRecord,
) -> PublishOperationRecord {
    if stored.authority is RestoreStaging && stored.phase == PublishPhase::Published {
        PublishOperationRecord { initiating_owner_epoch: stored.initiating_owner_epoch, ..requested }
    } else {
        requested
    }
}

/// Whether a stored operation was begun with the same inputs.
pub open spec fn same_inputs(
    stored: PublishOperationRecord,
    candidate: PublishOperationRecord,
) -> bool {
    &&& stored.operation_id == candidate.operation_id
    &&& stored.identity_digest@ == identity_digest_of(candidate)
    &&& stored.initialization_digest@ == initialization_digest_of(candidate)
}

/// Why a stored operation cannot answer a request to begin.
pub open spec fn begin_replay_halt(
    store: MetaShard,
    request: BeginPublishRequest,
    stored: PublishOperationRecord,
) -> Option<StopView> {
    first_fault(
        failing(
            first_fault(
                seal_mismatch(stored),
                if !same_inputs(stored, replay_candidate(request.operation.record, stored)) {
                    Some(PublicationError::OperationInputMismatch)
                } else {
                    None
                },
            ),
        ),
        existing_replay_halt(store, request.context, stored),
    )
}

/// Another operation holds the claim on the revision.
pub open spec fn claim_held_halt(
    store: MetaShard,
    context: PublicationContext,
    operation: PublishOperationRecord,
) -> Option<StopView> {
    let key = claim_key_of(context, operation.artifact_revision_id);
    first_fault(
        claim_halt(store, context.read_version, key),
        match claim_of(store, context.read_version, key) {
            None => None,
            Some(claim) => Some(
                StopView::Fail(
                    PublicationError::RevisionClaimHeld {
                        revision: operation.artifact_revision_id,
                        operation_id: claim.operation_id,
                    },
                ),
            ),
        },
    )
}

/// The draft before an operation is created.
pub open spec fn begin_opening(store: MetaShard, request: BeginPublishRequest) -> Draft {
    let operation = request.operation.record;
    halted(
        live(empty_plan()),
        first_fault(
            lease_clock_halt(store, operation.activity_deadline_ms),
            first_fault(
                claim_held_halt(store, request.context, operation),
                failing(payload_fault(request.operation)),
            ),
        ),
    )
}

/// The draft that creates an operation: its row, its claim on the revision,
/// and the absence of everything that it will own.
pub open spec fn begin_bare(store: MetaShard, request: BeginPublishRequest) -> Draft {
    let context = request.context;
    let operation = request.operation.record;
    let created = put_absent(
        put_absent(
            begin_opening(store, request),
            publish_key(context, operation),
            payload_of(request.operation),
        ),
        claim_key_of(context, operation.artifact_revision_id),
        revision_claim_bytes(
            ArtifactRevisionClaimRecord { operation_id: operation.operation_id },
        ),
    );
    asserting(
        prefix_empty(
            prefix_empty(
                created,
                RowPrefix::StagedObjects {
                    root_id: context.root_id,
                    operation_id: operation.operation_id,
                },
            ),
            RowPrefix::ArtifactManifest {
                root_id: context.root_id,
                revision: operation.artifact_revision_id,
            },
        ),
        revision_key_of(context, operation.artifact_revision_id),
        None,
    )
}

/// The draft that creates an operation, under its authority.
pub open spec fn begin_draft(store: MetaShard, request: BeginPublishRequest) -> Draft {
    sealed_draft(
        store,
        request.context,
        request.operation.record,
        PublicationAuthorityPurpose::Forward,
        begin_bare(store, request),
    )
}

/// The stored operation that a request to begin names, if there is one.
pub open spec fn begun(store: MetaShard, request: BeginPublishRequest) -> Option<
    PublishOperationRecord,
> {
    publish_of(
        store,
        request.context.read_version,
        publish_key(request.context, request.operation.record),
    )
}

/// Why a publication cannot begin, or be answered from its row.
pub open spec fn begin_halt(store: MetaShard, request: BeginPublishRequest) -> Option<StopView> {
    first_fault(
        failing(begin_fault(request)),
        first_fault(
            publish_halt(
                store,
                request.context.read_version,
                publish_key(request.context, request.operation.record),
            ),
            match begun(store, request) {
                Some(stored) => begin_replay_halt(store, request, stored),
                None => begin_draft(store, request).halt,
            },
        ),
    )
}

/// Why the codec has not taken an operation through a step.
pub open spec fn transition_halt(
    store: MetaShard,
    operation: PublishOperationRecord,
    transition: PublishTransition,
) -> Option<StopView> {
    match store.transitioned {
        None => Some(StopView::Transition { operation, transition }),
        Some(Err(error)) => Some(StopView::Fail(PublicationError::OperationCodec(error))),
        Some(Ok(_)) => None,
    }
}

/// The operation after its step.
pub open spec fn transitioned_of(store: MetaShard) -> PublishOperationRecord {
    store.transitioned.unwrap().unwrap()
}

/// The draft before the operation row is taken through a step.
pub open spec fn transition_ready(store: MetaShard, request: TransitionPublishRequest) -> Draft {
    let context = request.context;
    let expected = request.expected_operation;
    halted(
        live(empty_plan()),
        first_fault(
            failing(
                first_fault(
                    seals_fault(expected),
                    if request.transition is Publish {
                        Some(PublicationError::MetadataLastFinalizationRequired)
                    } else {
                        None
                    },
                ),
            ),
            first_fault(
                current_operation_halt(store, context, expected),
                first_fault(
                    failing(payload_fault(expected)),
                    first_fault(
                        transition_halt(store, expected.record, request.transition),
                        next_payload_halt(store, transitioned_of(store)),
                    ),
                ),
            ),
        ),
    )
}

/// The draft that takes an operation through a step. The end of cleanup also
/// gives up the claim on the revision.
pub open spec fn transition_draft(store: MetaShard, request: TransitionPublishRequest) -> Draft {
    let context = request.context;
    let expected = request.expected_operation;
    let advanced = advancing(store, context, expected, transition_ready(store, request));
    let released = if request.transition is FinishCleanup {
        claim_release_draft(
            store,
            context,
            expected.record.artifact_revision_id,
            expected.record.operation_id,
            advanced,
        )
    } else {
        advanced
    };
    sealed_draft(
        store,
        context,
        transitioned_of(store),
        purpose_of(request.transition),
        released,
    )
}

/// The operation with a later activity deadline.
pub open spec fn extended(operation: PublishOperationRecord, deadline_ms: u64) -> PublishOperationRecord {
    PublishOperationRecord { activity_deadline_ms: deadline_ms, ..operation }
}

/// A heartbeat that is not the initiating owner's, or extends nothing.
pub open spec fn heartbeat_fault(request: HeartbeatPublishRequest) -> Option<PublicationError> {
    let operation = request.expected_operation.record;
    first_fault(
        seals_fault(request.expected_operation),
        if request.context.owner_epoch != operation.initiating_owner_epoch {
            Some(
                PublicationError::HeartbeatOwnerMismatch {
                    initiating: operation.initiating_owner_epoch,
                    current: request.context.owner_epoch,
                },
            )
        } else if operation.phase != PublishPhase::Uploading && operation.phase
            != PublishPhase::Finalizing {
            Some(PublicationError::HeartbeatPhase { actual: operation.phase })
        } else if request.activity_deadline_ms <= operation.activity_deadline_ms {
            Some(
                PublicationError::ActivityDeadlineNotExtended {
                    current: operation.activity_deadline_ms,
                    requested: request.activity_deadline_ms,
                },
            )
        } else {
            None
        },
    )
}

/// The draft before an activity lease is extended.
pub open spec fn heartbeat_ready(store: MetaShard, request: HeartbeatPublishRequest) -> Draft {
    let context = request.context;
    let expected = request.expected_operation;
    let next = extended(expected.record, request.activity_deadline_ms);
    halted(
        live(empty_plan()),
        first_fault(
            failing(heartbeat_fault(request)),
            first_fault(
                current_operation_halt(store, context, expected),
                first_fault(
                    lease_clock_halt(store, request.activity_deadline_ms),
                    first_fault(failing(payload_fault(expected)), next_payload_halt(store, next)),
                ),
            ),
        ),
    )
}

/// The draft that extends an activity lease.
pub open spec fn heartbeat_draft(store: MetaShard, request: HeartbeatPublishRequest) -> Draft {
    let context = request.context;
    let expected = request.expected_operation;
    let next = extended(expected.record, request.activity_deadline_ms);
    sealed_draft(
        store,
        context,
        next,
        PublicationAuthorityPurpose::Forward,
        advancing(store, context, expected, heartbeat_ready(store, request)),
    )
}

/// When a lease has surely run out: its deadline and the clock skew.
pub open spec fn expiry_threshold(deadline_ms: u64, maximum_clock_skew_ms: u64) -> int {
    if deadline_ms + maximum_clock_skew_ms > u64::MAX {
        u64::MAX as int
    } else {
        deadline_ms + maximum_clock_skew_ms
    }
}

/// Why an owner may not take over an operation. A newer owner may at once; the
/// initiating owner once the lease has run out.
pub open spec fn takeover_halt(store: MetaShard, request: TakeOverOrphanedPublishRequest) -> Option<
    StopView,
> {
    let operation = request.expected_operation.record;
    if operation.phase != PublishPhase::Uploading && operation.phase != PublishPhase::Finalizing {
        Some(
            StopView::Fail(PublicationError::OwnerTakeoverPhase { actual: operation.phase }),
        )
    } else if request.context.owner_epoch.value < operation.initiating_owner_epoch.value {
        Some(
            StopView::Fail(
                PublicationError::OwnerTakeoverNotAllowed {
                    initiating: operation.initiating_owner_epoch,
                    current: request.context.owner_epoch,
                },
            ),
        )
    } else if request.context.owner_epoch == operation.initiating_owner_epoch {
        match store.observed_clock {
            None => Some(StopView::ObserveClock { now_ms: request.observed_now_ms }),
            Some(Err(error)) => Some(StopView::Fail(PublicationError::Meta(error))),
            Some(Ok(clock)) => if clock < expiry_threshold(
                operation.activity_deadline_ms,
                request.maximum_clock_skew_ms,
            ) {
                Some(
                    StopView::Fail(
                        PublicationError::ActivityLeaseNotExpired {
                            deadline_ms: operation.activity_deadline_ms,
                            lease_clock_ms: clock,
                            maximum_clock_skew_ms: request.maximum_clock_skew_ms,
                        },
                    ),
                )
            } else {
                None
            },
        }
    } else {
        None
    }
}

/// Why the codec has not aborted an orphaned operation. A finalizing one is
/// aborted under a proof of absence that its own stored form determines.
pub open spec fn abort_halt(store: MetaShard, request: TakeOverOrphanedPublishRequest) -> Option<
    StopView,
> {
    let expected = request.expected_operation;
    if expected.record.phase == PublishPhase::Uploading {
        transition_halt(
            store,
            expected.record,
            PublishTransition::BeginAbort { terminal_error: request.terminal_error },
        )
    } else {
        first_fault(
            failing(canonical_length_fault(payload_of(expected).len())),
            match store.transitioned {
                None => Some(
                    StopView::TakeOver {
                        operation: expected.record,
                        proof: absence_proof_of(request.context, payload_of(expected)),
                        terminal_error: request.terminal_error,
                    },
                ),
                Some(Err(error)) => Some(StopView::Fail(PublicationError::OperationCodec(error))),
                Some(Ok(_)) => None,
            },
        )
    }
}

/// The draft before an orphaned operation is aborted.
pub open spec fn takeover_ready(store: MetaShard, request: TakeOverOrphanedPublishRequest) -> Draft {
    let context = request.context;
    let expected = request.expected_operation;
    halted(
        live(empty_plan()),
        first_fault(
            failing(seals_fault(expected)),
            first_fault(
                current_operation_halt(store, context, expected),
                first_fault(
                    takeover_halt(store, request),
                    first_fault(
                        failing(payload_fault(expected)),
                        first_fault(
                            abort_halt(store, request),
                            next_payload_halt(store, transitioned_of(store)),
                        ),
                    ),
                ),
            ),
        ),
    )
}

/// The draft that aborts an orphaned operation.
pub open spec fn takeover_draft(store: MetaShard, request: TakeOverOrphanedPublishRequest) -> Draft {
    let context = request.context;
    let expected = request.expected_operation;
    sealed_draft(
        store,
        context,
        transitioned_of(store),
        PublicationAuthorityPurpose::Cleanup,
        advancing(store, context, expected, takeover_ready(store, request)),
    )
}

/// The evidence that an operation already carries.
pub open spec fn prior_evidence(operation: PublishOperationRecord) -> Option<Seq<u8>> {
    match operation.terminal_error {
        None => None,
        Some(error) => digest_view(error.evidence_digest),
    }
}

/// Why the codec has not resolved a quarantined operation.
pub open spec fn reconciled_halt(
    store: MetaShard,
    request: FinishReconcileQuarantinedPublishRequest,
) -> Option<StopView> {
    let operation = request.expected_operation.record;
    match store.transitioned {
        None => Some(
            StopView::Reconcile {
                operation,
                kind: PublishTerminalErrorKind::OperatorReconciled,
                message: reconcile_message_of(request.resolution, request.reason@),
                evidence_digest: reconcile_digest_of(
                    request.resolution,
                    prior_evidence(operation),
                    request.operator_evidence_digest@,
                ),
            },
        ),
        Some(Err(error)) => Some(StopView::Fail(PublicationError::OperationCodec(error))),
        Some(Ok(_)) => None,
    }
}

/// The draft before a quarantine ends: the revision is pinned to the verdict.
pub open spec fn finish_reconcile_ready(
    store: MetaShard,
    request: FinishReconcileQuarantinedPublishRequest,
) -> Draft {
    let context = request.context;
    let expected = request.expected_operation;
    let opened = halted(
        live(empty_plan()),
        first_fault(
            failing(seals_fault(expected)),
            first_fault(
                current_operation_halt(store, context, expected),
                failing(phase_fault(expected.record, PublishPhase::Quarantined)),
            ),
        ),
    );
    let judged = verdict_draft(store, context, expected.record, request.resolution, opened);
    halted(
        judged,
        first_fault(
            reconciled_halt(store, request),
            first_fault(
                failing(payload_fault(expected)),
                next_payload_halt(store, transitioned_of(store)),
            ),
        ),
    )
}

/// The draft that ends a quarantine: the revision is pinned to the verdict,
/// the operation is resolved, and its claim is given up.
pub open spec fn finish_reconcile_draft(
    store: MetaShard,
    request: FinishReconcileQuarantinedPublishRequest,
) -> Draft {
    let context = request.context;
    let expected = request.expected_operation;
    bounded(
        claim_release_draft(
            store,
            context,
            expected.record.artifact_revision_id,
            expected.record.operation_id,
            advancing(store, context, expected, finish_reconcile_ready(store, request)),
        ),
    )
}

/// What a command's result says of the operation that it was planned for.
pub open spec fn outcome_of(
    receipt: CommandReceipt,
    decoded: Result<PublishOperationRecord, PublishRecordError>,
    operation_id: OperationId,
) -> Result<PublishCommandOutcome, PublicationError> {
    match decoded {
        Err(error) => Err(PublicationError::OperationCodec(error)),
        Ok(operation) => if operation.operation_id != operation_id {
            Err(PublicationError::ReplayResultMismatch)
        } else {
            Ok(
                PublishCommandOutcome {
                    commit_version: receipt.commit_version,
                    operation,
                    replayed: receipt.replayed,
                },
            )
        },
    }
}

/// What a command's result says of the operation that it was planned for;
/// `decoded` is what the codec makes of the result's bytes.
pub fn decode_operation_outcome(
    receipt: &CommandReceipt,
    decoded: Result<PublishOperationRecord, PublishRecordError>,
    operation_id: OperationId,
) -> (result: Result<PublishCommandOutcome, PublicationError>)
    ensures
        result == outcome_of(*receipt, decoded, operation_id),
{
    match decoded {
        Err(error) => Err(PublicationError::OperationCodec(error)),
        Ok(operation) => {
            if operation.operation_id != operation_id {
                return Err(PublicationError::ReplayResultMismatch);
            }
            Ok(
                PublishCommandOutcome {
                    commit_version: receipt.commit_version,
                    operation,
                    replayed: receipt.replayed,
                },
            )
        },
    }
}

/// The publication failure that a failed command stands for. Where the command
/// ran under a lease deadline, a reached deadline is one that was not future.
pub open spec fn execution_error_of(
    error: MetaError,
    lease_deadline_ms: Option<u64>,
) -> PublicationError {
    match (error, lease_deadline_ms) {
        (
            MetaError::LeaseDeadlineReached { lease_clock_ms, requested_deadline_ms },
            Some(_),
        ) => PublicationError::ActivityDeadlineNotFuture {
            clock: lease_clock_ms,
            requested: requested_deadline_ms,
        },
        _ => PublicationError::Meta(error),
    }
}

/// The publication failure that a failed command stands for.
pub fn execution_error(error: MetaError, lease_deadline_ms: Option<u64>) -> (failure:
    PublicationError)
    ensures
        failure == execution_error_of(error, lease_deadline_ms),
{
    match (error, lease_deadline_ms) {
        (
            MetaError::LeaseDeadlineReached { lease_clock_ms, requested_deadline_ms },
            Some(_),
        ) => PublicationError::ActivityDeadlineNotFuture {
            clock: lease_clock_ms,
            requested: requested_deadline_ms,
        },
        _ => PublicationError::Meta(error),
    }
}

impl<'a> PublicationService<'a> {
    /// Checks that a deadline is beyond the lease clock.
    pub fn require_future_deadline(&self, deadline_ms: u64) -> (result: Result<(), Stop>)
        ensures
            match result {
                Ok(_) => lease_clock_halt(*self.store, deadline_ms) is None,
                Err(stop) => lease_clock_halt(*self.store, deadline_ms) == Some(stop@),
            },
    {
        match &self.store.lease_clock {
            None => Err(Stop::LeaseClock),
            Some(Err(error)) => Err(Stop::Fail(PublicationError::Meta(*error))),
            Some(Ok(clock)) => {
                if deadline_ms <= *clock {
                    return Err(
                        Stop::Fail(
                            PublicationError::ActivityDeadlineNotFuture {
                                clock: *clock,
                                requested: deadline_ms,
                            },
                        ),
                    );
                }
                Ok(())
            },
        }
    }

    /// The operation after a step, as the codec takes it.
    pub fn apply_transition(
        &self,
        operation: &PublishOperationRecord,
        transition: &PublishTransition,
    ) -> (result: Result<&'a PublishOperationRecord, Stop>)
        ensures
            match result {
                Ok(next) => transition_halt(*self.store, *operation, *transition) is None && *next
                    == transitioned_of(*self.store),
                Err(stop) => transition_halt(*self.store, *operation, *transition) == Some(stop@),
            },
    {
        match &self.store.transitioned {
            None => Err(
                Stop::Transition {
                    operation: operation.duplicate(),
                    transition: transition.duplicate(),
                },
            ),
            Some(Err(error)) => Err(Stop::Fail(PublicationError::OperationCodec(*error))),
            Some(Ok(next)) => Ok(next),
        }
    }

    /// Answers a request to begin from the operation that exists.
    fn replay_begin(
        &self,
        request: &BeginPublishRequest,
        stored: &PublishOperationRecord,
    ) -> (result: Result<PublishCommandOutcome, Stop>)
        requires
            stored.wf(),
            request.operation.record.wf(),
            request.context.read_version.wf(),
            begin_fault(*request) is None,
        ensures
            match result {
                Ok(outcome) => begin_replay_halt(*self.store, *request, *stored) is None && outcome
                    == (PublishCommandOutcome {
                    commit_version: CommitVersion { value: request.context.read_version.value },
                    operation: *stored,
                    replayed: true,
                }),
                Err(stop) => begin_replay_halt(*self.store, *request, *stored) == Some(stop@),
            },
    {
        lift(check_operation_seals(stored))?;
        let mut candidate: PublishOperationRecord = request.operation.record.duplicate();
        let owned: bool = match stored.authority {
            PublishAuthority::RestoreStaging { .. } => true,
            _ => false,
        };
        if owned && stored.phase == PublishPhase::Published {
            candidate.initiating_owner_epoch = stored.initiating_owner_epoch;
        }
        assert(candidate == replay_candidate(request.operation.record, *stored));
        let identity: [u8; 32] = publish_identity_digest(&candidate);
        let initialization: [u8; 32] = publish_initialization_digest(&candidate);
        if stored.operation_id != candidate.operation_id || !same_bytes(
            stored.identity_digest.as_slice(),
            identity.as_slice(),
        ) || !same_bytes(
            stored.initialization_digest.as_slice(),
            initialization.as_slice(),
        ) {
            return Err(Stop::Fail(PublicationError::OperationInputMismatch));
        }
        self.validate_existing_publish_replay_authority(request.context, stored)?;
        Ok(
            PublishCommandOutcome {
                commit_version: CommitVersion { value: request.context.read_version.value },
                operation: stored.duplicate(),
                replayed: true,
            },
        )
    }

    /// Plans the command that creates an operation.
    fn plan_begin(&self, request: &BeginPublishRequest) -> (result: Result<PlannedCommand, Stop>)
        ensures
            plans(
                result,
                request.context,
                begin_draft(*self.store, *request),
                payload_of(request.operation),
                Some(request.operation.record.activity_deadline_ms),
            ),
    {
        broadcast use lemma_authority_after_halt;

        let context: PublicationContext = request.context;
        let operation: &PublishOperationRecord = &request.operation.record;
        self.require_future_deadline(operation.activity_deadline_ms)?;
        // Staged rows derive permanent object keys from the revision alone, so
        // one operation at a time may own a revision.
        let claim_key: RowKey = RowKey::ArtifactRevisionClaim {
            root_id: context.root_id,
            revision: operation.artifact_revision_id,
        };
        if let Some(claim) = self.read_claim(context.read_version, &claim_key)? {
            return Err(
                Stop::Fail(
                    PublicationError::RevisionClaimHeld {
                        revision: operation.artifact_revision_id,
                        operation_id: claim.record.operation_id,
                    },
                ),
            );
        }
        let payload: &Vec<u8> = lift(get_payload(&request.operation))?;
        let claim: Vec<u8> = match (ArtifactRevisionClaimRecord {
            operation_id: operation.operation_id,
        }).encode() {
            Ok(bytes) => bytes,
            Err(error) => {
                return Err(Stop::Fail(PublicationError::RecordCodec(error)));
            },
        };
        let mut plan: CommandPlan = CommandPlan::new();
        plan.put_absent(publish_row(context, operation), copy_bytes(payload.as_slice()))?;
        plan.put_absent(claim_key, claim)?;
        plan.prefix_empty(
            RowPrefix::StagedObjects {
                root_id: context.root_id,
                operation_id: operation.operation_id,
            },
        );
        plan.prefix_empty(
            RowPrefix::ArtifactManifest {
                root_id: context.root_id,
                revision: operation.artifact_revision_id,
            },
        );
        plan.assert_value(
            RowKey::ArtifactRevision {
                root_id: context.root_id,
                revision: operation.artifact_revision_id,
            },
            None,
        )?;
        self.seal_plan(
            context,
            plan,
            operation,
            copy_bytes(payload.as_slice()),
            PublicationAuthorityPurpose::Forward,
            Some(operation.activity_deadline_ms),
        )
    }

    /// Begins a publication, or answers from the operation that exists.
    pub fn begin_publish(&self, request: &BeginPublishRequest) -> (result: Result<BeginPlan, Stop>)
        requires
            self.wf(),
            request.operation.record.wf(),
            request.context.read_version.wf(),
        ensures
            match result {
                Ok(BeginPlan::Replayed(outcome)) => {
                    &&& begin_halt(*self.store, *request) is None
                    &&& begun(*self.store, *request) is Some
                    &&& outcome == (PublishCommandOutcome {
                        commit_version: CommitVersion { value: request.context.read_version.value },
                        operation: begun(*self.store, *request).unwrap(),
                        replayed: true,
                    })
                },
                Ok(BeginPlan::Execute(command)) => {
                    &&& begin_halt(*self.store, *request) is None
                    &&& begun(*self.store, *request) is None
                    &&& command@ == command_of(
                        request.context,
                        begin_draft(*self.store, *request),
                        payload_of(request.operation),
                        Some(request.operation.record.activity_deadline_ms),
                    )
                    &&& command.plan.wf()
                },
                Err(stop) => begin_halt(*self.store, *request) == Some(stop@),
            },
    {
        lift(validate_begin_request(request))?;
        let key: RowKey = publish_row(request.context, &request.operation.record);
        match self.read_publish(request.context.read_version, &key)? {
            Some(stored) => Ok(BeginPlan::Replayed(self.replay_begin(request, stored.record)?)),
            None => Ok(BeginPlan::Execute(self.plan_begin(request)?)),
        }
    }

    /// Takes an operation through a step other than publishing.
    pub fn transition_publish(&self, request: &TransitionPublishRequest) -> (result: Result<
        PlannedCommand,
        Stop,
    >)
        requires
            request.expected_operation.wf(),
        ensures
            plans(
                result,
                request.context,
                transition_draft(*self.store, *request),
                next_payload_of(*self.store),
                None,
            ),
    {
        broadcast use {lemma_authority_after_halt, lemma_release_after_halt};

        let context: PublicationContext = request.context;
        let expected: &Coded<PublishOperationRecord> = &request.expected_operation;
        lift(validate_operation_seals(expected))?;
        if let PublishTransition::Publish { .. } = &request.transition {
            return Err(Stop::Fail(PublicationError::MetadataLastFinalizationRequired));
        }
        let purpose: PublicationAuthorityPurpose = transition_authority_purpose(
            &request.transition,
        );
        self.require_current_operation(context, expected)?;
        let payload: &Vec<u8> = lift(get_payload(expected))?;
        let next: &PublishOperationRecord = self.apply_transition(
            &expected.record,
            &request.transition,
        )?;
        let next_payload: Vec<u8> = self.encode_next(next)?;
        let mut plan: CommandPlan = CommandPlan::new();
        plan.replace(
            publish_row(context, &expected.record),
            copy_bytes(payload.as_slice()),
            copy_bytes(next_payload.as_slice()),
        )?;
        if let PublishTransition::FinishCleanup = &request.transition {
            self.release_revision_claim(
                context,
                expected.record.artifact_revision_id,
                expected.record.operation_id,
                &mut plan,
            )?;
        }
        self.seal_plan(context, plan, next, next_payload, purpose, None)
    }

    /// Extends the activity lease of an operation in progress. Only the owner
    /// that began the operation may, and only forward.
    pub fn heartbeat_publish(&self, request: &HeartbeatPublishRequest) -> (result: Result<
        PlannedCommand,
        Stop,
    >)
        requires
            request.expected_operation.wf(),
        ensures
            plans(
                result,
                request.context,
                heartbeat_draft(*self.store, *request),
                next_payload_of(*self.store),
                Some(request.activity_deadline_ms),
            ),
    {
        broadcast use lemma_authority_after_halt;

        let context: PublicationContext = request.context;
        let expected: &Coded<PublishOperationRecord> = &request.expected_operation;
        lift(validate_operation_seals(expected))?;
        if context.owner_epoch != expected.record.initiating_owner_epoch {
            return Err(
                Stop::Fail(
                    PublicationError::HeartbeatOwnerMismatch {
                        initiating: expected.record.initiating_owner_epoch,
                        current: context.owner_epoch,
                    },
                ),
            );
        }
        if expected.record.phase != PublishPhase::Uploading && expected.record.phase
            != PublishPhase::Finalizing {
            return Err(
                Stop::Fail(PublicationError::HeartbeatPhase { actual: expected.record.phase }),
            );
        }
        if request.activity_deadline_ms <= expected.record.activity_deadline_ms {
            return Err(
                Stop::Fail(
                    PublicationError::ActivityDeadlineNotExtended {
                        current: expected.record.activity_deadline_ms,
                        requested: request.activity_deadline_ms,
                    },
                ),
            );
        }
        self.require_current_operation(context, expected)?;
        self.require_future_deadline(request.activity_deadline_ms)?;
        let payload: &Vec<u8> = lift(get_payload(expected))?;
        let mut next: PublishOperationRecord = expected.record.duplicate();
        next.activity_deadline_ms = request.activity_deadline_ms;
        assert(next == extended(expected.record, request.activity_deadline_ms));
        let next_payload: Vec<u8> = self.encode_next(&next)?;
        let mut plan: CommandPlan = CommandPlan::new();
        plan.replace(
            publish_row(context, &expected.record),
            copy_bytes(payload.as_slice()),
            copy_bytes(next_payload.as_slice()),
        )?;
        self.seal_plan(
            context,
            plan,
            &next,
            next_payload,
            PublicationAuthorityPurpose::Forward,
            Some(request.activity_deadline_ms),
        )
    }

    /// Checks that an owner may take over an operation.
    fn require_takeover(&self, request: &TakeOverOrphanedPublishRequest) -> (result: Result<
        (),
        Stop,
    >)
        ensures
            match result {
                Ok(_) => takeover_halt(*self.store, *request) is None,
                Err(stop) => takeover_halt(*self.store, *request) == Some(stop@),
            },
    {
        let operation: &PublishOperationRecord = &request.expected_operation.record;
        if operation.phase != PublishPhase::Uploading && operation.phase
            != PublishPhase::Finalizing {
            return Err(
                Stop::Fail(PublicationError::OwnerTakeoverPhase { actual: operation.phase }),
            );
        }
        if request.context.owner_epoch.value < operation.initiating_owner_epoch.value {
            return Err(
                Stop::Fail(
                    PublicationError::OwnerTakeoverNotAllowed {
                        initiating: operation.initiating_owner_epoch,
                        current: request.context.owner_epoch,
                    },
                ),
            );
        }
        if request.context.owner_epoch == operation.initiating_owner_epoch {
            match &self.store.observed_clock {
                None => {
                    return Err(Stop::ObserveClock { now_ms: request.observed_now_ms });
                },
                Some(Err(error)) => {
                    return Err(Stop::Fail(PublicationError::Meta(*error)));
                },
                Some(Ok(clock)) => {
                    let threshold: u64 = operation.activity_deadline_ms.saturating_add(
                        request.maximum_clock_skew_ms,
                    );
                    if *clock < threshold {
                        return Err(
                            Stop::Fail(
                                PublicationError::ActivityLeaseNotExpired {
                                    deadline_ms: operation.activity_deadline_ms,
                                    lease_clock_ms: *clock,
                                    maximum_clock_skew_ms: request.maximum_clock_skew_ms,
                                },
                            ),
                        );
                    }
                },
            }
        }
        Ok(())
    }

    /// The operation after its abort, as the codec takes it.
    fn abort_orphan(
        &self,
        request: &TakeOverOrphanedPublishRequest,
        payload: &Vec<u8>,
    ) -> (result: Result<&'a PublishOperationRecord, Stop>)
        requires
            payload@ == payload_of(request.expected_operation),
        ensures
            match result {
                Ok(next) => abort_halt(*self.store, *request) is None && *next == transitioned_of(
                    *self.store,
                ),
                Err(stop) => abort_halt(*self.store, *request) == Some(stop@),
            },
    {
        let operation: &PublishOperationRecord = &request.expected_operation.record;
        if operation.phase == PublishPhase::Uploading {
            let transition: PublishTransition = PublishTransition::BeginAbort {
                terminal_error: request.terminal_error.duplicate(),
            };
            return self.apply_transition(operation, &transition);
        }
        let absence: [u8; 32] = lift(
            finalization_takeover_absence_proof(request.context, payload.as_slice()),
        )?;
        match &self.store.transitioned {
            None => Err(
                Stop::TakeOver {
                    operation: operation.duplicate(),
                    proof: absence,
                    terminal_error: request.terminal_error.duplicate(),
                },
            ),
            Some(Err(error)) => Err(Stop::Fail(PublicationError::OperationCodec(*error))),
            Some(Ok(next)) => Ok(next),
        }
    }

    /// Aborts an operation whose owner is gone.
    ///
    /// A finalizing operation is safe to take over: publishing and the end of
    /// finalization are one command, so the compare-and-set planned here
    /// cannot win where publication already has.
    pub fn take_over_orphaned_publish(
        &self,
        request: &TakeOverOrphanedPublishRequest,
    ) -> (result: Result<PlannedCommand, Stop>)
        requires
            request.expected_operation.wf(),
        ensures
            plans(
                result,
                request.context,
                takeover_draft(*self.store, *request),
                next_payload_of(*self.store),
                None,
            ),
    {
        broadcast use lemma_authority_after_halt;

        let context: PublicationContext = request.context;
        let expected: &Coded<PublishOperationRecord> = &request.expected_operation;
        lift(validate_operation_seals(expected))?;
        self.require_current_operation(context, expected)?;
        self.require_takeover(request)?;
        let payload: &Vec<u8> = lift(get_payload(expected))?;
        let next: &PublishOperationRecord = self.abort_orphan(request, payload)?;
        let next_payload: Vec<u8> = self.encode_next(next)?;
        let mut plan: CommandPlan = CommandPlan::new();
        plan.replace(
            publish_row(context, &expected.record),
            copy_bytes(payload.as_slice()),
            copy_bytes(next_payload.as_slice()),
        )?;
        self.seal_plan(
            context,
            plan,
            next,
            next_payload,
            PublicationAuthorityPurpose::Cleanup,
            None,
        )
    }

    /// The quarantined operation after its resolution, as the codec takes it.
    fn reconcile_operation(
        &self,
        request: &FinishReconcileQuarantinedPublishRequest,
    ) -> (result: Result<&'a PublishOperationRecord, Stop>)
        ensures
            match result {
                Ok(next) => reconciled_halt(*self.store, *request) is None && *next
                    == transitioned_of(*self.store),
                Err(stop) => reconciled_halt(*self.store, *request) == Some(stop@),
            },
    {
        let operation: &PublishOperationRecord = &request.expected_operation.record;
        let original: Option<[u8; 32]> = match &operation.terminal_error {
            None => None,
            Some(error) => error.evidence_digest,
        };
        let evidence: [u8; 32] = reconcile_evidence_digest(
            request.resolution,
            original,
            request.operator_evidence_digest,
        );
        match &self.store.transitioned {
            None => Err(
                Stop::Reconcile {
                    operation: operation.duplicate(),
                    terminal_error: PublishTerminalError {
                        kind: PublishTerminalErrorKind::OperatorReconciled,
                        message: reconcile_terminal_message(
                            request.resolution,
                            request.reason.as_str(),
                        ),
                        evidence_digest: Some(evidence),
                    },
                },
            ),
            Some(Err(error)) => Err(Stop::Fail(PublicationError::OperationCodec(*error))),
            Some(Ok(next)) => Ok(next),
        }
    }

    /// Resolves a fully swept quarantined operation under an operator's
    /// verdict.
    pub fn finish_reconcile_quarantined_publish(
        &self,
        request: &FinishReconcileQuarantinedPublishRequest,
    ) -> (result: Result<PlannedCommand, Stop>)
        requires
            request.expected_operation.wf(),
        ensures
            plans(
                result,
                request.context,
                finish_reconcile_draft(*self.store, *request),
                next_payload_of(*self.store),
                None,
            ),
    {
        broadcast use {lemma_release_after_halt, lemma_verdict_after_halt};

        let context: PublicationContext = request.context;
        let expected: &Coded<PublishOperationRecord> = &request.expected_operation;
        lift(validate_operation_seals(expected))?;
        self.require_current_operation(context, expected)?;
        lift(require_operation_phase(&expected.record, PublishPhase::Quarantined))?;
        let mut plan: CommandPlan = CommandPlan::new();
        self.predicate_reconcile_revision_state(
            context,
            &expected.record,
            request.resolution,
            &mut plan,
        )?;
        let next: &PublishOperationRecord = self.reconcile_operation(request)?;
        let payload: &Vec<u8> = lift(get_payload(expected))?;
        let next_payload: Vec<u8> = self.encode_next(next)?;
        plan.replace(
            publish_row(context, &expected.record),
            copy_bytes(payload.as_slice()),
            copy_bytes(next_payload.as_slice()),
        )?;
        self.release_revision_claim(
            context,
            expected.record.artifact_revision_id,
            expected.record.operation_id,
            &mut plan,
        )?;
        self.seal_reconcile_plan(context, plan, next_payload)
    }
}

} // verus!
