//! Batches of staged objects: announcing them, and confirming their upload.

use crate::be::copy_bytes;
use crate::publication_authority::{lemma_authority_after_halt, sealed_draft};
use crate::publication_digests::{advance_staged_object_rolling_digest, digest_array, fault_upto,
    get_payload, lemma_digest_array, lemma_fault_prefix, payload_fault, payload_of, seals_fault,
    staged_digest_fault, staged_digest_over, validate_operation_seals};
use crate::publication_error::PublicationError;
use crate::publication_lifecycle::{advancing, plans, publish_row};
use crate::publication_plan::{empty_plan, failing, halted, keeps_halts, lemma_stepped_halt, lift,
    live, put_absent, replacing, stepped, CommandPlan, Draft, PlannedCommand, PublicationContext,
    RowKey, RowKeyView, Stop, StopView};
use crate::publication_records::first_fault;
use crate::publication_rules::{batch_cursor_fault, batch_size_fault, checked_batch_cursor,
    phase_fault, require_operation_phase, staged_update_fault, validate_batch_size,
    validate_staged_update, PublicationAuthorityPurpose};
use crate::publication_store::{current_operation_halt, next_payload_halt, next_payload_of,
    MetaShard, PublicationService};
use crate::publish_records::{Coded, ObjectCoordinates, PublishOperationRecord, PublishPhase,
    StagedCleanupState, StagedObjectRecord, StagedProviderState};
use crate::text::same_text;
use vstd::prelude::*;

verus! {

/// One exact staged-ledger state change or provider-cleanup proof pair.
#[derive(Debug, PartialEq, Eq)]
pub struct StagedObjectUpdate {
    pub expected: Coded<StagedObjectRecord>,
    pub next: Coded<StagedObjectRecord>,
}

/// Bounded append to the durable staged-object ledger.
#[derive(Debug, PartialEq, Eq)]
pub struct StageObjectsBatchRequest {
    pub context: PublicationContext,
    pub expected_operation: Coded<PublishOperationRecord>,
    pub staged_objects: Vec<Coded<StagedObjectRecord>>,
}

/// Bounded contiguous confirmation of uploaded staged objects.
#[derive(Debug, PartialEq, Eq)]
pub struct MarkObjectsUploadedBatchRequest {
    pub context: PublicationContext,
    pub expected_operation: Coded<PublishOperationRecord>,
    pub staged_object_updates: Vec<StagedObjectUpdate>,
}

/// The row of a staged object.
pub open spec fn staged_key_of(
    context: PublicationContext,
    operation: PublishOperationRecord,
    sequence: int,
) -> RowKeyView {
    RowKeyView::StagedObject {
        root_id: context.root_id,
        operation_id: operation.operation_id,
        sequence: sequence as u64,
    }
}

pub fn staged_row(
    context: PublicationContext,
    operation: &PublishOperationRecord,
    sequence: u32,
) -> (key: RowKey)
    ensures
        key@ == staged_key_of(context, *operation, sequence as int),
{
    RowKey::StagedObject {
        root_id: context.root_id,
        operation_id: operation.operation_id,
        sequence: sequence as u64,
    }
}

/// The coordinates that an object of an operation has.
pub open spec fn coordinates_of(
    context: PublicationContext,
    revision: crate::ids::ArtifactRevisionId,
    object_index: int,
) -> ObjectCoordinates {
    ObjectCoordinates {
        logical_shard_id: context.logical_shard_id,
        root_id: context.root_id,
        artifact_revision_id: revision,
        object_index: object_index as u64,
    }
}

/// Whether an earlier object of the batch has the same key.
pub open spec fn key_repeats(rows: Seq<Coded<StagedObjectRecord>>, i: int) -> bool {
    exists|j: int|
        0 <= j < i && (#[trigger] rows[j]).record.object_key.text@ == rows[i].record.object_key.text@
}

fn repeats_key(rows: &Vec<Coded<StagedObjectRecord>>, i: usize) -> (repeats: bool)
    requires
        i < rows@.len(),
    ensures
        repeats == key_repeats(rows@, i as int),
{
    let mut j: usize = 0;
    while j < i
        invariant
            j <= i,
            i < rows@.len(),
            forall|k: int|
                0 <= k < j ==> (#[trigger] rows@[k]).record.object_key.text@
                    != rows@[i as int].record.object_key.text@,
        decreases i - j,
    {
        if same_text(
            rows[j].record.object_key.text.as_str(),
            rows[i].record.object_key.text.as_str(),
        ) {
            return true;
        }
        j = j + 1;
    }
    false
}

/// An object of a batch that is not the next one of its operation, freshly
/// planned.
pub open spec fn staged_row_fault(
    context: PublicationContext,
    operation: PublishOperationRecord,
    rows: Seq<Coded<StagedObjectRecord>>,
) -> spec_fn(int) -> Option<PublicationError> {
    |i: int|
        {
            let sequence = operation.staged_object_cursor + i;
            let staged = rows[i].record;
            if staged.object_sequence != sequence {
                Some(
                    PublicationError::StagedObjectSequenceMismatch {
                        expected: sequence as u32,
                        actual: staged.object_sequence,
                    },
                )
            } else if staged.artifact_revision_id != operation.artifact_revision_id {
                Some(PublicationError::StagedObjectRevisionMismatch)
            } else if !staged.object_key.spec_is_canonical(
                coordinates_of(context, operation.artifact_revision_id, sequence),
            ) {
                Some(PublicationError::StagedObjectKeyMismatch { sequence: sequence as u32 })
            } else if staged.provider_state != StagedProviderState::Planned
                || staged.cleanup_state != StagedCleanupState::Owned {
                Some(
                    PublicationError::InvalidStagedObjectTransition { sequence: sequence as u32 },
                )
            } else if key_repeats(rows, i) {
                Some(PublicationError::DuplicateStagedObjectKey { sequence: sequence as u32 })
            } else {
                staged_digest_fault(rows[i])
            }
        }
}

/// The operation after its ledger has grown.
pub open spec fn staged_next(
    operation: PublishOperationRecord,
    rows: Seq<Coded<StagedObjectRecord>>,
) -> PublishOperationRecord {
    PublishOperationRecord {
        staged_object_cursor: (operation.staged_object_cursor + rows.len()) as u32,
        staged_object_rolling_digest: digest_array(
            staged_digest_over(operation.staged_object_rolling_digest@, rows, rows.len()),
        ),
        ..operation
    }
}

/// Adds the rows of staged objects.
pub open spec fn staging_step(
    context: PublicationContext,
    operation: PublishOperationRecord,
    rows: Seq<Coded<StagedObjectRecord>>,
) -> spec_fn(int, Draft) -> Draft {
    |i: int, draft: Draft|
        put_absent(
            halted(draft, failing(payload_fault(rows[i]))),
            staged_key_of(context, operation, rows[i].record.object_sequence as int),
            payload_of(rows[i]),
        )
}

/// Why a batch of an operation in `phase` cannot be looked at: the operation
/// is not what it says, not the durable one, or in another phase.
pub open spec fn batch_opening_halt(
    store: MetaShard,
    context: PublicationContext,
    expected: Coded<PublishOperationRecord>,
    phase: PublishPhase,
) -> Option<StopView> {
    first_fault(
        failing(seals_fault(expected)),
        first_fault(
            current_operation_halt(store, context, expected),
            failing(phase_fault(expected.record, phase)),
        ),
    )
}

/// Why the operation row cannot be taken to its next form.
pub open spec fn batch_closing_halt(
    store: MetaShard,
    expected: Coded<PublishOperationRecord>,
    next: PublishOperationRecord,
) -> Option<StopView> {
    first_fault(failing(payload_fault(expected)), next_payload_halt(store, next))
}

/// The draft before the staged-object ledger grows.
pub open spec fn stage_objects_ready(store: MetaShard, request: StageObjectsBatchRequest) -> Draft {
    let context = request.context;
    let expected = request.expected_operation;
    let rows = request.staged_objects@;
    let next = staged_next(expected.record, rows);
    halted(
        live(empty_plan()),
        first_fault(
            batch_opening_halt(store, context, expected, PublishPhase::Uploading),
            first_fault(
                failing(
                    first_fault(
                        batch_size_fault("stage objects", rows.len()),
                        first_fault(
                            batch_cursor_fault(
                                "stage objects",
                                expected.record.staged_object_cursor,
                                rows.len(),
                                expected.record.staged_object_count,
                            ),
                            fault_upto(
                                staged_row_fault(context, expected.record, rows),
                                rows.len(),
                            ),
                        ),
                    ),
                ),
                batch_closing_halt(store, expected, next),
            ),
        ),
    )
}

/// The draft that grows the staged-object ledger.
pub open spec fn stage_objects_draft(store: MetaShard, request: StageObjectsBatchRequest) -> Draft {
    let context = request.context;
    let expected = request.expected_operation;
    let rows = request.staged_objects@;
    let next = staged_next(expected.record, rows);
    sealed_draft(
        store,
        context,
        next,
        PublicationAuthorityPurpose::Forward,
        stepped(
            staging_step(context, expected.record, rows),
            rows.len(),
            advancing(store, context, expected, stage_objects_ready(store, request)),
        ),
    )
}

/// A confirmation that is not of the next object, or does not say that it was
/// uploaded.
pub open spec fn upload_fault(
    operation: PublishOperationRecord,
    updates: Seq<StagedObjectUpdate>,
) -> spec_fn(int) -> Option<PublicationError> {
    |i: int|
        {
            let sequence = operation.uploaded_object_cursor + i;
            let update = updates[i];
            first_fault(
                staged_update_fault(update.expected, update.next),
                first_fault(
                    if update.expected.record.object_sequence != sequence {
                        Some(
                            PublicationError::StagedObjectSequenceMismatch {
                                expected: sequence as u32,
                                actual: update.expected.record.object_sequence,
                            },
                        )
                    } else if update.expected.record.artifact_revision_id
                        != operation.artifact_revision_id {
                        Some(PublicationError::StagedObjectRevisionMismatch)
                    } else if update.next.record.provider_state != StagedProviderState::Uploaded
                        || update.next.record.cleanup_state != StagedCleanupState::Owned {
                        Some(
                            PublicationError::StagedObjectNotUploaded { sequence: sequence as u32 },
                        )
                    } else {
                        None
                    },
                    first_fault(
                        staged_digest_fault(update.next),
                        first_fault(payload_fault(update.expected), payload_fault(update.next)),
                    ),
                ),
            )
        }
}

/// What staged objects become.
pub open spec fn next_rows(updates: Seq<StagedObjectUpdate>) -> Seq<Coded<StagedObjectRecord>> {
    updates.map_values(|update: StagedObjectUpdate| update.next)
}

/// Confirms the upload of staged objects.
pub open spec fn upload_step(
    context: PublicationContext,
    operation: PublishOperationRecord,
    updates: Seq<StagedObjectUpdate>,
) -> spec_fn(int, Draft) -> Draft {
    |i: int, draft: Draft|
        replacing(
            halted(draft, failing(upload_fault(operation, updates)(i))),
            staged_key_of(context, operation, operation.uploaded_object_cursor + i),
            payload_of(updates[i].expected),
            payload_of(updates[i].next),
        )
}

/// The operation after its uploads are confirmed.
pub open spec fn uploaded_next(
    operation: PublishOperationRecord,
    updates: Seq<StagedObjectUpdate>,
) -> PublishOperationRecord {
    PublishOperationRecord {
        uploaded_object_cursor: (operation.uploaded_object_cursor + updates.len()) as u32,
        uploaded_object_rolling_digest: digest_array(
            staged_digest_over(
                operation.uploaded_object_rolling_digest@,
                next_rows(updates),
                updates.len(),
            ),
        ),
        ..operation
    }
}

/// The draft before uploads are confirmed on the operation row.
pub open spec fn mark_uploaded_ready(
    store: MetaShard,
    request: MarkObjectsUploadedBatchRequest,
) -> Draft {
    let context = request.context;
    let expected = request.expected_operation;
    let updates = request.staged_object_updates@;
    let next = uploaded_next(expected.record, updates);
    let opened = halted(
        live(empty_plan()),
        first_fault(
            batch_opening_halt(store, context, expected, PublishPhase::Uploading),
            failing(
                first_fault(
                    batch_size_fault("mark objects uploaded", updates.len()),
                    batch_cursor_fault(
                        "mark objects uploaded",
                        expected.record.uploaded_object_cursor,
                        updates.len(),
                        expected.record.staged_object_cursor,
                    ),
                ),
            ),
        ),
    );
    let confirmed = stepped(
        upload_step(context, expected.record, updates),
        updates.len(),
        opened,
    );
    halted(confirmed, batch_closing_halt(store, expected, next))
}

/// The draft that confirms uploads.
pub open spec fn mark_uploaded_draft(
    store: MetaShard,
    request: MarkObjectsUploadedBatchRequest,
) -> Draft {
    let context = request.context;
    let expected = request.expected_operation;
    let next = uploaded_next(expected.record, request.staged_object_updates@);
    sealed_draft(
        store,
        context,
        next,
        PublicationAuthorityPurpose::Forward,
        advancing(
            store,
            context,
            expected,
            mark_uploaded_ready(store, request),
        ),
    )
}

impl<'a> PublicationService<'a> {
    /// Checks that a batch speaks of the durable operation, in its phase.
    pub fn open_batch(
        &self,
        context: PublicationContext,
        expected: &Coded<PublishOperationRecord>,
        phase: PublishPhase,
    ) -> (result: Result<(), Stop>)
        requires
            expected.wf(),
        ensures
            match result {
                Ok(_) => batch_opening_halt(*self.store, context, *expected, phase) is None,
                Err(stop) => batch_opening_halt(*self.store, context, *expected, phase) == Some(
                    stop@,
                ),
            },
    {
        lift(validate_operation_seals(expected))?;
        self.require_current_operation(context, expected)?;
        lift(require_operation_phase(&expected.record, phase))
    }

    /// The stored forms of an operation and of its next form.
    pub fn close_batch(
        &self,
        expected: &Coded<PublishOperationRecord>,
        next: &PublishOperationRecord,
    ) -> (result: Result<(Vec<u8>, Vec<u8>), Stop>)
        ensures
            match result {
                Ok((payload, next_payload)) => {
                    &&& batch_closing_halt(*self.store, *expected, *next) is None
                    &&& payload@ == payload_of(*expected)
                    &&& next_payload@ == next_payload_of(*self.store)
                },
                Err(stop) => batch_closing_halt(*self.store, *expected, *next) == Some(stop@),
            },
    {
        let payload: &Vec<u8> = lift(get_payload(expected))?;
        let next_payload: Vec<u8> = self.encode_next(next)?;
        Ok((copy_bytes(payload.as_slice()), next_payload))
    }

    /// Checks every object of a batch; the rolling digest after them.
    fn check_staged_rows(
        &self,
        context: PublicationContext,
        operation: &PublishOperationRecord,
        rows: &Vec<Coded<StagedObjectRecord>>,
    ) -> (result: Result<[u8; 32], PublicationError>)
        requires
            operation.staged_object_cursor + rows@.len() <= u32::MAX,
        ensures
            ({
                let fault = fault_upto(
                    staged_row_fault(context, *operation, rows@),
                    rows@.len(),
                );
                match result {
                    Ok(digest) => fault is None && digest@ == staged_digest_over(
                        operation.staged_object_rolling_digest@,
                        rows@,
                        rows@.len(),
                    ),
                    Err(error) => fault == Some(error),
                }
            }),
    {
        let ghost fault = staged_row_fault(context, *operation, rows@);
        let mut digest: [u8; 32] = operation.staged_object_rolling_digest;
        let mut i: usize = 0;
        while i < rows.len()
            invariant
                i <= rows@.len(),
                operation.staged_object_cursor + rows@.len() <= u32::MAX,
                fault == staged_row_fault(context, *operation, rows@),
                fault_upto(fault, i as nat) is None,
                digest@ == staged_digest_over(
                    operation.staged_object_rolling_digest@,
                    rows@,
                    i as nat,
                ),
            decreases rows@.len() - i,
        {
            let staged: &StagedObjectRecord = &rows[i].record;
            let sequence: u32 = operation.staged_object_cursor + i as u32;
            proof {
                assert(fault_upto(fault, (i + 1) as nat) == fault(i as int));
                if fault(i as int) is Some {
                    lemma_fault_prefix(fault, (i + 1) as nat, rows@.len());
                }
            }
            if staged.object_sequence != sequence {
                return Err(
                    PublicationError::StagedObjectSequenceMismatch {
                        expected: sequence,
                        actual: staged.object_sequence,
                    },
                );
            }
            if staged.artifact_revision_id != operation.artifact_revision_id {
                return Err(PublicationError::StagedObjectRevisionMismatch);
            }
            let coordinates: ObjectCoordinates = ObjectCoordinates {
                logical_shard_id: context.logical_shard_id,
                root_id: context.root_id,
                artifact_revision_id: operation.artifact_revision_id,
                object_index: sequence as u64,
            };
            if !staged.object_key.is_canonical(coordinates) {
                return Err(PublicationError::StagedObjectKeyMismatch { sequence });
            }
            if staged.provider_state != StagedProviderState::Planned || staged.cleanup_state
                != StagedCleanupState::Owned {
                return Err(PublicationError::InvalidStagedObjectTransition { sequence });
            }
            if repeats_key(rows, i) {
                return Err(PublicationError::DuplicateStagedObjectKey { sequence });
            }
            digest = advance_staged_object_rolling_digest(digest, &rows[i])?;
            i = i + 1;
        }
        Ok(digest)
    }

    /// Grows the staged-object ledger by the next objects of an operation.
    pub fn stage_objects_batch(&self, request: &StageObjectsBatchRequest) -> (result: Result<
        PlannedCommand,
        Stop,
    >)
        requires
            request.expected_operation.wf(),
        ensures
            plans(
                result,
                request.context,
                stage_objects_draft(*self.store, *request),
                next_payload_of(*self.store),
                None,
            ),
    {
        broadcast use lemma_authority_after_halt;

        let context: PublicationContext = request.context;
        let expected: &Coded<PublishOperationRecord> = &request.expected_operation;
        let rows: &Vec<Coded<StagedObjectRecord>> = &request.staged_objects;
        let ghost step = staging_step(context, expected.record, rows@);
        let ghost draft = stage_objects_draft(*self.store, *request);
        let ghost next_spec = staged_next(expected.record, rows@);
        proof {
            assert(keeps_halts(step));
            // A draft that stops before the rows are added stays stopped.
            assert forall|d: Draft| d.halt is Some implies #[trigger] stepped(step, rows@.len(), d)
                == d by {
                lemma_stepped_halt(step, 0, rows@.len(), d);
            }
        }
        self.open_batch(context, expected, PublishPhase::Uploading)?;
        lift(validate_batch_size("stage objects", rows.len()))?;
        let cursor: u32 = lift(
            checked_batch_cursor(
                "stage objects",
                expected.record.staged_object_cursor,
                rows.len(),
                expected.record.staged_object_count,
            ),
        )?;
        let digest: [u8; 32] = lift(self.check_staged_rows(context, &expected.record, rows))?;
        let mut next: PublishOperationRecord = expected.record.duplicate();
        next.staged_object_cursor = cursor;
        next.staged_object_rolling_digest = digest;
        proof {
            lemma_digest_array(digest);
            assert(next == next_spec);
        }
        let (payload, next_payload) = self.close_batch(expected, &next)?;
        let mut plan: CommandPlan = CommandPlan::new();
        plan.replace(
            publish_row(context, &expected.record),
            payload,
            copy_bytes(next_payload.as_slice()),
        )?;
        let ghost advanced = live(plan@);
        assert(draft == sealed_draft(
            *self.store,
            context,
            next_spec,
            PublicationAuthorityPurpose::Forward,
            stepped(step, rows@.len(), advanced),
        ));
        let mut i: usize = 0;
        while i < rows.len()
            invariant
                i <= rows@.len(),
                rows@ == request.staged_objects@,
                context == request.context,
                *expected == request.expected_operation,
                plan.wf(),
                step == staging_step(context, expected.record, rows@),
                keeps_halts(step),
                stepped(step, i as nat, advanced) == live(plan@),
                draft == stage_objects_draft(*self.store, *request),
                draft == sealed_draft(
                    *self.store,
                    context,
                    next_spec,
                    PublicationAuthorityPurpose::Forward,
                    stepped(step, rows@.len(), advanced),
                ),
            decreases rows@.len() - i,
        {
            broadcast use lemma_authority_after_halt;

            proof {
                assert(stepped(step, (i + 1) as nat, advanced) == step(i as int, live(plan@)));
                if stepped(step, (i + 1) as nat, advanced).halt is Some {
                    lemma_stepped_halt(step, (i + 1) as nat, rows@.len(), advanced);
                }
            }
            let row: &Vec<u8> = lift(get_payload(&rows[i]))?;
            plan.put_absent(
                staged_row(context, &expected.record, rows[i].record.object_sequence),
                copy_bytes(row.as_slice()),
            )?;
            i = i + 1;
        }
        self.seal_plan(
            context,
            plan,
            &next,
            next_payload,
            PublicationAuthorityPurpose::Forward,
            None,
        )
    }

    /// Checks one confirmation of an upload and adds it to the plan; the
    /// rolling digest after it.
    fn confirm_upload(
        &self,
        context: PublicationContext,
        operation: &PublishOperationRecord,
        updates: &Vec<StagedObjectUpdate>,
        i: usize,
        digest: [u8; 32],
        plan: &mut CommandPlan,
    ) -> (result: Result<[u8; 32], Stop>)
        requires
            i < updates@.len(),
            operation.uploaded_object_cursor + updates@.len() <= u32::MAX,
            old(plan).wf(),
        ensures
            final(plan).wf(),
            ({
                let draft = upload_step(context, *operation, updates@)(i as int, live(old(plan)@));
                match result {
                    Ok(after) => {
                        &&& draft == live(final(plan)@)
                        &&& after@ == crate::publication_digests::staged_digest_after(
                            digest@,
                            updates@[i as int].next.record,
                        )
                    },
                    Err(stop) => draft.halt == Some(stop@),
                }
            }),
    {
        let update: &StagedObjectUpdate = &updates[i];
        let sequence: u32 = operation.uploaded_object_cursor + i as u32;
        lift(validate_staged_update(&update.expected, &update.next))?;
        if update.expected.record.object_sequence != sequence {
            return Err(
                Stop::Fail(
                    PublicationError::StagedObjectSequenceMismatch {
                        expected: sequence,
                        actual: update.expected.record.object_sequence,
                    },
                ),
            );
        }
        if update.expected.record.artifact_revision_id != operation.artifact_revision_id {
            return Err(Stop::Fail(PublicationError::StagedObjectRevisionMismatch));
        }
        if update.next.record.provider_state != StagedProviderState::Uploaded
            || update.next.record.cleanup_state != StagedCleanupState::Owned {
            return Err(Stop::Fail(PublicationError::StagedObjectNotUploaded { sequence }));
        }
        let after: [u8; 32] = lift(advance_staged_object_rolling_digest(digest, &update.next))?;
        let expected: &Vec<u8> = lift(get_payload(&update.expected))?;
        let next: &Vec<u8> = lift(get_payload(&update.next))?;
        plan.replace(
            staged_row(context, operation, sequence),
            copy_bytes(expected.as_slice()),
            copy_bytes(next.as_slice()),
        )?;
        Ok(after)
    }

    /// Confirms that the next staged objects are uploaded.
    pub fn mark_objects_uploaded_batch(
        &self,
        request: &MarkObjectsUploadedBatchRequest,
    ) -> (result: Result<PlannedCommand, Stop>)
        requires
            request.expected_operation.wf(),
        ensures
            plans(
                result,
                request.context,
                mark_uploaded_draft(*self.store, *request),
                next_payload_of(*self.store),
                None,
            ),
    {
        broadcast use lemma_authority_after_halt;

        let context: PublicationContext = request.context;
        let expected: &Coded<PublishOperationRecord> = &request.expected_operation;
        let updates: &Vec<StagedObjectUpdate> = &request.staged_object_updates;
        let ghost step = upload_step(context, expected.record, updates@);
        let ghost next_spec = uploaded_next(expected.record, updates@);
        let ghost start = expected.record.uploaded_object_rolling_digest@;
        proof {
            assert(keeps_halts(step));
            assert forall|d: Draft| d.halt is Some implies #[trigger] stepped(
                step,
                updates@.len(),
                d,
            ) == d by {
                lemma_stepped_halt(step, 0, updates@.len(), d);
            }
        }
        self.open_batch(context, expected, PublishPhase::Uploading)?;
        lift(validate_batch_size("mark objects uploaded", updates.len()))?;
        let cursor: u32 = lift(
            checked_batch_cursor(
                "mark objects uploaded",
                expected.record.uploaded_object_cursor,
                updates.len(),
                expected.record.staged_object_cursor,
            ),
        )?;
        let mut plan: CommandPlan = CommandPlan::new();
        let mut digest: [u8; 32] = expected.record.uploaded_object_rolling_digest;
        let ghost opened = live(plan@);
        let ghost confirmed = stepped(step, updates@.len(), opened);
        let ghost draft = mark_uploaded_draft(*self.store, *request);
        assert(draft == sealed_draft(
            *self.store,
            context,
            next_spec,
            PublicationAuthorityPurpose::Forward,
            advancing(
                *self.store,
                context,
                *expected,
                halted(confirmed, batch_closing_halt(*self.store, *expected, next_spec)),
            ),
        ));
        let mut i: usize = 0;
        while i < updates.len()
            invariant
                i <= updates@.len(),
                updates@ == request.staged_object_updates@,
                context == request.context,
                *expected == request.expected_operation,
                expected.record.uploaded_object_cursor + updates@.len() <= u32::MAX,
                plan.wf(),
                step == upload_step(context, expected.record, updates@),
                keeps_halts(step),
                stepped(step, i as nat, opened) == live(plan@),
                confirmed == stepped(step, updates@.len(), opened),
                start == expected.record.uploaded_object_rolling_digest@,
                digest@ == staged_digest_over(start, next_rows(updates@), i as nat),
                draft == mark_uploaded_draft(*self.store, *request),
                draft == sealed_draft(
                    *self.store,
                    context,
                    next_spec,
                    PublicationAuthorityPurpose::Forward,
                    advancing(
                        *self.store,
                        context,
                        *expected,
                        halted(confirmed, batch_closing_halt(*self.store, *expected, next_spec)),
                    ),
                ),
            decreases updates@.len() - i,
        {
            broadcast use lemma_authority_after_halt;

            proof {
                assert(stepped(step, (i + 1) as nat, opened) == step(i as int, live(plan@)));
                if stepped(step, (i + 1) as nat, opened).halt is Some {
                    lemma_stepped_halt(step, (i + 1) as nat, updates@.len(), opened);
                }
                assert(next_rows(updates@)[i as int] == updates@[i as int].next);
            }
            digest = self.confirm_upload(context, &expected.record, updates, i, digest, &mut plan)?;
            i = i + 1;
        }
        let mut next: PublishOperationRecord = expected.record.duplicate();
        next.uploaded_object_cursor = cursor;
        next.uploaded_object_rolling_digest = digest;
        proof {
            lemma_digest_array(digest);
            assert(next == next_spec);
        }
        let (payload, next_payload) = self.close_batch(expected, &next)?;
        plan.replace(
            publish_row(context, &expected.record),
            payload,
            copy_bytes(next_payload.as_slice()),
        )?;
        self.seal_plan(
            context,
            plan,
            &next,
            next_payload,
            PublicationAuthorityPurpose::Forward,
            None,
        )
    }
}

} // verus!
