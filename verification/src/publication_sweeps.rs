//! Removal of an operation's private rows: after an abort, and under an
//! operator's verdict on a quarantined operation.

use crate::be::copy_bytes;
use crate::ids::MetadataFamily;
use crate::publication_authority::{bounded, lemma_authority_after_halt, lemma_verdict_after_halt,
    sealed_draft, verdict_draft};
use crate::publication_batches::{batch_closing_halt, batch_opening_halt, staged_key_of, staged_row,
    StagedObjectUpdate};
use crate::publication_digests::{check_validity, get_payload, payload_fault, payload_of,
    validity_fault};
use crate::publication_error::{PublicationError, QuarantineReconcileResolution};
use crate::publication_lifecycle::{advancing, plans, publish_row};
use crate::publication_plan::{deleting, empty_plan, failing, halted, keeps_halts,
    lemma_stepped_halt, lift, live, stepped, CommandPlan, Draft, PlannedCommand,
    PublicationContext, RowKey, RowKeyView, Stop, StopView};
use crate::publication_records::first_fault;
use crate::publication_rules::{batch_cursor_fault, batch_size_fault, checked_batch_cursor,
    cleanup_update_fault, validate_batch_size, validate_cleanup_update,
    PublicationAuthorityPurpose, MAX_PUBLICATION_BATCH_ROWS};
use crate::publication_store::{next_payload_of, MetaShard, PublicationService, ScannedRow};
use crate::publish_records::{Coded, PublishOperationRecord, PublishPhase, StagedObjectRecord};
use vstd::prelude::*;

verus! {

/// Bounded cleanup of aborted publication-owned staging rows.
#[derive(Debug, PartialEq, Eq)]
pub struct CleanupPublishBatchRequest {
    pub context: PublicationContext,
    pub expected_operation: Coded<PublishOperationRecord>,
    /// Contiguous rows starting at `cleanup_staged_object_cursor`. Each next
    /// state is durable proof that provider cleanup completed.
    pub staged_object_updates: Vec<StagedObjectUpdate>,
}

/// Bounded removal of one quarantined operation's durable staging rows. The
/// operation stays quarantined meanwhile.
#[derive(Debug, PartialEq, Eq)]
pub struct ReconcileQuarantinedPublishBatchRequest {
    pub context: PublicationContext,
    pub expected_operation: Coded<PublishOperationRecord>,
    pub resolution: QuarantineReconcileResolution,
    /// Exact durable staged rows starting at `cleanup_staged_object_cursor`.
    /// Empty once the staged cursor is sealed and manifest pages remain.
    pub staged_object_rows: Vec<Coded<StagedObjectRecord>>,
}

/// Whether staged rows are still to be removed; manifest rows come after.
pub open spec fn sweeps_staged(operation: PublishOperationRecord) -> bool {
    operation.cleanup_staged_object_cursor < operation.staged_object_cursor
}

/// A staged row that is not the next one to remove.
pub open spec fn swept_row_fault(
    operation: PublishOperationRecord,
    row: StagedObjectRecord,
    i: int,
) -> Option<PublicationError> {
    let sequence = operation.cleanup_staged_object_cursor + i;
    if row.object_sequence != sequence {
        Some(
            PublicationError::StagedObjectSequenceMismatch {
                expected: sequence as u32,
                actual: row.object_sequence,
            },
        )
    } else if row.artifact_revision_id != operation.artifact_revision_id {
        Some(PublicationError::StagedObjectRevisionMismatch)
    } else {
        None
    }
}

/// Removes a staged row.
pub open spec fn sweep_row(
    context: PublicationContext,
    operation: PublishOperationRecord,
    row: Coded<StagedObjectRecord>,
    fault: Option<PublicationError>,
    i: int,
    draft: Draft,
) -> Draft {
    deleting(
        halted(
            draft,
            failing(
                first_fault(
                    fault,
                    first_fault(swept_row_fault(operation, row.record, i), payload_fault(row)),
                ),
            ),
        ),
        staged_key_of(context, operation, operation.cleanup_staged_object_cursor + i),
        payload_of(row),
    )
}

/// Removes staged rows whose objects are proved gone.
pub open spec fn cleanup_step(
    context: PublicationContext,
    operation: PublishOperationRecord,
    updates: Seq<StagedObjectUpdate>,
) -> spec_fn(int, Draft) -> Draft {
    |i: int, draft: Draft|
        sweep_row(
            context,
            operation,
            updates[i].expected,
            cleanup_update_fault(updates[i].expected, updates[i].next),
            i,
            draft,
        )
}

/// Removes staged rows of a quarantined operation.
pub open spec fn reconcile_step(
    context: PublicationContext,
    operation: PublishOperationRecord,
    rows: Seq<Coded<StagedObjectRecord>>,
) -> spec_fn(int, Draft) -> Draft {
    |i: int, draft: Draft|
        sweep_row(context, operation, rows[i], validity_fault(rows[i]), i, draft)
}

/// Removes manifest rows that a scan has found.
pub open spec fn scanned_step(rows: Seq<ScannedRow>) -> spec_fn(int, Draft) -> Draft {
    |i: int, draft: Draft|
        deleting(
            draft,
            RowKeyView::Raw { family: MetadataFamily::ArtifactManifest, key: rows[i].key@ },
            rows[i].value@,
        )
}

/// A batch of staged rows that is empty, too large, or goes too far.
pub open spec fn staged_sweep_fault(
    batch: &'static str,
    operation: PublishOperationRecord,
    count: nat,
) -> Option<PublicationError> {
    first_fault(
        batch_size_fault(batch, count),
        batch_cursor_fault(
            batch,
            operation.cleanup_staged_object_cursor,
            count,
            operation.staged_object_cursor,
        ),
    )
}

/// How many manifest rows are left to remove.
pub open spec fn manifest_rest(operation: PublishOperationRecord) -> int {
    operation.manifest_cursor - operation.cleanup_manifest_cursor
}

/// How many manifest rows one command removes at most.
pub open spec fn sweep_limit(operation: PublishOperationRecord) -> int {
    if manifest_rest(operation) < MAX_PUBLICATION_BATCH_ROWS {
        manifest_rest(operation)
    } else {
        MAX_PUBLICATION_BATCH_ROWS as int
    }
}

/// Manifest rows must not be removed: staged rows came along, none are left,
/// or they are a published revision's.
pub open spec fn manifest_sweep_fault(
    staged_batch: &'static str,
    manifest_batch: &'static str,
    operation: PublishOperationRecord,
    count: nat,
    published: bool,
) -> Option<PublicationError> {
    if count != 0 {
        Some(
            PublicationError::BatchExceedsPlannedCount {
                batch: staged_batch,
                cursor: operation.cleanup_staged_object_cursor,
                count: count as usize,
                planned: operation.staged_object_cursor,
            },
        )
    } else if manifest_rest(operation) == 0 {
        Some(PublicationError::EmptyBatch { batch: manifest_batch })
    } else if published {
        Some(
            PublicationError::ReconcileManifestRowsRemain {
                remaining: manifest_rest(operation) as u32,
            },
        )
    } else {
        None
    }
}

/// The scanned manifest rows.
pub open spec fn scanned_rows(store: MetaShard) -> Seq<ScannedRow> {
    store.scanned.unwrap().unwrap()@
}

/// Why the manifest rows are not known, or there are none where some are owed.
pub open spec fn scan_halt(
    store: MetaShard,
    context: PublicationContext,
    operation: PublishOperationRecord,
) -> Option<StopView> {
    match store.scanned {
        None => Some(
            StopView::ScanManifest {
                version: context.read_version,
                revision: operation.artifact_revision_id,
                limit: sweep_limit(operation) as usize,
            },
        ),
        Some(Err(error)) => Some(StopView::Fail(PublicationError::Meta(error))),
        Some(Ok(rows)) => if rows@.len() == 0 {
            Some(
                StopView::Fail(
                    PublicationError::ManifestCountMismatch {
                        expected: operation.manifest_cursor,
                        actual: operation.cleanup_manifest_cursor as usize,
                    },
                ),
            )
        } else {
            None
        },
    }
}

/// A scan that found more rows than the cursor can count.
pub open spec fn scan_count_fault(
    manifest_batch: &'static str,
    operation: PublishOperationRecord,
    count: nat,
) -> Option<PublicationError> {
    if count > u32::MAX {
        Some(
            PublicationError::BatchTooLarge {
                batch: manifest_batch,
                count: count as usize,
                max: MAX_PUBLICATION_BATCH_ROWS,
            },
        )
    } else if operation.cleanup_manifest_cursor + count > u32::MAX {
        Some(
            PublicationError::BatchExceedsPlannedCount {
                batch: manifest_batch,
                cursor: operation.cleanup_manifest_cursor,
                count: count as usize,
                planned: operation.manifest_cursor,
            },
        )
    } else {
        None
    }
}

/// The draft after a page of manifest rows is removed.
#[verifier::opaque]
pub open spec fn manifest_sweep_draft(
    store: MetaShard,
    context: PublicationContext,
    operation: PublishOperationRecord,
    fault: Option<PublicationError>,
    manifest_batch: &'static str,
    draft: Draft,
) -> Draft {
    let rows = scanned_rows(store);
    halted(
        stepped(
            scanned_step(rows),
            rows.len(),
            halted(draft, first_fault(failing(fault), scan_halt(store, context, operation))),
        ),
        failing(scan_count_fault(manifest_batch, operation, rows.len())),
    )
}

/// A stopped draft stays as it is.
pub broadcast proof fn lemma_sweep_after_halt(
    store: MetaShard,
    context: PublicationContext,
    operation: PublishOperationRecord,
    fault: Option<PublicationError>,
    manifest_batch: &'static str,
    draft: Draft,
)
    requires
        draft.halt is Some,
    ensures
        (#[trigger] manifest_sweep_draft(
            store,
            context,
            operation,
            fault,
            manifest_batch,
            draft,
        )) == draft,
{
    reveal(manifest_sweep_draft);
    let step = scanned_step(scanned_rows(store));
    assert(keeps_halts(step));
    lemma_stepped_halt(step, 0, scanned_rows(store).len(), draft);
}

/// The operation after a page of its rows is removed.
pub open spec fn swept_next(
    store: MetaShard,
    operation: PublishOperationRecord,
    count: nat,
) -> PublishOperationRecord {
    if sweeps_staged(operation) {
        PublishOperationRecord {
            cleanup_staged_object_cursor: (operation.cleanup_staged_object_cursor + count) as u32,
            ..operation
        }
    } else {
        PublishOperationRecord {
            cleanup_manifest_cursor: (operation.cleanup_manifest_cursor + scanned_rows(
                store,
            ).len()) as u32,
            ..operation
        }
    }
}

/// The draft after a page of an aborted operation's rows is removed.
pub open spec fn cleanup_ready(store: MetaShard, request: CleanupPublishBatchRequest) -> Draft {
    let context = request.context;
    let expected = request.expected_operation;
    let operation = expected.record;
    let updates = request.staged_object_updates@;
    let next = swept_next(store, operation, updates.len());
    let opened = halted(
        live(empty_plan()),
        batch_opening_halt(store, context, expected, PublishPhase::Cleaning),
    );
    let swept = if sweeps_staged(operation) {
        stepped(
            cleanup_step(context, operation, updates),
            updates.len(),
            halted(
                opened,
                failing(staged_sweep_fault("cleanup staged objects", operation, updates.len())),
            ),
        )
    } else {
        manifest_sweep_draft(
            store,
            context,
            operation,
            manifest_sweep_fault(
                "cleanup staged objects",
                "cleanup manifest",
                operation,
                updates.len(),
                false,
            ),
            "cleanup manifest",
            opened,
        )
    };
    halted(swept, batch_closing_halt(store, expected, next))
}

/// The draft that cleans up a page of an aborted operation's rows.
pub open spec fn cleanup_draft(store: MetaShard, request: CleanupPublishBatchRequest) -> Draft {
    let context = request.context;
    let expected = request.expected_operation;
    let next = swept_next(store, expected.record, request.staged_object_updates@.len());
    sealed_draft(
        store,
        context,
        next,
        PublicationAuthorityPurpose::Cleanup,
        advancing(
            store,
            context,
            expected,
            cleanup_ready(store, request),
        ),
    )
}

/// The draft after a page of a quarantined operation's rows is removed.
pub open spec fn reconcile_ready(store: MetaShard, request: ReconcileQuarantinedPublishBatchRequest) -> Draft {
    let context = request.context;
    let expected = request.expected_operation;
    let operation = expected.record;
    let rows = request.staged_object_rows@;
    let next = swept_next(store, operation, rows.len());
    let opened = halted(
        live(empty_plan()),
        batch_opening_halt(store, context, expected, PublishPhase::Quarantined),
    );
    let judged = verdict_draft(store, context, operation, request.resolution, opened);
    let swept = if sweeps_staged(operation) {
        stepped(
            reconcile_step(context, operation, rows),
            rows.len(),
            halted(
                judged,
                failing(staged_sweep_fault("reconcile staged objects", operation, rows.len())),
            ),
        )
    } else {
        manifest_sweep_draft(
            store,
            context,
            operation,
            manifest_sweep_fault(
                "reconcile staged objects",
                "reconcile manifest",
                operation,
                rows.len(),
                request.resolution == QuarantineReconcileResolution::RevisionPublished,
            ),
            "reconcile manifest",
            judged,
        )
    };
    halted(swept, batch_closing_halt(store, expected, next))
}

/// The draft that removes a page of a quarantined operation's rows under an
/// operator's verdict.
pub open spec fn reconcile_draft(
    store: MetaShard,
    request: ReconcileQuarantinedPublishBatchRequest,
) -> Draft {
    let context = request.context;
    let expected = request.expected_operation;
    bounded(
        advancing(
            store,
            context,
            expected,
            reconcile_ready(store, request),
        ),
    )
}

fn check_swept_row(operation: &PublishOperationRecord, row: &StagedObjectRecord, i: usize) -> (result:
    Result<(), PublicationError>)
    requires
        operation.cleanup_staged_object_cursor + i <= u32::MAX,
    ensures
        match result {
            Ok(_) => swept_row_fault(*operation, *row, i as int) is None,
            Err(error) => swept_row_fault(*operation, *row, i as int) == Some(error),
        },
{
    let sequence: u32 = operation.cleanup_staged_object_cursor + i as u32;
    if row.object_sequence != sequence {
        return Err(
            PublicationError::StagedObjectSequenceMismatch {
                expected: sequence,
                actual: row.object_sequence,
            },
        );
    }
    if row.artifact_revision_id != operation.artifact_revision_id {
        return Err(PublicationError::StagedObjectRevisionMismatch);
    }
    Ok(())
}

fn check_manifest_sweep(
    staged_batch: &'static str,
    manifest_batch: &'static str,
    operation: &PublishOperationRecord,
    count: usize,
    published: bool,
) -> (result: Result<u32, PublicationError>)
    requires
        operation.cleanup_manifest_cursor <= operation.manifest_cursor,
    ensures
        ({
            let fault = manifest_sweep_fault(
                staged_batch,
                manifest_batch,
                *operation,
                count as nat,
                published,
            );
            match result {
                Ok(rest) => fault is None && rest == manifest_rest(*operation),
                Err(error) => fault == Some(error),
            }
        }),
{
    if count != 0 {
        return Err(
            PublicationError::BatchExceedsPlannedCount {
                batch: staged_batch,
                cursor: operation.cleanup_staged_object_cursor,
                count,
                planned: operation.staged_object_cursor,
            },
        );
    }
    let remaining: u32 = operation.manifest_cursor - operation.cleanup_manifest_cursor;
    if remaining == 0 {
        return Err(PublicationError::EmptyBatch { batch: manifest_batch });
    }
    if published {
        return Err(PublicationError::ReconcileManifestRowsRemain { remaining });
    }
    Ok(remaining)
}

impl<'a> PublicationService<'a> {
    /// Removes one staged row.
    fn sweep_staged_row(
        &self,
        context: PublicationContext,
        operation: &PublishOperationRecord,
        row: &Coded<StagedObjectRecord>,
        i: usize,
        plan: &mut CommandPlan,
    ) -> (result: Result<(), Stop>)
        requires
            operation.cleanup_staged_object_cursor + i <= u32::MAX,
            old(plan).wf(),
        ensures
            final(plan).wf(),
            ({
                let draft = sweep_row(
                    context,
                    *operation,
                    *row,
                    None,
                    i as int,
                    live(old(plan)@),
                );
                match result {
                    Ok(_) => draft == live(final(plan)@),
                    Err(stop) => draft.halt == Some(stop@),
                }
            }),
    {
        lift(check_swept_row(operation, &row.record, i))?;
        let payload: &Vec<u8> = lift(get_payload(row))?;
        plan.delete(
            staged_row(context, operation, operation.cleanup_staged_object_cursor + i as u32),
            copy_bytes(payload.as_slice()),
        )
    }

    /// Removes a page of manifest rows; how many it removes.
    fn sweep_manifest(
        &self,
        context: PublicationContext,
        operation: &PublishOperationRecord,
        staged_batch: &'static str,
        manifest_batch: &'static str,
        count: usize,
        published: bool,
        plan: &mut CommandPlan,
    ) -> (result: Result<u32, Stop>)
        requires
            operation.cleanup_manifest_cursor <= operation.manifest_cursor,
            old(plan).wf(),
        ensures
            final(plan).wf(),
            ({
                let draft = manifest_sweep_draft(
                    *self.store,
                    context,
                    *operation,
                    manifest_sweep_fault(
                        staged_batch,
                        manifest_batch,
                        *operation,
                        count as nat,
                        published,
                    ),
                    manifest_batch,
                    live(old(plan)@),
                );
                match result {
                    Ok(removed) => {
                        &&& draft == live(final(plan)@)
                        &&& removed == scanned_rows(*self.store).len()
                        &&& operation.cleanup_manifest_cursor + removed <= u32::MAX
                    },
                    Err(stop) => draft.halt == Some(stop@),
                }
            }),
    {
        let ghost before = live(plan@);
        let ghost rows_spec = scanned_rows(*self.store);
        let ghost step = scanned_step(rows_spec);
        proof {
            reveal(manifest_sweep_draft);
            assert(keeps_halts(step));
            assert forall|d: Draft| d.halt is Some implies #[trigger] stepped(
                step,
                rows_spec.len(),
                d,
            ) == d by {
                lemma_stepped_halt(step, 0, rows_spec.len(), d);
            }
        }
        let remaining: u32 = lift(
            check_manifest_sweep(staged_batch, manifest_batch, operation, count, published),
        )?;
        let rows: &Vec<ScannedRow> = match &self.store.scanned {
            None => {
                let limit: usize = if (remaining as usize) < MAX_PUBLICATION_BATCH_ROWS {
                    remaining as usize
                } else {
                    MAX_PUBLICATION_BATCH_ROWS
                };
                return Err(
                    Stop::ScanManifest {
                        version: context.read_version,
                        revision: operation.artifact_revision_id,
                        limit,
                    },
                );
            },
            Some(Err(error)) => {
                return Err(Stop::Fail(PublicationError::Meta(*error)));
            },
            Some(Ok(rows)) => rows,
        };
        if rows.len() == 0 {
            return Err(
                Stop::Fail(
                    PublicationError::ManifestCountMismatch {
                        expected: operation.manifest_cursor,
                        actual: operation.cleanup_manifest_cursor as usize,
                    },
                ),
            );
        }
        let mut i: usize = 0;
        while i < rows.len()
            invariant
                i <= rows@.len(),
                rows@ == rows_spec,
                plan.wf(),
                step == scanned_step(rows_spec),
                keeps_halts(step),
                stepped(step, i as nat, before) == live(plan@),
                manifest_sweep_draft(
                    *self.store,
                    context,
                    *operation,
                    manifest_sweep_fault(
                        staged_batch,
                        manifest_batch,
                        *operation,
                        count as nat,
                        published,
                    ),
                    manifest_batch,
                    before,
                ) == halted(
                    stepped(step, rows_spec.len(), before),
                    failing(scan_count_fault(manifest_batch, *operation, rows_spec.len())),
                ),
                before == live(old(plan)@),
            decreases rows@.len() - i,
        {
            proof {
                assert(stepped(step, (i + 1) as nat, before) == step(i as int, live(plan@)));
                if stepped(step, (i + 1) as nat, before).halt is Some {
                    lemma_stepped_halt(step, (i + 1) as nat, rows@.len(), before);
                }
            }
            plan.delete(
                RowKey::Raw {
                    family: MetadataFamily::ArtifactManifest,
                    key: copy_bytes(rows[i].key.as_slice()),
                },
                copy_bytes(rows[i].value.as_slice()),
            )?;
            i = i + 1;
        }
        if rows.len() > u32::MAX as usize {
            return Err(
                Stop::Fail(
                    PublicationError::BatchTooLarge {
                        batch: manifest_batch,
                        count: rows.len(),
                        max: MAX_PUBLICATION_BATCH_ROWS,
                    },
                ),
            );
        }
        let removed: u32 = rows.len() as u32;
        if removed > u32::MAX - operation.cleanup_manifest_cursor {
            return Err(
                Stop::Fail(
                    PublicationError::BatchExceedsPlannedCount {
                        batch: manifest_batch,
                        cursor: operation.cleanup_manifest_cursor,
                        count: rows.len(),
                        planned: operation.manifest_cursor,
                    },
                ),
            );
        }
        Ok(removed)
    }

    /// Removes the staged rows whose objects are proved gone; the cursor after
    /// them.
    fn cleanup_staged(
        &self,
        context: PublicationContext,
        operation: &PublishOperationRecord,
        updates: &Vec<StagedObjectUpdate>,
        plan: &mut CommandPlan,
    ) -> (result: Result<u32, Stop>)
        requires
            old(plan).wf(),
        ensures
            final(plan).wf(),
            ({
                let draft = stepped(
                    cleanup_step(context, *operation, updates@),
                    updates@.len(),
                    halted(
                        live(old(plan)@),
                        failing(
                            staged_sweep_fault(
                                "cleanup staged objects",
                                *operation,
                                updates@.len(),
                            ),
                        ),
                    ),
                );
                match result {
                    Ok(cursor) => draft == live(final(plan)@) && cursor
                        == operation.cleanup_staged_object_cursor + updates@.len(),
                    Err(stop) => draft.halt == Some(stop@),
                }
            }),
    {
        let ghost before = live(plan@);
        let ghost step = cleanup_step(context, *operation, updates@);
        proof {
            assert(keeps_halts(step));
            assert forall|d: Draft| d.halt is Some implies #[trigger] stepped(
                step,
                updates@.len(),
                d,
            ) == d by {
                lemma_stepped_halt(step, 0, updates@.len(), d);
            }
        }
        lift(validate_batch_size("cleanup staged objects", updates.len()))?;
        let cursor: u32 = lift(
            checked_batch_cursor(
                "cleanup staged objects",
                operation.cleanup_staged_object_cursor,
                updates.len(),
                operation.staged_object_cursor,
            ),
        )?;
        let mut i: usize = 0;
        while i < updates.len()
            invariant
                i <= updates@.len(),
                operation.cleanup_staged_object_cursor + updates@.len() <= u32::MAX,
                plan.wf(),
                step == cleanup_step(context, *operation, updates@),
                keeps_halts(step),
                stepped(step, i as nat, before) == live(plan@),
                before == live(old(plan)@),
                staged_sweep_fault(
                    "cleanup staged objects",
                    *operation,
                    updates@.len(),
                ) is None,
            decreases updates@.len() - i,
        {
            proof {
                assert(stepped(step, (i + 1) as nat, before) == step(i as int, live(plan@)));
                if stepped(step, (i + 1) as nat, before).halt is Some {
                    lemma_stepped_halt(step, (i + 1) as nat, updates@.len(), before);
                }
            }
            lift(validate_cleanup_update(&updates[i].expected, &updates[i].next))?;
            self.sweep_staged_row(context, operation, &updates[i].expected, i, plan)?;
            i = i + 1;
        }
        Ok(cursor)
    }

    /// Removes staged rows of a quarantined operation; the cursor after them.
    fn reconcile_staged(
        &self,
        context: PublicationContext,
        operation: &PublishOperationRecord,
        rows: &Vec<Coded<StagedObjectRecord>>,
        plan: &mut CommandPlan,
    ) -> (result: Result<u32, Stop>)
        requires
            old(plan).wf(),
        ensures
            final(plan).wf(),
            ({
                let draft = stepped(
                    reconcile_step(context, *operation, rows@),
                    rows@.len(),
                    halted(
                        live(old(plan)@),
                        failing(
                            staged_sweep_fault("reconcile staged objects", *operation, rows@.len()),
                        ),
                    ),
                );
                match result {
                    Ok(cursor) => draft == live(final(plan)@) && cursor
                        == operation.cleanup_staged_object_cursor + rows@.len(),
                    Err(stop) => draft.halt == Some(stop@),
                }
            }),
    {
        let ghost before = live(plan@);
        let ghost step = reconcile_step(context, *operation, rows@);
        proof {
            assert(keeps_halts(step));
            assert forall|d: Draft| d.halt is Some implies #[trigger] stepped(step, rows@.len(), d)
                == d by {
                lemma_stepped_halt(step, 0, rows@.len(), d);
            }
        }
        lift(validate_batch_size("reconcile staged objects", rows.len()))?;
        let cursor: u32 = lift(
            checked_batch_cursor(
                "reconcile staged objects",
                operation.cleanup_staged_object_cursor,
                rows.len(),
                operation.staged_object_cursor,
            ),
        )?;
        let mut i: usize = 0;
        while i < rows.len()
            invariant
                i <= rows@.len(),
                operation.cleanup_staged_object_cursor + rows@.len() <= u32::MAX,
                plan.wf(),
                step == reconcile_step(context, *operation, rows@),
                keeps_halts(step),
                stepped(step, i as nat, before) == live(plan@),
                before == live(old(plan)@),
                staged_sweep_fault(
                    "reconcile staged objects",
                    *operation,
                    rows@.len(),
                ) is None,
            decreases rows@.len() - i,
        {
            proof {
                assert(stepped(step, (i + 1) as nat, before) == step(i as int, live(plan@)));
                if stepped(step, (i + 1) as nat, before).halt is Some {
                    lemma_stepped_halt(step, (i + 1) as nat, rows@.len(), before);
                }
            }
            lift(check_validity(&rows[i]))?;
            self.sweep_staged_row(context, operation, &rows[i], i, plan)?;
            i = i + 1;
        }
        Ok(cursor)
    }

    /// Cleans up a page of an aborted operation's rows: staged rows first, then
    /// manifest rows.
    pub fn cleanup_publish_batch(&self, request: &CleanupPublishBatchRequest) -> (result: Result<
        PlannedCommand,
        Stop,
    >)
        requires
            request.expected_operation.wf(),
        ensures
            plans(
                result,
                request.context,
                cleanup_draft(*self.store, *request),
                next_payload_of(*self.store),
                None,
            ),
    {
        broadcast use {lemma_authority_after_halt, lemma_sweep_after_halt};

        let context: PublicationContext = request.context;
        let expected: &Coded<PublishOperationRecord> = &request.expected_operation;
        let updates: &Vec<StagedObjectUpdate> = &request.staged_object_updates;
        proof {
            let step = cleanup_step(context, expected.record, updates@);
            assert(keeps_halts(step));
            assert forall|d: Draft| d.halt is Some implies #[trigger] stepped(
                step,
                updates@.len(),
                d,
            ) == d by {
                lemma_stepped_halt(step, 0, updates@.len(), d);
            }
        }
        self.open_batch(context, expected, PublishPhase::Cleaning)?;
        let mut next: PublishOperationRecord = expected.record.duplicate();
        let mut plan: CommandPlan = CommandPlan::new();
        if expected.record.cleanup_staged_object_cursor < expected.record.staged_object_cursor {
            next.cleanup_staged_object_cursor =
            self.cleanup_staged(context, &expected.record, updates, &mut plan)?;
        } else {
            let removed: u32 = self.sweep_manifest(
                context,
                &expected.record,
                "cleanup staged objects",
                "cleanup manifest",
                updates.len(),
                false,
                &mut plan,
            )?;
            next.cleanup_manifest_cursor = expected.record.cleanup_manifest_cursor + removed;
        }
        assert(next == swept_next(*self.store, expected.record, updates@.len()));
        let (payload, next_payload) = self.close_batch(expected, &next)?;
        plan.replace(
            publish_row(context, &expected.record),
            payload,
            copy_bytes(next_payload.as_slice()),
        )?;
        self.seal_plan(
            context,
            plan,
            &next,
            next_payload,
            PublicationAuthorityPurpose::Cleanup,
            None,
        )
    }

    /// Removes a page of a quarantined operation's rows under an operator's
    /// verdict. Every page pins the verdict anew, and the phase stays.
    pub fn reconcile_quarantined_publish_batch(
        &self,
        request: &ReconcileQuarantinedPublishBatchRequest,
    ) -> (result: Result<PlannedCommand, Stop>)
        requires
            request.expected_operation.wf(),
        ensures
            plans(
                result,
                request.context,
                reconcile_draft(*self.store, *request),
                next_payload_of(*self.store),
                None,
            ),
    {
        broadcast use {lemma_verdict_after_halt, lemma_sweep_after_halt};

        let context: PublicationContext = request.context;
        let expected: &Coded<PublishOperationRecord> = &request.expected_operation;
        let rows: &Vec<Coded<StagedObjectRecord>> = &request.staged_object_rows;
        proof {
            let step = reconcile_step(context, expected.record, rows@);
            assert(keeps_halts(step));
            assert forall|d: Draft| d.halt is Some implies #[trigger] stepped(step, rows@.len(), d)
                == d by {
                lemma_stepped_halt(step, 0, rows@.len(), d);
            }
        }
        self.open_batch(context, expected, PublishPhase::Quarantined)?;
        let mut next: PublishOperationRecord = expected.record.duplicate();
        let mut plan: CommandPlan = CommandPlan::new();
        self.predicate_reconcile_revision_state(
            context,
            &expected.record,
            request.resolution,
            &mut plan,
        )?;
        if expected.record.cleanup_staged_object_cursor < expected.record.staged_object_cursor {
            next.cleanup_staged_object_cursor =
            self.reconcile_staged(context, &expected.record, rows, &mut plan)?;
        } else {
            let removed: u32 = self.sweep_manifest(
                context,
                &expected.record,
                "reconcile staged objects",
                "reconcile manifest",
                rows.len(),
                request.resolution == QuarantineReconcileResolution::RevisionPublished,
                &mut plan,
            )?;
            next.cleanup_manifest_cursor = expected.record.cleanup_manifest_cursor + removed;
        }
        assert(next == swept_next(*self.store, expected.record, rows@.len()));
        let (payload, next_payload) = self.close_batch(expected, &next)?;
        plan.replace(
            publish_row(context, &expected.record),
            payload,
            copy_bytes(next_payload.as_slice()),
        )?;
        self.seal_reconcile_plan(context, plan, next_payload)
    }
}

} // verus!
