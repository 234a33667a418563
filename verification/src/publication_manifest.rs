//! Batches of manifest rows: who owns the objects behind them, and how they
//! follow each other.

use crate::be::{copy_bytes, same_bytes};
use crate::ids::ArtifactRevisionId;
use crate::publication_authority::{lemma_authority_after_halt, revision_key_of, sealed_draft};
use crate::publication_batches::{batch_closing_halt, batch_opening_halt, coordinates_of,
    staged_key_of, staged_row};
use crate::publication_digests::{advance_manifest_rolling_digest, dependency_seal_fault,
    digest_array, fault_upto, get_payload, lemma_digest_array, lemma_fault_prefix,
    manifest_digest_after, manifest_digest_fault, manifest_digest_over, manifest_order_fault,
    manifest_rows_wf, payload_fault, payload_of, validate_dependency_seal, validate_manifest_order,
    ManifestRowInput};
use crate::publication_error::PublicationError;
use crate::publication_lifecycle::{advancing, plans, publish_row};
use crate::publication_plan::{asserting, empty_plan, failing, halted, keeps_halts,
    lemma_stepped_halt, lift, live, put_absent, stepped, CommandPlan, Draft, PlannedCommand,
    PublicationContext, RowKey, RowKeyView, Stop, StopView};
use crate::publication_records::first_fault;
use crate::publication_rules::{batch_cursor_fault, batch_size_fault, checked_batch_cursor,
    contains_revision, validate_batch_size, PublicationAuthorityPurpose};
use crate::publication_store::{manifest_row_halt, manifest_row_of, next_payload_of,
    staged_object_halt, staged_object_of, MetaShard, PublicationService};
use crate::publish_records::{ArtifactManifestRow, Coded, ManifestPosition, ObjectCoordinates,
    PublishOperationRecord, PublishPhase, StagedCleanupState, StagedObjectRecord,
    StagedProviderState};
use crate::text::same_text;
use vstd::prelude::*;

verus! {

/// Bounded append to the invisible immutable manifest.
#[derive(Debug, PartialEq, Eq)]
pub struct StageManifestBatchRequest {
    pub context: PublicationContext,
    pub expected_operation: Coded<PublishOperationRecord>,
    pub manifest_rows: Vec<ManifestRowInput>,
    /// Strictly increasing, distinct physical owner revision ids.
    pub dependency_owner_revision_ids: Vec<ArtifactRevisionId>,
}

/// A row of an artifact's manifest.
pub open spec fn manifest_key_of(
    context: PublicationContext,
    operation: PublishOperationRecord,
    object_index: u64,
) -> RowKeyView {
    RowKeyView::ArtifactManifest {
        root_id: context.root_id,
        revision: operation.artifact_revision_id,
        object_index,
    }
}

pub fn manifest_row_key(
    context: PublicationContext,
    operation: &PublishOperationRecord,
    object_index: u64,
) -> (key: RowKey)
    ensures
        key@ == manifest_key_of(context, *operation, object_index),
{
    RowKey::ArtifactManifest {
        root_id: context.root_id,
        revision: operation.artifact_revision_id,
        object_index,
    }
}

/// Whether every planned object is staged and uploaded as it was sealed.
pub open spec fn uploads_closed(operation: PublishOperationRecord) -> bool {
    &&& operation.staged_object_cursor == operation.staged_object_count
    &&& operation.staged_object_rolling_digest@ == operation.staged_object_seal@
    &&& operation.uploaded_object_cursor == operation.staged_object_count
    &&& operation.uploaded_object_rolling_digest@ == operation.staged_object_seal@
}

fn has_closed_uploads(operation: &PublishOperationRecord) -> (closed: bool)
    ensures
        closed == uploads_closed(*operation),
{
    operation.staged_object_cursor == operation.staged_object_count && same_bytes(
        operation.staged_object_rolling_digest.as_slice(),
        operation.staged_object_seal.as_slice(),
    ) && operation.uploaded_object_cursor == operation.staged_object_count && same_bytes(
        operation.uploaded_object_rolling_digest.as_slice(),
        operation.staged_object_seal.as_slice(),
    )
}

/// A row that is not at the next position, or whose object key is not the
/// canonical one of its owner.
pub open spec fn manifest_position_fault(
    context: PublicationContext,
    operation: PublishOperationRecord,
    rows: Seq<ManifestRowInput>,
) -> spec_fn(int) -> Option<PublicationError> {
    |i: int|
        if rows[i].object_index != operation.manifest_cursor + i {
            Some(PublicationError::ManifestPositionMismatch)
        } else if !rows[i].row.record.object_key.spec_is_canonical(
            coordinates_of(
                context,
                rows[i].row.record.physical_owner_revision_id,
                rows[i].row.record.physical_object_index as int,
            ),
        ) {
            Some(
                PublicationError::ManifestOwnershipMismatch {
                    object_index: rows[i].object_index,
                    reason: "object key does not match the canonical physical owner coordinates",
                },
            )
        } else {
            None
        }
}

/// The durable row that a batch follows, if there is one.
pub open spec fn preceding_row(
    store: MetaShard,
    context: PublicationContext,
    operation: PublishOperationRecord,
) -> Option<ArtifactManifestRow> {
    match operation.manifest_last_position {
        None => None,
        Some(last) => manifest_row_of(
            store,
            context.read_version,
            manifest_key_of(context, operation, last.object_index),
        ),
    }
}

/// Why the last durable row cannot be looked at. There is one where the
/// operation says so.
pub open spec fn preceding_row_halt(
    store: MetaShard,
    context: PublicationContext,
    operation: PublishOperationRecord,
) -> Option<StopView> {
    match operation.manifest_last_position {
        None => None,
        Some(last) => first_fault(
            manifest_row_halt(
                store,
                context.read_version,
                manifest_key_of(context, operation, last.object_index),
            ),
            if preceding_row(store, context, operation) is None {
                Some(StopView::Fail(PublicationError::ManifestPositionMismatch))
            } else {
                None
            },
        ),
    }
}

/// Where a row ends; nothing ends at zero.
pub open spec fn row_end(row: Option<ArtifactManifestRow>) -> int {
    match row {
        None => 0,
        Some(row) => row.logical_offset + row.length,
    }
}

/// The logical end of the durable manifest.
pub open spec fn manifest_end(
    store: MetaShard,
    context: PublicationContext,
    operation: PublishOperationRecord,
) -> int {
    row_end(preceding_row(store, context, operation))
}

/// The row before the one at `i`.
pub open spec fn row_before(
    preceding: Option<ArtifactManifestRow>,
    rows: Seq<ManifestRowInput>,
    i: int,
) -> Option<ArtifactManifestRow> {
    if i == 0 {
        preceding
    } else {
        Some(rows[i - 1].row.record)
    }
}

/// Whether a row is behind an object of the operation's own revision.
pub open spec fn child_owned(
    row: Option<ArtifactManifestRow>,
    operation: PublishOperationRecord,
) -> bool {
    row is Some && row.unwrap().physical_owner_revision_id == operation.artifact_revision_id
}

/// How a staged object differs from the row that shows it.
pub open spec fn staged_difference(
    context: PublicationContext,
    operation: PublishOperationRecord,
    row: ArtifactManifestRow,
    staged: StagedObjectRecord,
) -> Option<&'static str> {
    if staged.artifact_revision_id != operation.artifact_revision_id || staged.object_sequence
        != row.physical_object_index {
        Some("staged object identity differs from the child-owned row")
    } else if !staged.object_key.spec_is_canonical(
        coordinates_of(
            context,
            row.physical_owner_revision_id,
            row.physical_object_index as int,
        ),
    ) {
        Some("staged object key does not match the canonical child-owned coordinates")
    } else if staged.object_key.text@ != row.object_key.text@ {
        Some("staged object key differs from the child-owned row")
    } else if staged.expected_length != row.length {
        Some("staged object length differs from the child-owned row")
    } else if staged.expected_digest_uri@ != row.digest_uri@ {
        Some("staged object digest differs from the child-owned row")
    } else if staged.provider_state != StagedProviderState::Uploaded || staged.cleanup_state
        != StagedCleanupState::Owned {
        Some("staged object is not durably uploaded and owned")
    } else {
        None
    }
}

/// A mismatch of ownership as a stop, if there is one.
pub open spec fn ownership_halt(object_index: u64, reason: Option<&'static str>) -> Option<
    StopView,
> {
    match reason {
        None => None,
        Some(reason) => Some(
            StopView::Fail(PublicationError::ManifestOwnershipMismatch { object_index, reason }),
        ),
    }
}

/// How the physical index of a child-owned row is wrong: child-owned rows
/// show the staged objects from zero on, each once.
pub open spec fn child_index_difference(
    operation: PublishOperationRecord,
    previous: Option<ArtifactManifestRow>,
    row: ArtifactManifestRow,
) -> Option<&'static str> {
    if child_owned(previous, operation) && previous.unwrap().physical_object_index == u64::MAX {
        Some("physical object index overflows u64")
    } else if row.physical_object_index != (if child_owned(previous, operation) {
        previous.unwrap().physical_object_index + 1
    } else {
        0
    }) {
        Some("child-owned physical object indexes must be contiguous from zero")
    } else if row.physical_object_index > u32::MAX {
        Some("physical object index exceeds the staged-object sequence range")
    } else if row.physical_object_index >= operation.staged_object_count {
        Some("child-owned row has no staged object")
    } else {
        None
    }
}

/// Why a child-owned row does not show a staged object.
pub open spec fn child_row_halt(
    store: MetaShard,
    context: PublicationContext,
    operation: PublishOperationRecord,
    previous: Option<ArtifactManifestRow>,
    input: ManifestRowInput,
) -> Option<StopView> {
    let row = input.row.record;
    let key = staged_key_of(context, operation, row.physical_object_index as int);
    first_fault(
        ownership_halt(input.object_index, child_index_difference(operation, previous, row)),
        first_fault(
            staged_object_halt(store, context.read_version, key),
            ownership_halt(
                input.object_index,
                match staged_object_of(store, context.read_version, key) {
                    None => Some("child-owned row has no durable staged object"),
                    Some(staged) => staged_difference(context, operation, row, staged),
                },
            ),
        ),
    )
}

/// Why a row does not belong into the manifest: its owner is no dependency,
/// it packs objects, it borrows after the operation's own rows, or it does not
/// show its staged object.
#[verifier::opaque]
pub open spec fn owned_row_halt(
    store: MetaShard,
    context: PublicationContext,
    operation: PublishOperationRecord,
    owners: Seq<ArtifactRevisionId>,
    previous: Option<ArtifactManifestRow>,
    input: ManifestRowInput,
) -> Option<StopView> {
    let row = input.row.record;
    let owned = child_owned(Some(row), operation);
    if !owned && !owners.contains(row.physical_owner_revision_id) {
        Some(
            StopView::Fail(
                PublicationError::ManifestPhysicalOwnerMissing {
                    owner: row.physical_owner_revision_id,
                },
            ),
        )
    } else if row.offset != 0 {
        ownership_halt(input.object_index, Some("packed object ranges are unsupported"))
    } else if !owned && child_owned(previous, operation) {
        ownership_halt(input.object_index, Some("borrowed rows cannot follow child-owned rows"))
    } else {
        first_fault(
            if owned {
                child_row_halt(store, context, operation, previous, input)
            } else {
                None
            },
            failing(manifest_digest_fault(input)),
        )
    }
}

/// The rows of a batch, each against the one before it.
pub open spec fn owned_rows_halt(
    store: MetaShard,
    context: PublicationContext,
    operation: PublishOperationRecord,
    owners: Seq<ArtifactRevisionId>,
    preceding: Option<ArtifactManifestRow>,
    rows: Seq<ManifestRowInput>,
) -> spec_fn(int) -> Option<StopView> {
    |i: int|
        owned_row_halt(
            store,
            context,
            operation,
            owners,
            row_before(preceding, rows, i),
            rows[i],
        )
}

/// How many objects of its own the finished manifest shows.
pub open spec fn shown_objects(last: ArtifactManifestRow, operation: PublishOperationRecord) -> int {
    if child_owned(Some(last), operation) {
        last.physical_object_index + 1
    } else {
        0
    }
}

/// A finished manifest that does not show every staged object.
pub open spec fn completeness_difference(
    operation: PublishOperationRecord,
    rows: Seq<ManifestRowInput>,
) -> Option<&'static str> {
    let last = rows.last().row.record;
    if operation.manifest_cursor + rows.len() != operation.manifest_row_count {
        None
    } else if child_owned(Some(last), operation) && last.physical_object_index == u64::MAX {
        Some("physical object count overflows u64")
    } else if shown_objects(last, operation) != operation.staged_object_count {
        Some("child-owned row count differs from staged-object count")
    } else {
        None
    }
}

/// The operation after its manifest has grown.
pub open spec fn manifest_next(
    operation: PublishOperationRecord,
    rows: Seq<ManifestRowInput>,
) -> PublishOperationRecord {
    PublishOperationRecord {
        manifest_cursor: (operation.manifest_cursor + rows.len()) as u32,
        manifest_rolling_digest: digest_array(
            manifest_digest_over(operation.manifest_rolling_digest@, rows, rows.len()),
        ),
        manifest_last_position: Some(ManifestPosition { object_index: rows.last().object_index }),
        ..operation
    }
}

/// Adds manifest rows.
pub open spec fn manifest_step(
    context: PublicationContext,
    operation: PublishOperationRecord,
    rows: Seq<ManifestRowInput>,
) -> spec_fn(int, Draft) -> Draft {
    |i: int, draft: Draft|
        put_absent(
            halted(draft, failing(payload_fault(rows[i].row))),
            manifest_key_of(context, operation, rows[i].object_index),
            payload_of(rows[i].row),
        )
}

/// What is wrong with a batch of manifest rows by itself.
pub open spec fn manifest_batch_fault(
    store: MetaShard,
    request: StageManifestBatchRequest,
) -> Option<PublicationError> {
    let operation = request.expected_operation.record;
    let rows = request.manifest_rows@;
    first_fault(
        first_fault(
            batch_size_fault("stage manifest", rows.len()),
            first_fault(
                if !uploads_closed(operation) {
                    Some(
                        PublicationError::InvalidOperationSeal { seal: "uploaded-object closure" },
                    )
                } else {
                    None
                },
                dependency_seal_fault(operation, request.dependency_owner_revision_ids@),
            ),
        ),
        first_fault(
            fault_upto(manifest_position_fault(request.context, operation, rows), rows.len()),
            first_fault(
                manifest_order_fault(rows, store.policy.max_manifest_rows),
                first_fault(
                    batch_cursor_fault(
                        "stage manifest",
                        operation.manifest_cursor,
                        rows.len(),
                        operation.manifest_row_count,
                    ),
                    if operation.manifest_last_position is Some && rows[0].object_index
                        <= operation.manifest_last_position.unwrap().object_index {
                        Some(PublicationError::ManifestPositionMismatch)
                    } else {
                        None
                    },
                ),
            ),
        ),
    )
}

/// Why a batch of manifest rows cannot follow the durable ones.
pub open spec fn manifest_rows_halt(
    store: MetaShard,
    request: StageManifestBatchRequest,
) -> Option<StopView> {
    let context = request.context;
    let operation = request.expected_operation.record;
    let rows = request.manifest_rows@;
    let preceding = preceding_row(store, context, operation);
    first_fault(
        preceding_row_halt(store, context, operation),
        first_fault(
            failing(
                if rows[0].row.record.logical_offset != row_end(preceding) {
                    Some(
                        PublicationError::ManifestLogicalOffsetMismatch {
                            expected: row_end(preceding) as u64,
                            actual: rows[0].row.record.logical_offset,
                        },
                    )
                } else {
                    None
                },
            ),
            first_fault(
                fault_upto(
                    owned_rows_halt(
                        store,
                        context,
                        operation,
                        request.dependency_owner_revision_ids@,
                        preceding,
                        rows,
                    ),
                    rows.len(),
                ),
                ownership_halt(rows.last().object_index, completeness_difference(operation, rows)),
            ),
        ),
    )
}

/// The draft before the manifest grows.
pub open spec fn stage_manifest_ready(store: MetaShard, request: StageManifestBatchRequest) -> Draft {
    let context = request.context;
    let expected = request.expected_operation;
    let rows = request.manifest_rows@;
    let next = manifest_next(expected.record, rows);
    halted(
        live(empty_plan()),
        first_fault(
            batch_opening_halt(store, context, expected, PublishPhase::Uploading),
            first_fault(
                failing(manifest_batch_fault(store, request)),
                first_fault(
                    manifest_rows_halt(store, request),
                    batch_closing_halt(store, expected, next),
                ),
            ),
        ),
    )
}

/// The draft that grows the manifest.
pub open spec fn stage_manifest_draft(
    store: MetaShard,
    request: StageManifestBatchRequest,
) -> Draft {
    let context = request.context;
    let expected = request.expected_operation;
    let rows = request.manifest_rows@;
    let next = manifest_next(expected.record, rows);
    sealed_draft(
        store,
        context,
        next,
        PublicationAuthorityPurpose::Forward,
        stepped(
            manifest_step(context, expected.record, rows),
            rows.len(),
            asserting(
                advancing(store, context, expected, stage_manifest_ready(store, request)),
                revision_key_of(context, expected.record.artifact_revision_id),
                None,
            ),
        ),
    )
}

fn staged_differs(
    context: PublicationContext,
    operation: &PublishOperationRecord,
    row: &ArtifactManifestRow,
    staged: &StagedObjectRecord,
) -> (difference: Option<&'static str>)
    ensures
        difference == staged_difference(context, *operation, *row, *staged),
{
    let coordinates: ObjectCoordinates = ObjectCoordinates {
        logical_shard_id: context.logical_shard_id,
        root_id: context.root_id,
        artifact_revision_id: row.physical_owner_revision_id,
        object_index: row.physical_object_index,
    };
    if staged.artifact_revision_id != operation.artifact_revision_id
        || staged.object_sequence as u64 != row.physical_object_index {
        Some("staged object identity differs from the child-owned row")
    } else if !staged.object_key.is_canonical(coordinates) {
        Some("staged object key does not match the canonical child-owned coordinates")
    } else if !same_text(staged.object_key.text.as_str(), row.object_key.text.as_str()) {
        Some("staged object key differs from the child-owned row")
    } else if staged.expected_length != row.length {
        Some("staged object length differs from the child-owned row")
    } else if !same_text(staged.expected_digest_uri.as_str(), row.digest_uri.as_str()) {
        Some("staged object digest differs from the child-owned row")
    } else if staged.provider_state != StagedProviderState::Uploaded || staged.cleanup_state
        != StagedCleanupState::Owned {
        Some("staged object is not durably uploaded and owned")
    } else {
        None
    }
}

fn is_child_owned(row: Option<&ArtifactManifestRow>, operation: &PublishOperationRecord) -> (owned:
    bool)
    ensures
        owned == child_owned(
            match row {
                None => None,
                Some(row) => Some(*row),
            },
            *operation,
        ),
{
    match row {
        None => false,
        Some(row) => row.physical_owner_revision_id == operation.artifact_revision_id,
    }
}

/// A row behind a reference, if there is one.
pub open spec fn row_value(row: Option<&ArtifactManifestRow>) -> Option<ArtifactManifestRow> {
    match row {
        None => None,
        Some(row) => Some(*row),
    }
}

fn child_index_differs(
    operation: &PublishOperationRecord,
    previous: Option<&ArtifactManifestRow>,
    row: &ArtifactManifestRow,
) -> (difference: Option<&'static str>)
    ensures
        difference == child_index_difference(*operation, row_value(previous), *row),
{
    let mut expected: u64 = 0;
    if let Some(previous) = previous {
        if previous.physical_owner_revision_id == operation.artifact_revision_id {
            if previous.physical_object_index == u64::MAX {
                return Some("physical object index overflows u64");
            }
            expected = previous.physical_object_index + 1;
        }
    }
    if row.physical_object_index != expected {
        Some("child-owned physical object indexes must be contiguous from zero")
    } else if row.physical_object_index > u32::MAX as u64 {
        Some("physical object index exceeds the staged-object sequence range")
    } else if row.physical_object_index >= operation.staged_object_count as u64 {
        Some("child-owned row has no staged object")
    } else {
        None
    }
}

fn check_positions(
    context: PublicationContext,
    operation: &PublishOperationRecord,
    rows: &Vec<ManifestRowInput>,
) -> (result: Result<(), PublicationError>)
    requires
        rows@.len() <= u32::MAX,
    ensures
        ({
            let fault = fault_upto(
                manifest_position_fault(context, *operation, rows@),
                rows@.len(),
            );
            match result {
                Ok(_) => fault is None,
                Err(error) => fault == Some(error),
            }
        }),
{
    let ghost fault = manifest_position_fault(context, *operation, rows@);
    let mut i: usize = 0;
    while i < rows.len()
        invariant
            i <= rows@.len(),
            rows@.len() <= u32::MAX,
            fault == manifest_position_fault(context, *operation, rows@),
            fault_upto(fault, i as nat) is None,
        decreases rows@.len() - i,
    {
        let input: &ManifestRowInput = &rows[i];
        proof {
            assert(fault_upto(fault, (i + 1) as nat) == fault(i as int));
            if fault(i as int) is Some {
                lemma_fault_prefix(fault, (i + 1) as nat, rows@.len());
            }
        }
        if input.object_index != operation.manifest_cursor as u64 + i as u64 {
            return Err(PublicationError::ManifestPositionMismatch);
        }
        let coordinates: ObjectCoordinates = ObjectCoordinates {
            logical_shard_id: context.logical_shard_id,
            root_id: context.root_id,
            artifact_revision_id: input.row.record.physical_owner_revision_id,
            object_index: input.row.record.physical_object_index,
        };
        if !input.row.record.object_key.is_canonical(coordinates) {
            return Err(
                PublicationError::ManifestOwnershipMismatch {
                    object_index: input.object_index,
                    reason: "object key does not match the canonical physical owner coordinates",
                },
            );
        }
        i = i + 1;
    }
    Ok(())
}

fn completeness_differs(
    operation: &PublishOperationRecord,
    rows: &Vec<ManifestRowInput>,
    cursor: u32,
) -> (difference: Option<&'static str>)
    requires
        rows@.len() > 0,
        cursor == operation.manifest_cursor + rows@.len(),
    ensures
        difference == completeness_difference(*operation, rows@),
{
    if cursor != operation.manifest_row_count {
        return None;
    }
    let last: &ArtifactManifestRow = &rows[rows.len() - 1].row.record;
    let mut shown: u64 = 0;
    if last.physical_owner_revision_id == operation.artifact_revision_id {
        if last.physical_object_index == u64::MAX {
            return Some("physical object count overflows u64");
        }
        shown = last.physical_object_index + 1;
    }
    if shown != operation.staged_object_count as u64 {
        Some("child-owned row count differs from staged-object count")
    } else {
        None
    }
}

impl<'a> PublicationService<'a> {
    /// The last durable row of an operation's manifest.
    pub fn load_preceding_row(
        &self,
        context: PublicationContext,
        operation: &PublishOperationRecord,
    ) -> (result: Result<Option<&'a ArtifactManifestRow>, Stop>)
        requires
            self.wf(),
        ensures
            match result {
                Ok(row) => {
                    &&& preceding_row_halt(*self.store, context, *operation) is None
                    &&& row_value(row) == preceding_row(*self.store, context, *operation)
                    &&& row matches Some(row) ==> row.wf()
                },
                Err(stop) => preceding_row_halt(*self.store, context, *operation) == Some(stop@),
            },
    {
        match operation.manifest_last_position {
            None => Ok(None),
            Some(last) => {
                let key: RowKey = manifest_row_key(context, operation, last.object_index);
                match self.read_manifest_row(context.read_version, &key)? {
                    None => Err(Stop::Fail(PublicationError::ManifestPositionMismatch)),
                    Some(loaded) => Ok(Some(loaded.record)),
                }
            },
        }
    }

    /// Checks that a child-owned row shows its staged object.
    fn check_child_row(
        &self,
        context: PublicationContext,
        operation: &PublishOperationRecord,
        previous: Option<&ArtifactManifestRow>,
        input: &ManifestRowInput,
    ) -> (result: Result<(), Stop>)
        ensures
            ({
                let halt = child_row_halt(
                    *self.store,
                    context,
                    *operation,
                    row_value(previous),
                    *input,
                );
                match result {
                    Ok(_) => halt is None,
                    Err(stop) => halt == Some(stop@),
                }
            }),
    {
        let row: &ArtifactManifestRow = &input.row.record;
        if let Some(reason) = child_index_differs(operation, previous, row) {
            return Err(
                Stop::Fail(
                    PublicationError::ManifestOwnershipMismatch {
                        object_index: input.object_index,
                        reason,
                    },
                ),
            );
        }
        let key: RowKey = staged_row(context, operation, row.physical_object_index as u32);
        let difference: Option<&'static str> = match self.read_staged_object(
            context.read_version,
            &key,
        )? {
            None => Some("child-owned row has no durable staged object"),
            Some(loaded) => staged_differs(context, operation, row, loaded.record),
        };
        match difference {
            None => Ok(()),
            Some(reason) => Err(
                Stop::Fail(
                    PublicationError::ManifestOwnershipMismatch {
                        object_index: input.object_index,
                        reason,
                    },
                ),
            ),
        }
    }

    /// Checks that a row belongs into the manifest; the rolling digest after
    /// it.
    fn check_owned_row(
        &self,
        context: PublicationContext,
        operation: &PublishOperationRecord,
        owners: &Vec<ArtifactRevisionId>,
        previous: Option<&ArtifactManifestRow>,
        input: &ManifestRowInput,
        digest: [u8; 32],
    ) -> (result: Result<[u8; 32], Stop>)
        ensures
            ({
                let halt = owned_row_halt(
                    *self.store,
                    context,
                    *operation,
                    owners@,
                    row_value(previous),
                    *input,
                );
                match result {
                    Ok(after) => halt is None && after@ == manifest_digest_after(
                        digest@,
                        input.object_index,
                        payload_of(input.row),
                    ),
                    Err(stop) => halt == Some(stop@),
                }
            }),
    {
        proof {
            reveal(owned_row_halt);
        }
        let row: &ArtifactManifestRow = &input.row.record;
        let owned: bool = row.physical_owner_revision_id == operation.artifact_revision_id;
        if !owned && !contains_revision(owners, row.physical_owner_revision_id) {
            return Err(
                Stop::Fail(
                    PublicationError::ManifestPhysicalOwnerMissing {
                        owner: row.physical_owner_revision_id,
                    },
                ),
            );
        }
        if row.offset != 0 {
            return Err(
                Stop::Fail(
                    PublicationError::ManifestOwnershipMismatch {
                        object_index: input.object_index,
                        reason: "packed object ranges are unsupported",
                    },
                ),
            );
        }
        if !owned && is_child_owned(previous, operation) {
            return Err(
                Stop::Fail(
                    PublicationError::ManifestOwnershipMismatch {
                        object_index: input.object_index,
                        reason: "borrowed rows cannot follow child-owned rows",
                    },
                ),
            );
        }
        if owned {
            self.check_child_row(context, operation, previous, input)?;
        }
        lift(advance_manifest_rolling_digest(digest, input))
    }

    /// Checks every row of a batch against the one before it; the rolling
    /// digest after them.
    fn check_owned_rows(
        &self,
        context: PublicationContext,
        operation: &PublishOperationRecord,
        owners: &Vec<ArtifactRevisionId>,
        preceding: Option<&ArtifactManifestRow>,
        rows: &Vec<ManifestRowInput>,
    ) -> (result: Result<[u8; 32], Stop>)
        ensures
            ({
                let halt = fault_upto(
                    owned_rows_halt(
                        *self.store,
                        context,
                        *operation,
                        owners@,
                        row_value(preceding),
                        rows@,
                    ),
                    rows@.len(),
                );
                match result {
                    Ok(digest) => halt is None && digest@ == manifest_digest_over(
                        operation.manifest_rolling_digest@,
                        rows@,
                        rows@.len(),
                    ),
                    Err(stop) => halt == Some(stop@),
                }
            }),
    {
        let ghost halt = owned_rows_halt(
            *self.store,
            context,
            *operation,
            owners@,
            row_value(preceding),
            rows@,
        );
        let mut digest: [u8; 32] = operation.manifest_rolling_digest;
        let mut i: usize = 0;
        while i < rows.len()
            invariant
                i <= rows@.len(),
                halt == owned_rows_halt(
                    *self.store,
                    context,
                    *operation,
                    owners@,
                    row_value(preceding),
                    rows@,
                ),
                fault_upto(halt, i as nat) is None,
                digest@ == manifest_digest_over(
                    operation.manifest_rolling_digest@,
                    rows@,
                    i as nat,
                ),
            decreases rows@.len() - i,
        {
            let previous: Option<&ArtifactManifestRow> = if i == 0 {
                preceding
            } else {
                Some(&rows[i - 1].row.record)
            };
            proof {
                assert(fault_upto(halt, (i + 1) as nat) == halt(i as int));
                if halt(i as int) is Some {
                    lemma_fault_prefix(halt, (i + 1) as nat, rows@.len());
                }
            }
            digest =
            self.check_owned_row(context, operation, owners, previous, &rows[i], digest)?;
            i = i + 1;
        }
        Ok(digest)
    }

    /// Checks a batch of manifest rows by itself; the cursor after it.
    fn check_manifest_batch(&self, request: &StageManifestBatchRequest) -> (result: Result<
        u32,
        PublicationError,
    >)
        requires
            manifest_rows_wf(request.manifest_rows@),
        ensures
            match result {
                Ok(cursor) => {
                    &&& manifest_batch_fault(*self.store, *request) is None
                    &&& cursor == request.expected_operation.record.manifest_cursor
                        + request.manifest_rows@.len()
                    &&& request.manifest_rows@.len() > 0
                },
                Err(error) => manifest_batch_fault(*self.store, *request) == Some(error),
            },
    {
        let operation: &PublishOperationRecord = &request.expected_operation.record;
        let rows: &Vec<ManifestRowInput> = &request.manifest_rows;
        validate_batch_size("stage manifest", rows.len())?;
        if !has_closed_uploads(operation) {
            return Err(PublicationError::InvalidOperationSeal { seal: "uploaded-object closure" });
        }
        validate_dependency_seal(operation, &request.dependency_owner_revision_ids)?;
        check_positions(request.context, operation, rows)?;
        validate_manifest_order(rows, self.store.policy.max_manifest_rows)?;
        let cursor: u32 = checked_batch_cursor(
            "stage manifest",
            operation.manifest_cursor,
            rows.len(),
            operation.manifest_row_count,
        )?;
        if let Some(last) = operation.manifest_last_position {
            if rows[0].object_index <= last.object_index {
                return Err(PublicationError::ManifestPositionMismatch);
            }
        }
        Ok(cursor)
    }

    /// Checks that a batch of manifest rows follows the durable ones; the
    /// rolling digest after it.
    fn check_manifest_rows(
        &self,
        request: &StageManifestBatchRequest,
        cursor: u32,
    ) -> (result: Result<[u8; 32], Stop>)
        requires
            self.wf(),
            request.manifest_rows@.len() > 0,
            cursor == request.expected_operation.record.manifest_cursor
                + request.manifest_rows@.len(),
        ensures
            match result {
                Ok(digest) => {
                    &&& manifest_rows_halt(*self.store, *request) is None
                    &&& digest@ == manifest_digest_over(
                        request.expected_operation.record.manifest_rolling_digest@,
                        request.manifest_rows@,
                        request.manifest_rows@.len(),
                    )
                },
                Err(stop) => manifest_rows_halt(*self.store, *request) == Some(stop@),
            },
    {
        let operation: &PublishOperationRecord = &request.expected_operation.record;
        let rows: &Vec<ManifestRowInput> = &request.manifest_rows;
        let preceding: Option<&ArtifactManifestRow> = self.load_preceding_row(
            request.context,
            operation,
        )?;
        let offset: u64 = match preceding {
            None => 0,
            Some(row) => row.logical_offset + row.length,
        };
        if rows[0].row.record.logical_offset != offset {
            return Err(
                Stop::Fail(
                    PublicationError::ManifestLogicalOffsetMismatch {
                        expected: offset,
                        actual: rows[0].row.record.logical_offset,
                    },
                ),
            );
        }
        let digest: [u8; 32] = self.check_owned_rows(
            request.context,
            operation,
            &request.dependency_owner_revision_ids,
            preceding,
            rows,
        )?;
        match completeness_differs(operation, rows, cursor) {
            None => Ok(digest),
            Some(reason) => Err(
                Stop::Fail(
                    PublicationError::ManifestOwnershipMismatch {
                        object_index: rows[rows.len() - 1].object_index,
                        reason,
                    },
                ),
            ),
        }
    }

    /// Grows the invisible manifest by the next rows of an operation.
    pub fn stage_manifest_batch(&self, request: &StageManifestBatchRequest) -> (result: Result<
        PlannedCommand,
        Stop,
    >)
        requires
            self.wf(),
            request.expected_operation.wf(),
            manifest_rows_wf(request.manifest_rows@),
        ensures
            plans(
                result,
                request.context,
                stage_manifest_draft(*self.store, *request),
                next_payload_of(*self.store),
                None,
            ),
    {
        broadcast use lemma_authority_after_halt;

        let context: PublicationContext = request.context;
        let expected: &Coded<PublishOperationRecord> = &request.expected_operation;
        let rows: &Vec<ManifestRowInput> = &request.manifest_rows;
        let ghost step = manifest_step(context, expected.record, rows@);
        let ghost draft = stage_manifest_draft(*self.store, *request);
        let ghost next_spec = manifest_next(expected.record, rows@);
        proof {
            assert(keeps_halts(step));
            assert forall|d: Draft| d.halt is Some implies #[trigger] stepped(step, rows@.len(), d)
                == d by {
                lemma_stepped_halt(step, 0, rows@.len(), d);
            }
        }
        self.open_batch(context, expected, PublishPhase::Uploading)?;
        let cursor: u32 = lift(self.check_manifest_batch(request))?;
        let digest: [u8; 32] = self.check_manifest_rows(request, cursor)?;
        let mut next: PublishOperationRecord = expected.record.duplicate();
        next.manifest_cursor = cursor;
        next.manifest_rolling_digest = digest;
        next.manifest_last_position = Some(
            ManifestPosition { object_index: rows[rows.len() - 1].object_index },
        );
        proof {
            lemma_digest_array(digest);
            assert(next == next_spec);
        }
        let (payload, next_payload) = self.close_batch(expected, &next)?;
        let mut plan: CommandPlan = CommandPlan::new();
        plan.replace(
            publish_row(context, &expected.record),
            payload,
            copy_bytes(next_payload.as_slice()),
        )?;
        plan.assert_value(
            RowKey::ArtifactRevision {
                root_id: context.root_id,
                revision: expected.record.artifact_revision_id,
            },
            None,
        )?;
        let ghost pinned = live(plan@);
        assert(draft == sealed_draft(
            *self.store,
            context,
            next_spec,
            PublicationAuthorityPurpose::Forward,
            stepped(step, rows@.len(), pinned),
        ));
        let mut i: usize = 0;
        while i < rows.len()
            invariant
                i <= rows@.len(),
                rows@ == request.manifest_rows@,
                context == request.context,
                *expected == request.expected_operation,
                plan.wf(),
                step == manifest_step(context, expected.record, rows@),
                keeps_halts(step),
                stepped(step, i as nat, pinned) == live(plan@),
                draft == stage_manifest_draft(*self.store, *request),
                draft == sealed_draft(
                    *self.store,
                    context,
                    next_spec,
                    PublicationAuthorityPurpose::Forward,
                    stepped(step, rows@.len(), pinned),
                ),
            decreases rows@.len() - i,
        {
            broadcast use lemma_authority_after_halt;

            proof {
                assert(stepped(step, (i + 1) as nat, pinned) == step(i as int, live(plan@)));
                if stepped(step, (i + 1) as nat, pinned).halt is Some {
                    lemma_stepped_halt(step, (i + 1) as nat, rows@.len(), pinned);
                }
            }
            let row: &Vec<u8> = lift(get_payload(&rows[i].row))?;
            plan.put_absent(
                manifest_row_key(context, &expected.record, rows[i].object_index),
                copy_bytes(row.as_slice()),
            )?;
            i = i + 1;
        }
        self.seal_plan(
            context,
            plan,
            &next,
            next_payload,
            PublicationAuthorityPurpose::Forward,
            None,
        )
    }
}

} // verus!
