//! What a metadata shard has answered, and reads of it.
//!
//! Planning never waits: it runs on the answers it has, and stops at the first
//! one that is missing. The caller obtains that answer, adds it to the
//! [`MetaShard`], and plans again.

use crate::be::{copy_bytes, same_bytes};
use crate::ids::{CommitVersion, ReadVersion};
use crate::publication_digests::{get_payload, payload_fault, payload_of};
use crate::publication_error::{MetaError, PublicationError};
use crate::publication_plan::{OperationKind, PublicationContext, RowKey, RowKeyView, Stop,
    StopView};
use crate::publication_records::{first_fault, parse_artifact_revision, parse_path_entry,
    parse_revision_claim, parse_revision_ref, parse_workspace, ArtifactRevisionClaimRecord,
    ArtifactRevisionRecord, ArtifactRevisionView, PathEntry, PathEntryView, RevisionRefRecord,
    WorkspaceRecord};
use crate::publish_records::{ArtifactManifestRow, BuildCommitOperationRecord, Coded,
    CommitOperationRecordError, PublishOperationRecord, PublishRecordError,
    RestoreOperationRecord, RestoreRecordError, StagedObjectRecord};
use vstd::prelude::*;

verus! {

/// Names and limits that belong to the deployment.
#[derive(Clone, Debug, PartialEq, Eq)]
pub struct PublicationPolicy {
    /// Path of the run manifest of a workbench.
    pub run_manifest_path: String,
    /// Path of the restore manifest of a workbench.
    pub restore_manifest_path: String,
    /// Content type that a restore's manifests must have.
    pub restore_manifest_content_type: String,
    /// Most bytes of one change event.
    pub max_event_bytes: usize,
    /// Most objects that one operation may stage.
    pub max_staged_objects: u32,
    /// Most rows of one manifest.
    pub max_manifest_rows: u32,
}

/// What the codec of the operation store makes of a row.
#[derive(Debug, PartialEq, Eq)]
pub enum DecodedRow {
    /// A row that this library decodes itself.
    Plain,
    /// Decoded and validated.
    Publish(Result<PublishOperationRecord, PublishRecordError>),
    Restore(Result<RestoreOperationRecord, RestoreRecordError>),
    BuildCommit(Result<BuildCommitOperationRecord, CommitOperationRecordError>),
    StagedObject(Result<StagedObjectRecord, PublishRecordError>),
    ManifestRow(Result<ArtifactManifestRow, PublishRecordError>),
}

/// A row as the shard holds it.
#[derive(Debug, PartialEq, Eq)]
pub struct StoredRow {
    pub payload: Vec<u8>,
    pub decoded: DecodedRow,
}

/// The shard's answer to one read.
#[derive(Debug, PartialEq, Eq)]
pub struct RowRead {
    pub version: ReadVersion,
    pub key: RowKey,
    pub answer: Result<Option<StoredRow>, MetaError>,
}

/// One row of a scan, its key in bytes.
#[derive(Clone, Debug, PartialEq, Eq)]
pub struct ScannedRow {
    pub key: Vec<u8>,
    pub value: Vec<u8>,
}

/// The result of a command that has run.
#[derive(Clone, Debug, PartialEq, Eq)]
pub struct CommandReceipt {
    pub commit_version: CommitVersion,
    pub deterministic_result: Vec<u8>,
    pub replayed: bool,
}

/// The byte forms of the keys of an operation, its workspace and its path.
#[derive(Clone, Debug, PartialEq, Eq)]
pub struct StageKeys {
    pub operation: Vec<u8>,
    pub workspace: Vec<u8>,
    pub path: Vec<u8>,
}

/// What one metadata shard, and the record codecs beside it, have answered so
/// far while one command is planned.
#[derive(Debug, PartialEq, Eq)]
pub struct MetaShard {
    pub policy: PublicationPolicy,
    pub reads: Vec<RowRead>,
    pub lease_clock: Option<Result<u64, MetaError>>,
    pub current_version: Option<Result<ReadVersion, MetaError>>,
    pub current_version_again: Option<Result<ReadVersion, MetaError>>,
    pub observed_clock: Option<Result<u64, MetaError>>,
    pub scanned: Option<Result<Vec<ScannedRow>, MetaError>>,
    pub stage_keys: Option<StageKeys>,
    pub request_result: Option<Result<Option<CommandReceipt>, MetaError>>,
    pub executed: Option<Result<CommandReceipt, MetaError>>,
    pub next_payload: Option<Result<Vec<u8>, PublishRecordError>>,
    pub transitioned: Option<Result<PublishOperationRecord, PublishRecordError>>,
    pub commit_payload: Option<Result<Vec<u8>, CommitOperationRecordError>>,
}

/// A manifest row that was decoded has a logical range.
pub open spec fn decoded_wf(row: StoredRow) -> bool {
    match row.decoded {
        DecodedRow::ManifestRow(Ok(manifest)) => manifest.wf(),
        DecodedRow::Publish(Ok(operation)) => operation.wf(),
        _ => true,
    }
}

/// A decoded answer that is well formed.
pub open spec fn read_wf(read: RowRead) -> bool {
    match read.answer {
        Ok(Some(row)) => decoded_wf(row),
        _ => true,
    }
}

impl MetaShard {
    /// Every decoded answer is well formed, and versions are positive.
    pub open spec fn wf(self) -> bool {
        &&& forall|i: int| 0 <= i < self.reads@.len() ==> read_wf(#[trigger] self.reads@[i])
        &&& self.transitioned matches Some(Ok(operation)) ==> operation.wf()
        &&& self.executed matches Some(Ok(receipt)) ==> receipt.commit_version.wf()
        &&& self.request_result matches Some(Ok(Some(receipt))) ==> receipt.commit_version.wf()
    }
}

/// Whether an answer is to the read of `key` at `version`.
pub open spec fn answers(read: RowRead, version: ReadVersion, key: RowKeyView) -> bool {
    read.version == version && read.key@ == key
}

/// The first of the reads from `i` on that answers, if one does.
pub open spec fn first_answer(
    reads: Seq<RowRead>,
    version: ReadVersion,
    key: RowKeyView,
    i: nat,
) -> Option<Result<Option<StoredRow>, MetaError>>
    decreases reads.len() - i,
{
    if i >= reads.len() {
        None
    } else if answers(reads[i as int], version, key) {
        Some(reads[i as int].answer)
    } else {
        first_answer(reads, version, key, i + 1)
    }
}

/// The shard's answer to the read of `key` at `version`, if there is one.
#[verifier::opaque]
pub open spec fn answer_of(store: MetaShard, version: ReadVersion, key: RowKeyView) -> Option<
    Result<Option<StoredRow>, MetaError>,
> {
    first_answer(store.reads@, version, key, 0)
}

proof fn lemma_first_answer_wf(reads: Seq<RowRead>, version: ReadVersion, key: RowKeyView, i: nat)
    requires
        forall|i: int| 0 <= i < reads.len() ==> read_wf(#[trigger] reads[i]),
    ensures
        first_answer(reads, version, key, i) matches Some(Ok(Some(row))) ==> decoded_wf(row),
    decreases reads.len() - i,
{
    if i < reads.len() {
        assert(read_wf(reads[i as int]));
        lemma_first_answer_wf(reads, version, key, i + 1);
    }
}

/// A row that was read is well formed.
pub proof fn lemma_answer_wf(store: MetaShard, version: ReadVersion, key: RowKeyView)
    requires
        store.wf(),
    ensures
        answer_of(store, version, key) matches Some(Ok(Some(row))) ==> decoded_wf(row),
{
    reveal(answer_of);
    lemma_first_answer_wf(store.reads@, version, key, 0);
}

/// Why a row cannot be looked at yet, or at all.
#[verifier::opaque]
pub open spec fn read_halt(store: MetaShard, version: ReadVersion, key: RowKeyView) -> Option<
    StopView,
> {
    match answer_of(store, version, key) {
        None => Some(StopView::Read { version, key }),
        Some(Err(error)) => Some(StopView::Fail(PublicationError::Meta(error))),
        Some(Ok(_)) => None,
    }
}

/// A row that was read.
#[verifier::opaque]
pub open spec fn row_of(store: MetaShard, version: ReadVersion, key: RowKeyView) -> Option<
    StoredRow,
> {
    answer_of(store, version, key).unwrap().unwrap()
}

/// The bytes of a row that was read.
#[verifier::opaque]
pub open spec fn bytes_of(store: MetaShard, version: ReadVersion, key: RowKeyView) -> Option<
    Seq<u8>,
> {
    match row_of(store, version, key) {
        None => None,
        Some(row) => Some(row.payload@),
    }
}

/// A record with the bytes it was decoded from.
#[derive(Debug, PartialEq, Eq)]
pub struct Loaded<T> {
    pub payload: Vec<u8>,
    pub record: T,
}

/// Why a workspace record cannot be looked at yet, or at all.
#[verifier::opaque]
pub open spec fn workspace_halt(store: MetaShard, version: ReadVersion, key: RowKeyView) -> Option<
    StopView,
> {
    first_fault(
        read_halt(store, version, key),
        match bytes_of(store, version, key) {
            None => None,
            Some(bytes) => match parse_workspace(bytes) {
                Ok(_) => None,
                Err(error) => Some(StopView::Fail(PublicationError::RecordCodec(error))),
            },
        },
    )
}

/// A workspace record that was read.
#[verifier::opaque]
pub open spec fn workspace_of(store: MetaShard, version: ReadVersion, key: RowKeyView) -> Option<
    WorkspaceRecord,
> {
    match bytes_of(store, version, key) {
        None => None,
        Some(bytes) => Some(parse_workspace(bytes).unwrap()),
    }
}

/// Why a path entry record cannot be looked at yet, or at all.
#[verifier::opaque]
pub open spec fn path_entry_halt(store: MetaShard, version: ReadVersion, key: RowKeyView) -> Option<
    StopView,
> {
    first_fault(
        read_halt(store, version, key),
        match bytes_of(store, version, key) {
            None => None,
            Some(bytes) => match parse_path_entry(bytes) {
                Ok(_) => None,
                Err(error) => Some(StopView::Fail(PublicationError::RecordCodec(error))),
            },
        },
    )
}

/// A path entry record that was read.
#[verifier::opaque]
pub open spec fn path_entry_of(store: MetaShard, version: ReadVersion, key: RowKeyView) -> Option<
    PathEntryView,
> {
    match bytes_of(store, version, key) {
        None => None,
        Some(bytes) => Some(parse_path_entry(bytes).unwrap()),
    }
}

/// Why a revision record cannot be looked at yet, or at all.
#[verifier::opaque]
pub open spec fn revision_halt(store: MetaShard, version: ReadVersion, key: RowKeyView) -> Option<
    StopView,
> {
    first_fault(
        read_halt(store, version, key),
        match bytes_of(store, version, key) {
            None => None,
            Some(bytes) => match parse_artifact_revision(bytes) {
                Ok(_) => None,
                Err(error) => Some(StopView::Fail(PublicationError::RecordCodec(error))),
            },
        },
    )
}

/// A revision record that was read.
#[verifier::opaque]
pub open spec fn revision_of(store: MetaShard, version: ReadVersion, key: RowKeyView) -> Option<
    ArtifactRevisionView,
> {
    match bytes_of(store, version, key) {
        None => None,
        Some(bytes) => Some(parse_artifact_revision(bytes).unwrap()),
    }
}

/// Why a revision ref record cannot be looked at yet, or at all.
#[verifier::opaque]
pub open spec fn revision_ref_halt(store: MetaShard, version: ReadVersion, key: RowKeyView) -> Option<
    StopView,
> {
    first_fault(
        read_halt(store, version, key),
        match bytes_of(store, version, key) {
            None => None,
            Some(bytes) => match parse_revision_ref(bytes) {
                Ok(_) => None,
                Err(error) => Some(StopView::Fail(PublicationError::RecordCodec(error))),
            },
        },
    )
}

/// A revision ref record that was read.
#[verifier::opaque]
pub open spec fn revision_ref_of(store: MetaShard, version: ReadVersion, key: RowKeyView) -> Option<
    RevisionRefRecord,
> {
    match bytes_of(store, version, key) {
        None => None,
        Some(bytes) => Some(parse_revision_ref(bytes).unwrap()),
    }
}

/// Why a claim record cannot be looked at yet, or at all.
#[verifier::opaque]
pub open spec fn claim_halt(store: MetaShard, version: ReadVersion, key: RowKeyView) -> Option<
    StopView,
> {
    first_fault(
        read_halt(store, version, key),
        match bytes_of(store, version, key) {
            None => None,
            Some(bytes) => match parse_revision_claim(bytes) {
                Ok(_) => None,
                Err(error) => Some(StopView::Fail(PublicationError::RecordCodec(error))),
            },
        },
    )
}

/// A claim record that was read.
#[verifier::opaque]
pub open spec fn claim_of(store: MetaShard, version: ReadVersion, key: RowKeyView) -> Option<
    ArtifactRevisionClaimRecord,
> {
    match bytes_of(store, version, key) {
        None => None,
        Some(bytes) => Some(parse_revision_claim(bytes).unwrap()),
    }
}

/// Why the publish under a key cannot be looked at yet, or at all.
#[verifier::opaque]
pub open spec fn publish_halt(store: MetaShard, version: ReadVersion, key: RowKeyView) -> Option<
    StopView,
> {
    first_fault(
        read_halt(store, version, key),
        match row_of(store, version, key) {
            None => None,
            Some(row) => match row.decoded {
                DecodedRow::Publish(Ok(_)) => None,
                DecodedRow::Publish(Err(error)) => Some(
                    StopView::Fail(PublicationError::OperationCodec(error)),
                ),
                _ => Some(StopView::Read { version, key }),
            },
        },
    )
}

/// The publish that was read.
#[verifier::opaque]
pub open spec fn publish_of(store: MetaShard, version: ReadVersion, key: RowKeyView) -> Option<
    PublishOperationRecord,
> {
    match row_of(store, version, key) {
        Some(row) => match row.decoded {
            DecodedRow::Publish(Ok(record)) => Some(record),
            _ => None,
        },
        None => None,
    }
}

/// Why the restore under a key cannot be looked at yet, or at all.
#[verifier::opaque]
pub open spec fn restore_halt(store: MetaShard, version: ReadVersion, key: RowKeyView) -> Option<
    StopView,
> {
    first_fault(
        read_halt(store, version, key),
        match row_of(store, version, key) {
            None => None,
            Some(row) => match row.decoded {
                DecodedRow::Restore(Ok(_)) => None,
                DecodedRow::Restore(Err(error)) => Some(
                    StopView::Fail(PublicationError::RestoreCodec(error)),
                ),
                _ => Some(StopView::Read { version, key }),
            },
        },
    )
}

/// The restore that was read.
#[verifier::opaque]
pub open spec fn restore_of(store: MetaShard, version: ReadVersion, key: RowKeyView) -> Option<
    RestoreOperationRecord,
> {
    match row_of(store, version, key) {
        Some(row) => match row.decoded {
            DecodedRow::Restore(Ok(record)) => Some(record),
            _ => None,
        },
        None => None,
    }
}

/// Why the build commit under a key cannot be looked at yet, or at all.
#[verifier::opaque]
pub open spec fn build_commit_halt(store: MetaShard, version: ReadVersion, key: RowKeyView) -> Option<
    StopView,
> {
    first_fault(
        read_halt(store, version, key),
        match row_of(store, version, key) {
            None => None,
            Some(row) => match row.decoded {
                DecodedRow::BuildCommit(Ok(_)) => None,
                DecodedRow::BuildCommit(Err(error)) => Some(
                    StopView::Fail(PublicationError::CommitOperationCodec(error)),
                ),
                _ => Some(StopView::Read { version, key }),
            },
        },
    )
}

/// The build commit that was read.
#[verifier::opaque]
pub open spec fn build_commit_of(store: MetaShard, version: ReadVersion, key: RowKeyView) -> Option<
    BuildCommitOperationRecord,
> {
    match row_of(store, version, key) {
        Some(row) => match row.decoded {
            DecodedRow::BuildCommit(Ok(record)) => Some(record),
            _ => None,
        },
        None => None,
    }
}

/// Why the staged object under a key cannot be looked at yet, or at all.
#[verifier::opaque]
pub open spec fn staged_object_halt(store: MetaShard, version: ReadVersion, key: RowKeyView) -> Option<
    StopView,
> {
    first_fault(
        read_halt(store, version, key),
        match row_of(store, version, key) {
            None => None,
            Some(row) => match row.decoded {
                DecodedRow::StagedObject(Ok(_)) => None,
                DecodedRow::StagedObject(Err(error)) => Some(
                    StopView::Fail(PublicationError::OperationCodec(error)),
                ),
                _ => Some(StopView::Read { version, key }),
            },
        },
    )
}

/// The staged object that was read.
#[verifier::opaque]
pub open spec fn staged_object_of(store: MetaShard, version: ReadVersion, key: RowKeyView) -> Option<
    StagedObjectRecord,
> {
    match row_of(store, version, key) {
        Some(row) => match row.decoded {
            DecodedRow::StagedObject(Ok(record)) => Some(record),
            _ => None,
        },
        None => None,
    }
}

/// Why the manifest row under a key cannot be looked at yet, or at all.
#[verifier::opaque]
pub open spec fn manifest_row_halt(store: MetaShard, version: ReadVersion, key: RowKeyView) -> Option<
    StopView,
> {
    first_fault(
        read_halt(store, version, key),
        match row_of(store, version, key) {
            None => None,
            Some(row) => match row.decoded {
                DecodedRow::ManifestRow(Ok(_)) => None,
                DecodedRow::ManifestRow(Err(error)) => Some(
                    StopView::Fail(PublicationError::OperationCodec(error)),
                ),
                _ => Some(StopView::Read { version, key }),
            },
        },
    )
}

/// The manifest row that was read.
#[verifier::opaque]
pub open spec fn manifest_row_of(store: MetaShard, version: ReadVersion, key: RowKeyView) -> Option<
    ArtifactManifestRow,
> {
    match row_of(store, version, key) {
        Some(row) => match row.decoded {
            DecodedRow::ManifestRow(Ok(record)) => Some(record),
            _ => None,
        },
        None => None,
    }
}

/// A decoded row with the bytes it was decoded from.
pub struct LoadedRow<'a, T> {
    pub payload: &'a Vec<u8>,
    pub record: &'a T,
}

/// The operation row of a publication.
pub open spec fn publish_key(context: PublicationContext, operation: PublishOperationRecord) -> RowKeyView {
    RowKeyView::Operation {
        root_id: context.root_id,
        kind: OperationKind::Publish,
        operation_id: operation.operation_id,
    }
}

/// The durable operation is not the one that the caller has observed.
#[verifier::opaque]
pub open spec fn current_operation_halt(
    store: MetaShard,
    context: PublicationContext,
    expected: Coded<PublishOperationRecord>,
) -> Option<StopView> {
    let key = publish_key(context, expected.record);
    first_fault(
        read_halt(store, context.read_version, key),
        first_fault(
            crate::publication_plan::failing(payload_fault(expected)),
            if bytes_of(store, context.read_version, key) != Some(payload_of(expected)) {
                Some(StopView::Fail(PublicationError::ConcurrentMutation))
            } else {
                None
            },
        ),
    )
}

/// The stored form of the next operation is not known yet, or there is none.
#[verifier::opaque]
pub open spec fn next_payload_halt(store: MetaShard, next: PublishOperationRecord) -> Option<
    StopView,
> {
    match store.next_payload {
        None => Some(StopView::Encode { operation: next }),
        Some(Err(error)) => Some(StopView::Fail(PublicationError::OperationCodec(error))),
        Some(Ok(_)) => None,
    }
}

/// The stored form of the next operation.
#[verifier::opaque]
pub open spec fn next_payload_of(store: MetaShard) -> Seq<u8> {
    store.next_payload.unwrap().unwrap()@
}

/// Planning of publication commands on the answers of a metadata shard.
#[derive(Clone, Copy)]
pub struct PublicationService<'a> {
    pub store: &'a MetaShard,
}

impl<'a> PublicationService<'a> {
    pub fn new(store: &'a MetaShard) -> (service: PublicationService<'a>)
        ensures
            service.store == store,
    {
        PublicationService { store }
    }

    /// The answers are well formed.
    pub open spec fn wf(self) -> bool {
        self.store.wf()
    }

    /// Reads one row.
    pub fn read_payload(&self, version: ReadVersion, key: &RowKey) -> (result: Result<
        Option<&'a StoredRow>,
        Stop,
    >)
        ensures
            match result {
                Ok(row) => {
                    &&& read_halt(*self.store, version, key@) is None
                    &&& match row {
                        None => row_of(*self.store, version, key@) is None,
                        Some(row) => row_of(*self.store, version, key@) == Some(*row),
                    }
                },
                Err(stop) => read_halt(*self.store, version, key@) == Some(stop@),
            },
    {
        proof {
            reveal(answer_of);
            reveal(read_halt);
        }
        let reads: &'a Vec<RowRead> = &self.store.reads;
        let mut i: usize = 0;
        while i < reads.len()
            invariant
                i <= reads@.len(),
                reads@ == self.store.reads@,
                first_answer(reads@, version, key@, 0) == first_answer(
                    reads@,
                    version,
                    key@,
                    i as nat,
                ),
                answer_of(*self.store, version, key@) == first_answer(reads@, version, key@, 0),
            decreases reads@.len() - i,
        {
            proof {
                reveal(read_halt);
                reveal(row_of);
            }
            if reads[i].version == version && reads[i].key.same(key) {
                match &reads[i].answer {
                    Err(error) => {
                        return Err(Stop::Fail(PublicationError::Meta(*error)));
                    },
                    Ok(None) => {
                        return Ok(None);
                    },
                    Ok(Some(row)) => {
                        return Ok(Some(row));
                    },
                }
            }
            i = i + 1;
        }
        Err(Stop::Read { version, key: key.duplicate() })
    }

    /// Reads a workspace record.
    pub fn read_workspace(&self, version: ReadVersion, key: &RowKey) -> (result: Result<
        Option<Loaded<WorkspaceRecord>>,
        Stop,
    >)
        ensures
            match result {
                Ok(loaded) => {
                    &&& workspace_halt(*self.store, version, key@) is None
                    &&& match loaded {
                        None => bytes_of(*self.store, version, key@) is None
                            && workspace_of(*self.store, version, key@) is None,
                        Some(loaded) => bytes_of(*self.store, version, key@) == Some(
                            loaded.payload@,
                        ) && workspace_of(*self.store, version, key@) == Some(loaded.record),
                    }
                },
                Err(stop) => workspace_halt(*self.store, version, key@) == Some(stop@),
            },
    {
        proof {
            reveal(workspace_halt);
            reveal(workspace_of);
            reveal(bytes_of);
            reveal(row_of);
            reveal(read_halt);
        }
        match self.read_payload(version, key)? {
            None => Ok(None),
            Some(row) => match WorkspaceRecord::decode(row.payload.as_slice()) {
                Err(error) => Err(Stop::Fail(PublicationError::RecordCodec(error))),
                Ok(record) => Ok(
                    Some(Loaded { payload: copy_bytes(row.payload.as_slice()), record }),
                ),
            },
        }
    }

    /// Reads a path entry record.
    pub fn read_path_entry(&self, version: ReadVersion, key: &RowKey) -> (result: Result<
        Option<Loaded<PathEntry>>,
        Stop,
    >)
        ensures
            match result {
                Ok(loaded) => {
                    &&& path_entry_halt(*self.store, version, key@) is None
                    &&& match loaded {
                        None => bytes_of(*self.store, version, key@) is None
                            && path_entry_of(*self.store, version, key@) is None,
                        Some(loaded) => bytes_of(*self.store, version, key@) == Some(
                            loaded.payload@,
                        ) && path_entry_of(*self.store, version, key@) == Some(loaded.record@),
                    }
                },
                Err(stop) => path_entry_halt(*self.store, version, key@) == Some(stop@),
            },
    {
        proof {
            reveal(path_entry_halt);
            reveal(path_entry_of);
            reveal(bytes_of);
            reveal(row_of);
            reveal(read_halt);
        }
        match self.read_payload(version, key)? {
            None => Ok(None),
            Some(row) => match PathEntry::decode(row.payload.as_slice()) {
                Err(error) => Err(Stop::Fail(PublicationError::RecordCodec(error))),
                Ok(record) => Ok(
                    Some(Loaded { payload: copy_bytes(row.payload.as_slice()), record }),
                ),
            },
        }
    }

    /// Reads a revision record.
    pub fn read_revision(&self, version: ReadVersion, key: &RowKey) -> (result: Result<
        Option<Loaded<ArtifactRevisionRecord>>,
        Stop,
    >)
        ensures
            match result {
                Ok(loaded) => {
                    &&& revision_halt(*self.store, version, key@) is None
                    &&& match loaded {
                        None => bytes_of(*self.store, version, key@) is None
                            && revision_of(*self.store, version, key@) is None,
                        Some(loaded) => bytes_of(*self.store, version, key@) == Some(
                            loaded.payload@,
                        ) && revision_of(*self.store, version, key@) == Some(loaded.record@),
                    }
                },
                Err(stop) => revision_halt(*self.store, version, key@) == Some(stop@),
            },
    {
        proof {
            reveal(revision_halt);
            reveal(revision_of);
            reveal(bytes_of);
            reveal(row_of);
            reveal(read_halt);
        }
        match self.read_payload(version, key)? {
            None => Ok(None),
            Some(row) => match ArtifactRevisionRecord::decode(row.payload.as_slice()) {
                Err(error) => Err(Stop::Fail(PublicationError::RecordCodec(error))),
                Ok(record) => Ok(
                    Some(Loaded { payload: copy_bytes(row.payload.as_slice()), record }),
                ),
            },
        }
    }

    /// Reads a revision ref record.
    pub fn read_revision_ref(&self, version: ReadVersion, key: &RowKey) -> (result: Result<
        Option<Loaded<RevisionRefRecord>>,
        Stop,
    >)
        ensures
            match result {
                Ok(loaded) => {
                    &&& revision_ref_halt(*self.store, version, key@) is None
                    &&& match loaded {
                        None => bytes_of(*self.store, version, key@) is None
                            && revision_ref_of(*self.store, version, key@) is None,
                        Some(loaded) => bytes_of(*self.store, version, key@) == Some(
                            loaded.payload@,
                        ) && revision_ref_of(*self.store, version, key@) == Some(loaded.record),
                    }
                },
                Err(stop) => revision_ref_halt(*self.store, version, key@) == Some(stop@),
            },
    {
        proof {
            reveal(revision_ref_halt);
            reveal(revision_ref_of);
            reveal(bytes_of);
            reveal(row_of);
            reveal(read_halt);
        }
        match self.read_payload(version, key)? {
            None => Ok(None),
            Some(row) => match RevisionRefRecord::decode(row.payload.as_slice()) {
                Err(error) => Err(Stop::Fail(PublicationError::RecordCodec(error))),
                Ok(record) => Ok(
                    Some(Loaded { payload: copy_bytes(row.payload.as_slice()), record }),
                ),
            },
        }
    }

    /// Reads a claim record.
    pub fn read_claim(&self, version: ReadVersion, key: &RowKey) -> (result: Result<
        Option<Loaded<ArtifactRevisionClaimRecord>>,
        Stop,
    >)
        ensures
            match result {
                Ok(loaded) => {
                    &&& claim_halt(*self.store, version, key@) is None
                    &&& match loaded {
                        None => bytes_of(*self.store, version, key@) is None
                            && claim_of(*self.store, version, key@) is None,
                        Some(loaded) => bytes_of(*self.store, version, key@) == Some(
                            loaded.payload@,
                        ) && claim_of(*self.store, version, key@) == Some(loaded.record),
                    }
                },
                Err(stop) => claim_halt(*self.store, version, key@) == Some(stop@),
            },
    {
        proof {
            reveal(claim_halt);
            reveal(claim_of);
            reveal(bytes_of);
            reveal(row_of);
            reveal(read_halt);
        }
        match self.read_payload(version, key)? {
            None => Ok(None),
            Some(row) => match ArtifactRevisionClaimRecord::decode(row.payload.as_slice()) {
                Err(error) => Err(Stop::Fail(PublicationError::RecordCodec(error))),
                Ok(record) => Ok(
                    Some(Loaded { payload: copy_bytes(row.payload.as_slice()), record }),
                ),
            },
        }
    }

    /// Reads a publish.
    pub fn read_publish(&self, version: ReadVersion, key: &RowKey) -> (result: Result<
        Option<LoadedRow<'a, PublishOperationRecord>>,
        Stop,
    >)
        requires
            self.wf(),
        ensures
            match result {
                Ok(loaded) => {
                    &&& publish_halt(*self.store, version, key@) is None
                    &&& match loaded {
                        None => bytes_of(*self.store, version, key@) is None
                            && publish_of(*self.store, version, key@) is None,
                        Some(loaded) => bytes_of(*self.store, version, key@) == Some(
                            loaded.payload@,
                        ) && publish_of(*self.store, version, key@) == Some(*loaded.record) && loaded.record.wf(),
                    }
                },
                Err(stop) => publish_halt(*self.store, version, key@) == Some(stop@),
            },
    {
        proof {
            reveal(publish_halt);
            reveal(publish_of);
            reveal(bytes_of);
            reveal(row_of);
            reveal(read_halt);
            lemma_answer_wf(*self.store, version, key@);
        }
        match self.read_payload(version, key)? {
            None => Ok(None),
            Some(row) => match &row.decoded {
                DecodedRow::Publish(Ok(record)) => Ok(
                    Some(LoadedRow { payload: &row.payload, record }),
                ),
                DecodedRow::Publish(Err(error)) => Err(Stop::Fail(PublicationError::OperationCodec(*error))),
                _ => Err(Stop::Read { version, key: key.duplicate() }),
            },
        }
    }

    /// Reads a restore.
    pub fn read_restore(&self, version: ReadVersion, key: &RowKey) -> (result: Result<
        Option<LoadedRow<'a, RestoreOperationRecord>>,
        Stop,
    >)
        ensures
            match result {
                Ok(loaded) => {
                    &&& restore_halt(*self.store, version, key@) is None
                    &&& match loaded {
                        None => bytes_of(*self.store, version, key@) is None
                            && restore_of(*self.store, version, key@) is None,
                        Some(loaded) => bytes_of(*self.store, version, key@) == Some(
                            loaded.payload@,
                        ) && restore_of(*self.store, version, key@) == Some(*loaded.record),
                    }
                },
                Err(stop) => restore_halt(*self.store, version, key@) == Some(stop@),
            },
    {
        proof {
            reveal(restore_halt);
            reveal(restore_of);
            reveal(bytes_of);
            reveal(row_of);
            reveal(read_halt);
            
        }
        match self.read_payload(version, key)? {
            None => Ok(None),
            Some(row) => match &row.decoded {
                DecodedRow::Restore(Ok(record)) => Ok(
                    Some(LoadedRow { payload: &row.payload, record }),
                ),
                DecodedRow::Restore(Err(error)) => Err(Stop::Fail(PublicationError::RestoreCodec(*error))),
                _ => Err(Stop::Read { version, key: key.duplicate() }),
            },
        }
    }

    /// Reads a build commit.
    pub fn read_build_commit(&self, version: ReadVersion, key: &RowKey) -> (result: Result<
        Option<LoadedRow<'a, BuildCommitOperationRecord>>,
        Stop,
    >)
        ensures
            match result {
                Ok(loaded) => {
                    &&& build_commit_halt(*self.store, version, key@) is None
                    &&& match loaded {
                        None => bytes_of(*self.store, version, key@) is None
                            && build_commit_of(*self.store, version, key@) is None,
                        Some(loaded) => bytes_of(*self.store, version, key@) == Some(
                            loaded.payload@,
                        ) && build_commit_of(*self.store, version, key@) == Some(*loaded.record),
                    }
                },
                Err(stop) => build_commit_halt(*self.store, version, key@) == Some(stop@),
            },
    {
        proof {
            reveal(build_commit_halt);
            reveal(build_commit_of);
            reveal(bytes_of);
            reveal(row_of);
            reveal(read_halt);
            
        }
        match self.read_payload(version, key)? {
            None => Ok(None),
            Some(row) => match &row.decoded {
                DecodedRow::BuildCommit(Ok(record)) => Ok(
                    Some(LoadedRow { payload: &row.payload, record }),
                ),
                DecodedRow::BuildCommit(Err(error)) => Err(Stop::Fail(PublicationError::CommitOperationCodec(*error))),
                _ => Err(Stop::Read { version, key: key.duplicate() }),
            },
        }
    }

    /// Reads a staged object.
    pub fn read_staged_object(&self, version: ReadVersion, key: &RowKey) -> (result: Result<
        Option<LoadedRow<'a, StagedObjectRecord>>,
        Stop,
    >)
        ensures
            match result {
                Ok(loaded) => {
                    &&& staged_object_halt(*self.store, version, key@) is None
                    &&& match loaded {
                        None => bytes_of(*self.store, version, key@) is None
                            && staged_object_of(*self.store, version, key@) is None,
                        Some(loaded) => bytes_of(*self.store, version, key@) == Some(
                            loaded.payload@,
                        ) && staged_object_of(*self.store, version, key@) == Some(*loaded.record),
                    }
                },
                Err(stop) => staged_object_halt(*self.store, version, key@) == Some(stop@),
            },
    {
        proof {
            reveal(staged_object_halt);
            reveal(staged_object_of);
            reveal(bytes_of);
            reveal(row_of);
            reveal(read_halt);
            
        }
        match self.read_payload(version, key)? {
            None => Ok(None),
            Some(row) => match &row.decoded {
                DecodedRow::StagedObject(Ok(record)) => Ok(
                    Some(LoadedRow { payload: &row.payload, record }),
                ),
                DecodedRow::StagedObject(Err(error)) => Err(Stop::Fail(PublicationError::OperationCodec(*error))),
                _ => Err(Stop::Read { version, key: key.duplicate() }),
            },
        }
    }

    /// Reads a manifest row.
    pub fn read_manifest_row(&self, version: ReadVersion, key: &RowKey) -> (result: Result<
        Option<LoadedRow<'a, ArtifactManifestRow>>,
        Stop,
    >)
        requires
            self.wf(),
        ensures
            match result {
                Ok(loaded) => {
                    &&& manifest_row_halt(*self.store, version, key@) is None
                    &&& match loaded {
                        None => bytes_of(*self.store, version, key@) is None
                            && manifest_row_of(*self.store, version, key@) is None,
                        Some(loaded) => bytes_of(*self.store, version, key@) == Some(
                            loaded.payload@,
                        ) && manifest_row_of(*self.store, version, key@) == Some(*loaded.record) && loaded.record.wf(),
                    }
                },
                Err(stop) => manifest_row_halt(*self.store, version, key@) == Some(stop@),
            },
    {
        proof {
            reveal(manifest_row_halt);
            reveal(manifest_row_of);
            reveal(bytes_of);
            reveal(row_of);
            reveal(read_halt);
            lemma_answer_wf(*self.store, version, key@);
        }
        match self.read_payload(version, key)? {
            None => Ok(None),
            Some(row) => match &row.decoded {
                DecodedRow::ManifestRow(Ok(record)) => Ok(
                    Some(LoadedRow { payload: &row.payload, record }),
                ),
                DecodedRow::ManifestRow(Err(error)) => Err(Stop::Fail(PublicationError::OperationCodec(*error))),
                _ => Err(Stop::Read { version, key: key.duplicate() }),
            },
        }
    }

    /// Checks that the durable operation is the one that the caller has
    /// observed.
    pub fn require_current_operation(
        &self,
        context: PublicationContext,
        expected: &Coded<PublishOperationRecord>,
    ) -> (result: Result<(), Stop>)
        ensures
            match result {
                Ok(_) => current_operation_halt(*self.store, context, *expected) is None,
                Err(stop) => current_operation_halt(*self.store, context, *expected) == Some(stop@),
            },
    {
        proof {
            reveal(current_operation_halt);
            reveal(bytes_of);
        }
        let key: RowKey = RowKey::Operation {
            root_id: context.root_id,
            kind: OperationKind::Publish,
            operation_id: expected.record.operation_id,
        };
        let current: Option<&StoredRow> = self.read_payload(context.read_version, &key)?;
        let payload: &Vec<u8> = crate::publication_plan::lift(get_payload(expected))?;
        match current {
            None => Err(Stop::Fail(PublicationError::ConcurrentMutation)),
            Some(row) => {
                if !same_bytes(row.payload.as_slice(), payload.as_slice()) {
                    return Err(Stop::Fail(PublicationError::ConcurrentMutation));
                }
                Ok(())
            },
        }
    }

    /// The stored form of the next operation.
    pub fn encode_next(&self, next: &PublishOperationRecord) -> (result: Result<Vec<u8>, Stop>)
        ensures
            match result {
                Ok(payload) => next_payload_halt(*self.store, *next) is None && payload@
                    == next_payload_of(*self.store),
                Err(stop) => next_payload_halt(*self.store, *next) == Some(stop@),
            },
    {
        proof {
            reveal(next_payload_halt);
            reveal(next_payload_of);
        }
        match &self.store.next_payload {
            None => Err(Stop::Encode { operation: next.duplicate() }),
            Some(Err(error)) => Err(Stop::Fail(PublicationError::OperationCodec(*error))),
            Some(Ok(payload)) => Ok(copy_bytes(payload.as_slice())),
        }
    }
}

} // verus!
