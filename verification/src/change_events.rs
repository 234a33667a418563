//! Index rows, path locators and change events that queries read.

use crate::be::{put_be, put_slice};
use crate::ids::{id_bytes, ArtifactRevisionId, CommitId, OperationId, PathIndexGenerationId,
    WorkspaceIncarnationId};
use crate::publication_records::{first_fault, optional_operation_bits};
use crate::query_records::{fields_sorted, floats_canonical, parse_projection, projection_bytes,
    projection_canonical, projection_fault, projection_round_trip, step_query_version, FieldView,
    QueryRecordError, TypedProjection, CHANGE_EVENT_VALUE_FORMAT_VERSION, MAX_QUERY_SCALAR_BYTES,
    MAX_TYPED_PROJECTION_BYTES, PATH_INDEX_LOCATOR_VALUE_FORMAT_VERSION,
    SECONDARY_INDEX_VALUE_FORMAT_VERSION};
use crate::text::{path_fault, read_text, text_of, utf8, workbench_id_fault,
    NormalizedRelativePath, WorkbenchId, MAX_PATH_BYTES, MAX_WORKBENCH_ID_BYTES};
use crate::wire::{check, fail, lemma_concat_assoc, lemma_concat_empty, optional_id_bytes, outcome,
    put_byte, put_optional_id, put_sized, sized, start, step_bytes, step_digest, step_end,
    step_id, step_optional_id, step_tag, step_u8, stepped, viewed, Parse, Reader};
use vstd::prelude::*;

verus! {

fn read_version(reader: &mut Reader, expected: u8) -> (result: Result<(), QueryRecordError>)
    requires
        old(reader).wf(),
    ensures
        final(reader).wf(),
        match result {
            Ok(_) => stepped(
                step_query_version(start(old(reader).rest()), expected),
                *final(reader),
            ),
            Err(error) => step_query_version(start(old(reader).rest()), expected).err == Some(
                error,
            ),
        },
{
    let actual: u8 = reader.u8("value_format_version")?;
    if actual != expected {
        return Err(QueryRecordError::UnsupportedValueVersion { actual, expected });
    }
    Ok(())
}

/// Durable value stored beside a secondary-index key.
#[derive(Clone, Copy, Debug, PartialEq, Eq)]
pub struct SecondaryIndexRecord {
    pub path_digest: [u8; 32],
    pub index_generation: PathIndexGenerationId,
}

/// An index row value with its digest as a sequence.
#[verifier::ext_equal]
pub struct SecondaryIndexView {
    pub path_digest: Seq<u8>,
    pub index_generation: PathIndexGenerationId,
}

impl View for SecondaryIndexRecord {
    type V = SecondaryIndexView;

    open spec fn view(&self) -> SecondaryIndexView {
        SecondaryIndexView {
            path_digest: self.path_digest@,
            index_generation: self.index_generation,
        }
    }
}

/// The stored form of an index row value.
pub open spec fn secondary_index_bytes(record: SecondaryIndexView) -> Seq<u8> {
    seq![SECONDARY_INDEX_VALUE_FORMAT_VERSION] + record.path_digest + id_bytes(
        record.index_generation.bits,
    )
}

/// The index row value that a payload holds, or why it holds none.
pub open spec fn parse_secondary_index(bytes: Seq<u8>) -> Result<
    SecondaryIndexView,
    QueryRecordError,
> {
    let s0 = step_query_version(start(bytes), SECONDARY_INDEX_VALUE_FORMAT_VERSION);
    let (path_digest, s1) = step_digest(s0, "path_digest");
    let (generation, s2) = step_id(s1, "index_generation");
    outcome(
        step_end(s2),
        SecondaryIndexView {
            path_digest,
            index_generation: PathIndexGenerationId { bits: generation },
        },
    )
}

impl SecondaryIndexRecord {
    pub fn encode(&self) -> (result: Result<Vec<u8>, QueryRecordError>)
        ensures
            result is Ok,
            result.unwrap()@ == secondary_index_bytes(self@),
    {
        let mut out: Vec<u8> = vec![SECONDARY_INDEX_VALUE_FORMAT_VERSION];
        assert(out@ =~= seq![SECONDARY_INDEX_VALUE_FORMAT_VERSION]);
        put_slice(&mut out, self.path_digest.as_slice());
        put_be(&mut out, self.index_generation.bits, 16);
        Ok(out)
    }

    pub fn decode(encoded: &[u8]) -> (result: Result<SecondaryIndexRecord, QueryRecordError>)
        ensures
            viewed(result) == parse_secondary_index(encoded@),
    {
        let mut reader = Reader::new(encoded);
        read_version(&mut reader, SECONDARY_INDEX_VALUE_FORMAT_VERSION)?;
        let path_digest: [u8; 32] = reader.digest("path_digest")?;
        let generation: u128 = reader.id("index_generation")?;
        reader.end()?;
        Ok(
            SecondaryIndexRecord {
                path_digest,
                index_generation: PathIndexGenerationId { bits: generation },
            },
        )
    }
}

/// An index row value is read back as it was written.
pub proof fn secondary_index_round_trip(record: SecondaryIndexView)
    requires
        record.path_digest.len() == 32,
    ensures
        parse_secondary_index(secondary_index_bytes(record)) == Ok::<_, QueryRecordError>(record),
{
    broadcast use crate::wire::group_read_back, crate::wire::lemma_concat_empty;

    assert(secondary_index_bytes(record) + Seq::<u8>::empty() == secondary_index_bytes(record));
}

/// Every accepted index row payload is the one stored form of its value.
pub proof fn secondary_index_canonical(bytes: Seq<u8>)
    requires
        parse_secondary_index(bytes) is Ok,
    ensures
        bytes == secondary_index_bytes(parse_secondary_index(bytes).unwrap()),
        parse_secondary_index(bytes).unwrap().path_digest.len() == 32,
{
    broadcast use crate::wire::group_split, crate::wire::lemma_concat_assoc;
    broadcast use crate::wire::lemma_concat_empty;

}

/// Durable publication state for one path-index locator.
#[derive(Clone, Copy, Debug, PartialEq, Eq, Structural)]
pub enum PathIndexLocatorState {
    /// Index rows exist but the path has not published this generation.
    Staged,
    /// The path published this generation in the same command as this flip.
    Published,
}

impl PathIndexLocatorState {
    /// The stored byte.
    pub open spec fn spec_tag(self) -> u8 {
        match self {
            PathIndexLocatorState::Staged => 1,
            PathIndexLocatorState::Published => 2,
        }
    }

    pub fn tag(self) -> (tag: u8)
        ensures
            tag == self.spec_tag(),
    {
        match self {
            PathIndexLocatorState::Staged => 1,
            PathIndexLocatorState::Published => 2,
        }
    }

    /// The value stored as `tag`, if there is one.
    pub open spec fn spec_from_tag(tag: u8) -> Option<PathIndexLocatorState> {
        if tag == 1 {
            Some(PathIndexLocatorState::Staged)
        } else if tag == 2 {
            Some(PathIndexLocatorState::Published)
        } else {
            None
        }
    }

    /// The value stored as `value`.
    pub fn try_from(value: u8) -> (result: Result<PathIndexLocatorState, QueryRecordError>)
        ensures
            match result {
                Ok(kind) => PathIndexLocatorState::spec_from_tag(value) == Some(kind),
                Err(error) => PathIndexLocatorState::spec_from_tag(value) is None && error
                    == (QueryRecordError::UnknownDiscriminant { type_label: "PathIndexLocatorState", value }),
            },
    {
        match value {
            1 => Ok(PathIndexLocatorState::Staged),
            2 => Ok(PathIndexLocatorState::Published),
            value => Err(QueryRecordError::UnknownDiscriminant { type_label: "PathIndexLocatorState", value }),
        }
    }
}

/// One full path and its durable staging state stored once per generation.
#[derive(Debug, PartialEq, Eq)]
pub struct PathIndexLocatorRecord {
    pub state: PathIndexLocatorState,
    pub path: NormalizedRelativePath,
}

impl View for PathIndexLocatorRecord {
    type V = (PathIndexLocatorState, Seq<char>);

    open spec fn view(&self) -> (PathIndexLocatorState, Seq<char>) {
        (self.state, self.path@)
    }
}

/// The stored form of a locator.
pub open spec fn locator_bytes(record: (PathIndexLocatorState, Seq<char>)) -> Seq<u8> {
    seq![PATH_INDEX_LOCATOR_VALUE_FORMAT_VERSION] + seq![record.0.spec_tag()] + sized(
        utf8(record.1),
    )
}

/// A path over the four-byte length, which no stored form can carry.
pub open spec fn path_length_fault(path: Seq<char>) -> Option<QueryRecordError> {
    if utf8(path).len() > u32::MAX {
        Some(
            QueryRecordError::LengthLimit {
                field: "path",
                length: utf8(path).len() as usize,
                max: u32::MAX as usize,
            },
        )
    } else {
        None
    }
}

/// A normalized path.
pub open spec fn step_path(st: Parse<QueryRecordError>) -> (Seq<char>, Parse<QueryRecordError>) {
    let (bytes, s1) = step_bytes(st, "path", MAX_PATH_BYTES);
    let s2 = check(s1, text_of(bytes) is Some, QueryRecordError::InvalidUtf8 { field: "path" });
    let text = text_of(bytes).unwrap();
    let fault = path_fault(text);
    (
        text,
        check(
            s2,
            fault is None,
            QueryRecordError::InvalidPath { reason: fault.unwrap().reason },
        ),
    )
}

/// The locator that a payload holds, or why it holds none.
pub open spec fn parse_locator(bytes: Seq<u8>) -> Result<
    (PathIndexLocatorState, Seq<char>),
    QueryRecordError,
> {
    let s0 = step_query_version(start(bytes), PATH_INDEX_LOCATOR_VALUE_FORMAT_VERSION);
    let (tag, s1) = step_u8(s0, "locator_state");
    let state = PathIndexLocatorState::spec_from_tag(tag);
    let s2 = check(
        s1,
        state is Some,
        QueryRecordError::UnknownDiscriminant {
            type_label: "PathIndexLocatorState",
            value: tag,
        },
    );
    let (path, s3) = step_path(s2);
    outcome(step_end(s3), (state.unwrap(), path))
}

fn read_path(reader: &mut Reader) -> (result: Result<NormalizedRelativePath, QueryRecordError>)
    requires
        old(reader).wf(),
    ensures
        final(reader).wf(),
        match result {
            Ok(value) => {
                &&& step_path(start(old(reader).rest())).0 == value@
                &&& stepped(step_path(start(old(reader).rest())).1, *final(reader))
            },
            Err(error) => step_path(start(old(reader).rest())).1.err == Some(error),
        },
{
    let bytes: &[u8] = reader.bytes("path", MAX_PATH_BYTES)?;
    let text: String = match read_text(bytes) {
        None => {
            return Err(QueryRecordError::InvalidUtf8 { field: "path" });
        },
        Some(text) => text,
    };
    match NormalizedRelativePath::new(text.as_str()) {
        Err(error) => Err(QueryRecordError::InvalidPath { reason: error.reason }),
        Ok(path) => Ok(path),
    }
}

fn put_path(out: &mut Vec<u8>, path: &NormalizedRelativePath) -> (result: Result<
    (),
    QueryRecordError,
>)
    ensures
        match result {
            Ok(_) => path_length_fault(path@) is None && final(out)@ == old(out)@ + sized(
                utf8(path@),
            ),
            Err(error) => path_length_fault(path@) == Some(error),
        },
{
    let bytes: &[u8] = path.as_bytes();
    if bytes.len() > u32::MAX as usize {
        return Err(
            QueryRecordError::LengthLimit {
                field: "path",
                length: bytes.len(),
                max: u32::MAX as usize,
            },
        );
    }
    put_sized(out, bytes);
    Ok(())
}

impl PathIndexLocatorRecord {
    pub fn encode(&self) -> (result: Result<Vec<u8>, QueryRecordError>)
        ensures
            match result {
                Ok(bytes) => path_length_fault(self@.1) is None && bytes@ == locator_bytes(self@),
                Err(error) => path_length_fault(self@.1) == Some(error),
            },
    {
        let mut out: Vec<u8> = vec![PATH_INDEX_LOCATOR_VALUE_FORMAT_VERSION];
        assert(out@ =~= seq![PATH_INDEX_LOCATOR_VALUE_FORMAT_VERSION]);
        put_byte(&mut out, self.state.tag());
        put_path(&mut out, &self.path)?;
        Ok(out)
    }

    pub fn decode(encoded: &[u8]) -> (result: Result<PathIndexLocatorRecord, QueryRecordError>)
        ensures
            viewed(result) == parse_locator(encoded@),
    {
        let mut reader = Reader::new(encoded);
        read_version(&mut reader, PATH_INDEX_LOCATOR_VALUE_FORMAT_VERSION)?;
        let tag: u8 = reader.u8("locator_state")?;
        let state: PathIndexLocatorState = PathIndexLocatorState::try_from(tag)?;
        let path: NormalizedRelativePath = read_path(&mut reader)?;
        reader.end()?;
        Ok(PathIndexLocatorRecord { state, path })
    }
}

proof fn lemma_path_back(path: Seq<char>, tail: Seq<u8>)
    requires
        path_fault(path) is None,
    ensures
        step_path(start(sized(utf8(path)) + tail)) == (path, start::<QueryRecordError>(tail)),
{
    broadcast use crate::text::lemma_text_of_utf8;

    crate::wire::lemma_bytes_back::<QueryRecordError>(utf8(path), tail, "path", MAX_PATH_BYTES);
}

proof fn lemma_path_split(st: Parse<QueryRecordError>)
    ensures
        step_path(st).1.err is None ==> {
            let (path, next) = step_path(st);
            st.err is None && path_fault(path) is None && st.rest == sized(utf8(path)) + next.rest
        },
{
    broadcast use crate::wire::group_split, crate::text::lemma_utf8_text_of;

}

/// A locator of a normalized path is read back as it was written.
pub proof fn locator_round_trip(record: (PathIndexLocatorState, Seq<char>))
    requires
        path_fault(record.1) is None,
    ensures
        parse_locator(locator_bytes(record)) == Ok::<_, QueryRecordError>(record),
{
    broadcast use crate::wire::group_read_back, crate::wire::lemma_concat_empty;

    assert(locator_bytes(record) + Seq::<u8>::empty() == locator_bytes(record));
    lemma_path_back(record.1, Seq::empty());
}

/// Every accepted locator payload is the one stored form of a locator of a
/// normalized path.
pub proof fn locator_canonical(bytes: Seq<u8>)
    requires
        parse_locator(bytes) is Ok,
    ensures
        bytes == locator_bytes(parse_locator(bytes).unwrap()),
        path_fault(parse_locator(bytes).unwrap().1) is None,
{
    broadcast use crate::wire::group_split, crate::wire::lemma_concat_assoc;
    broadcast use crate::wire::lemma_concat_empty;

    let s0 = step_query_version(start(bytes), PATH_INDEX_LOCATOR_VALUE_FORMAT_VERSION);
    let (tag, s1) = step_u8(s0, "locator_state");
    let state = PathIndexLocatorState::spec_from_tag(tag);
    let s2 = check(
        s1,
        state is Some,
        QueryRecordError::UnknownDiscriminant {
            type_label: "PathIndexLocatorState",
            value: tag,
        },
    );
    lemma_path_split(s2);
}

/// Typed user-visible metadata event.
#[derive(Clone, Copy, Debug, PartialEq, Eq, Structural)]
pub enum ChangeEventKind {
    WorkspaceCreated,
    ArtifactPublished,
    PathRemoved,
    WorkspaceRestored,
    SnapshotMinted,
    SnapshotRenewed,
    SnapshotRetired,
    SnapshotReapClaimed,
    SnapshotReaped,
    SnapshotConsumerAttached,
    SnapshotConsumerReleased,
    CommitAdvanced,
    CommitRetired,
}

impl ChangeEventKind {
    /// The stored byte.
    pub open spec fn spec_tag(self) -> u8 {
        match self {
            ChangeEventKind::WorkspaceCreated => 1,
            ChangeEventKind::ArtifactPublished => 2,
            ChangeEventKind::PathRemoved => 3,
            ChangeEventKind::WorkspaceRestored => 4,
            ChangeEventKind::SnapshotMinted => 5,
            ChangeEventKind::SnapshotRenewed => 6,
            ChangeEventKind::SnapshotRetired => 7,
            ChangeEventKind::SnapshotReapClaimed => 8,
            ChangeEventKind::SnapshotReaped => 9,
            ChangeEventKind::SnapshotConsumerAttached => 10,
            ChangeEventKind::SnapshotConsumerReleased => 11,
            ChangeEventKind::CommitAdvanced => 12,
            ChangeEventKind::CommitRetired => 13,
        }
    }

    pub fn tag(self) -> (tag: u8)
        ensures
            tag == self.spec_tag(),
    {
        match self {
            ChangeEventKind::WorkspaceCreated => 1,
            ChangeEventKind::ArtifactPublished => 2,
            ChangeEventKind::PathRemoved => 3,
            ChangeEventKind::WorkspaceRestored => 4,
            ChangeEventKind::SnapshotMinted => 5,
            ChangeEventKind::SnapshotRenewed => 6,
            ChangeEventKind::SnapshotRetired => 7,
            ChangeEventKind::SnapshotReapClaimed => 8,
            ChangeEventKind::SnapshotReaped => 9,
            ChangeEventKind::SnapshotConsumerAttached => 10,
            ChangeEventKind::SnapshotConsumerReleased => 11,
            ChangeEventKind::CommitAdvanced => 12,
            ChangeEventKind::CommitRetired => 13,
        }
    }

    /// The value stored as `tag`, if there is one.
    pub open spec fn spec_from_tag(tag: u8) -> Option<ChangeEventKind> {
        if tag == 1 {
            Some(ChangeEventKind::WorkspaceCreated)
        } else if tag == 2 {
            Some(ChangeEventKind::ArtifactPublished)
        } else if tag == 3 {
            Some(ChangeEventKind::PathRemoved)
        } else if tag == 4 {
            Some(ChangeEventKind::WorkspaceRestored)
        } else if tag == 5 {
            Some(ChangeEventKind::SnapshotMinted)
        } else if tag == 6 {
            Some(ChangeEventKind::SnapshotRenewed)
        } else if tag == 7 {
            Some(ChangeEventKind::SnapshotRetired)
        } else if tag == 8 {
            Some(ChangeEventKind::SnapshotReapClaimed)
        } else if tag == 9 {
            Some(ChangeEventKind::SnapshotReaped)
        } else if tag == 10 {
            Some(ChangeEventKind::SnapshotConsumerAttached)
        } else if tag == 11 {
            Some(ChangeEventKind::SnapshotConsumerReleased)
        } else if tag == 12 {
            Some(ChangeEventKind::CommitAdvanced)
        } else if tag == 13 {
            Some(ChangeEventKind::CommitRetired)
        } else {
            None
        }
    }

    /// The value stored as `value`.
    pub fn try_from(value: u8) -> (result: Result<ChangeEventKind, QueryRecordError>)
        ensures
            match result {
                Ok(kind) => ChangeEventKind::spec_from_tag(value) == Some(kind),
                Err(error) => ChangeEventKind::spec_from_tag(value) is None && error
                    == (QueryRecordError::UnknownDiscriminant { type_label: "ChangeEventKind", value }),
            },
    {
        match value {
            1 => Ok(ChangeEventKind::WorkspaceCreated),
            2 => Ok(ChangeEventKind::ArtifactPublished),
            3 => Ok(ChangeEventKind::PathRemoved),
            4 => Ok(ChangeEventKind::WorkspaceRestored),
            5 => Ok(ChangeEventKind::SnapshotMinted),
            6 => Ok(ChangeEventKind::SnapshotRenewed),
            7 => Ok(ChangeEventKind::SnapshotRetired),
            8 => Ok(ChangeEventKind::SnapshotReapClaimed),
            9 => Ok(ChangeEventKind::SnapshotReaped),
            10 => Ok(ChangeEventKind::SnapshotConsumerAttached),
            11 => Ok(ChangeEventKind::SnapshotConsumerReleased),
            12 => Ok(ChangeEventKind::CommitAdvanced),
            13 => Ok(ChangeEventKind::CommitRetired),
            value => Err(QueryRecordError::UnknownDiscriminant { type_label: "ChangeEventKind", value }),
        }
    }
}

/// Canonical change-event payload.
///
/// Both stable workbench id and incarnation are mandatory so readers can
/// re-evaluate the exact visibility marker at the event's commit version
/// without a root-wide marker scan.
#[derive(Debug, PartialEq, Eq)]
pub struct ChangeEventRecord {
    pub workbench_id: WorkbenchId,
    pub workspace_incarnation_id: WorkspaceIncarnationId,
    pub kind: ChangeEventKind,
    pub artifact_revision_id: Option<ArtifactRevisionId>,
    pub commit_id: Option<CommitId>,
    pub operation_id: Option<OperationId>,
    pub path: Option<NormalizedRelativePath>,
    pub before: TypedProjection,
    pub after: TypedProjection,
}

/// A change event with its texts and projections as sequences.
#[verifier::ext_equal]
pub struct ChangeEventView {
    pub workbench_id: Seq<char>,
    pub workspace_incarnation_id: WorkspaceIncarnationId,
    pub kind: ChangeEventKind,
    pub artifact_revision_id: Option<ArtifactRevisionId>,
    pub commit_id: Option<Seq<u8>>,
    pub operation_id: Option<OperationId>,
    pub path: Option<Seq<char>>,
    pub before: Seq<FieldView>,
    pub after: Seq<FieldView>,
}

/// An optional commit identity seen through its bytes.
pub open spec fn commit_bytes_of(id: Option<CommitId>) -> Option<Seq<u8>> {
    match id {
        None => None,
        Some(id) => Some(id.bytes@),
    }
}

/// An optional path seen through its characters.
pub open spec fn path_text(path: Option<NormalizedRelativePath>) -> Option<Seq<char>> {
    match path {
        None => None,
        Some(path) => Some(path@),
    }
}

impl View for ChangeEventRecord {
    type V = ChangeEventView;

    open spec fn view(&self) -> ChangeEventView {
        ChangeEventView {
            workbench_id: self.workbench_id@,
            workspace_incarnation_id: self.workspace_incarnation_id,
            kind: self.kind,
            artifact_revision_id: self.artifact_revision_id,
            commit_id: commit_bytes_of(self.commit_id),
            operation_id: self.operation_id,
            path: path_text(self.path),
            before: self.before@,
            after: self.after@,
        }
    }
}

/// The bits of an optional revision identity.
pub open spec fn revision_bits(id: Option<ArtifactRevisionId>) -> Option<u128> {
    match id {
        None => None,
        Some(id) => Some(id.bits),
    }
}

/// An optional 32-byte identity as stored.
pub open spec fn optional_digest_bytes(digest: Option<Seq<u8>>) -> Seq<u8> {
    match digest {
        None => seq![0u8],
        Some(digest) => seq![1u8] + digest,
    }
}

/// An optional path as stored.
pub open spec fn optional_path_bytes(path: Option<Seq<char>>) -> Seq<u8> {
    match path {
        None => seq![0u8],
        Some(path) => seq![1u8] + sized(utf8(path)),
    }
}

/// The stored form of a change event.
pub open spec fn change_event_bytes(event: ChangeEventView) -> Seq<u8> {
    seq![CHANGE_EVENT_VALUE_FORMAT_VERSION] + sized(utf8(event.workbench_id))
        + id_bytes(event.workspace_incarnation_id.bits) + seq![event.kind.spec_tag()]
        + optional_id_bytes(revision_bits(event.artifact_revision_id))
        + optional_digest_bytes(event.commit_id)
        + optional_id_bytes(optional_operation_bits(event.operation_id))
        + optional_path_bytes(event.path) + sized(projection_bytes(event.before))
        + sized(projection_bytes(event.after))
}

/// A workbench id over the scalar limit.
pub open spec fn workbench_length_fault(workbench: Seq<char>) -> Option<QueryRecordError> {
    if utf8(workbench).len() > MAX_QUERY_SCALAR_BYTES {
        Some(
            QueryRecordError::LengthLimit {
                field: "workbench_id",
                length: utf8(workbench).len() as usize,
                max: MAX_QUERY_SCALAR_BYTES,
            },
        )
    } else {
        None
    }
}

/// Why a change event cannot be stored, if it cannot.
pub open spec fn change_event_fault(event: ChangeEventView) -> Option<QueryRecordError> {
    first_fault(
        projection_fault(event.before),
        first_fault(
            projection_fault(event.after),
            first_fault(
                workbench_length_fault(event.workbench_id),
                match event.path {
                    None => None,
                    Some(path) => path_length_fault(path),
                },
            ),
        ),
    )
}

/// A workbench id.
pub open spec fn step_workbench(st: Parse<QueryRecordError>) -> (
    Seq<char>,
    Parse<QueryRecordError>,
) {
    let (bytes, s1) = step_bytes(st, "workbench_id", MAX_WORKBENCH_ID_BYTES);
    let s2 = check(
        s1,
        text_of(bytes) is Some,
        QueryRecordError::InvalidUtf8 { field: "workbench_id" },
    );
    let text = text_of(bytes).unwrap();
    let fault = workbench_id_fault(text);
    (
        text,
        check(
            s2,
            fault is None,
            QueryRecordError::InvalidWorkbenchId { reason: fault.unwrap().reason },
        ),
    )
}

/// An optional 32-byte identity.
pub open spec fn step_optional_digest(st: Parse<QueryRecordError>, field: &'static str) -> (
    Option<Seq<u8>>,
    Parse<QueryRecordError>,
) {
    let (present, s1) = step_tag(st, field);
    if s1.err is None && present {
        let (digest, s2) = step_digest(s1, field);
        (Some(digest), s2)
    } else {
        (None, s1)
    }
}

/// An optional path.
pub open spec fn step_optional_path(st: Parse<QueryRecordError>) -> (
    Option<Seq<char>>,
    Parse<QueryRecordError>,
) {
    let (tag, s1) = step_u8(st, "path_tag");
    let s2 = check(
        s1,
        tag <= 1,
        QueryRecordError::InvalidOptionalTag { field: "path", value: tag },
    );
    if s2.err is None && tag == 1 {
        let (path, s3) = step_path(s2);
        (Some(path), s3)
    } else {
        (None, s2)
    }
}

/// An embedded projection.
#[verifier::opaque]
pub open spec fn step_projection(st: Parse<QueryRecordError>, field: &'static str) -> (
    Seq<FieldView>,
    Parse<QueryRecordError>,
) {
    let (bytes, s1) = step_bytes(st, field, MAX_TYPED_PROJECTION_BYTES);
    if s1.err is Some {
        (Seq::empty(), s1)
    } else {
        match parse_projection(bytes) {
            Ok(fields) => (fields, s1),
            Err(error) => (Seq::empty(), fail(s1, error)),
        }
    }
}

/// The leading fields of an event: its workbench, incarnation and kind.
#[verifier::opaque]
pub open spec fn step_event_head(st: Parse<QueryRecordError>) -> (
    (Seq<char>, u128, ChangeEventKind),
    Parse<QueryRecordError>,
) {
    let (workbench, s1) = step_workbench(st);
    let (incarnation, s2) = step_id(s1, "workspace_incarnation_id");
    let (tag, s3) = step_u8(s2, "kind");
    let kind = ChangeEventKind::spec_from_tag(tag);
    let s4 = check(
        s3,
        kind is Some,
        QueryRecordError::UnknownDiscriminant { type_label: "ChangeEventKind", value: tag },
    );
    ((workbench, incarnation, kind.unwrap()), s4)
}

/// What an event refers to: a revision, a commit, an operation and a path.
#[verifier::opaque]
pub open spec fn step_event_refs(st: Parse<QueryRecordError>) -> (
    (Option<u128>, Option<Seq<u8>>, Option<u128>, Option<Seq<char>>),
    Parse<QueryRecordError>,
) {
    let (revision, s1) = step_optional_id(st, "artifact_revision_id");
    let (commit, s2) = step_optional_digest(s1, "commit_id");
    let (operation, s3) = step_optional_id(s2, "operation_id");
    let (path, s4) = step_optional_path(s3);
    ((revision, commit, operation, path), s4)
}

/// The change event that a payload holds, or why it holds none.
pub open spec fn parse_change_event(bytes: Seq<u8>) -> Result<ChangeEventView, QueryRecordError> {
    let s0 = step_query_version(start(bytes), CHANGE_EVENT_VALUE_FORMAT_VERSION);
    let ((workbench, incarnation, kind), s1) = step_event_head(s0);
    let ((revision, commit, operation, path), s2) = step_event_refs(s1);
    let (before, s3) = step_projection(s2, "before");
    let (after, s4) = step_projection(s3, "after");
    outcome(
        step_end(s4),
        ChangeEventView {
            workbench_id: workbench,
            workspace_incarnation_id: WorkspaceIncarnationId { bits: incarnation },
            kind,
            artifact_revision_id: match revision {
                None => None,
                Some(bits) => Some(ArtifactRevisionId { bits }),
            },
            commit_id: commit,
            operation_id: match operation {
                None => None,
                Some(bits) => Some(OperationId { bits }),
            },
            path,
            before,
            after,
        },
    )
}

fn read_workbench(reader: &mut Reader) -> (result: Result<WorkbenchId, QueryRecordError>)
    requires
        old(reader).wf(),
    ensures
        final(reader).wf(),
        match result {
            Ok(value) => {
                &&& step_workbench(start(old(reader).rest())).0 == value@
                &&& stepped(step_workbench(start(old(reader).rest())).1, *final(reader))
            },
            Err(error) => step_workbench(start(old(reader).rest())).1.err == Some(error),
        },
{
    let bytes: &[u8] = reader.bytes("workbench_id", MAX_WORKBENCH_ID_BYTES)?;
    let text: String = match read_text(bytes) {
        None => {
            return Err(QueryRecordError::InvalidUtf8 { field: "workbench_id" });
        },
        Some(text) => text,
    };
    match WorkbenchId::new(text.as_str()) {
        Err(error) => Err(QueryRecordError::InvalidWorkbenchId { reason: error.reason }),
        Ok(id) => Ok(id),
    }
}

fn read_optional_commit(reader: &mut Reader) -> (result: Result<Option<CommitId>, QueryRecordError>)
    requires
        old(reader).wf(),
    ensures
        final(reader).wf(),
        match result {
            Ok(value) => {
                &&& step_optional_digest(start(old(reader).rest()), "commit_id").0
                    == commit_bytes_of(value)
                &&& stepped(
                    step_optional_digest(start(old(reader).rest()), "commit_id").1,
                    *final(reader),
                )
            },
            Err(error) => step_optional_digest(start(old(reader).rest()), "commit_id").1.err
                == Some(error),
        },
{
    let present: bool = reader.tag("commit_id")?;
    if present {
        let bytes: [u8; 32] = reader.digest("commit_id")?;
        Ok(Some(CommitId { bytes }))
    } else {
        Ok(None)
    }
}

fn read_optional_path(reader: &mut Reader) -> (result: Result<
    Option<NormalizedRelativePath>,
    QueryRecordError,
>)
    requires
        old(reader).wf(),
    ensures
        final(reader).wf(),
        match result {
            Ok(value) => {
                &&& step_optional_path(start(old(reader).rest())).0 == path_text(value)
                &&& stepped(step_optional_path(start(old(reader).rest())).1, *final(reader))
            },
            Err(error) => step_optional_path(start(old(reader).rest())).1.err == Some(error),
        },
{
    let tag: u8 = reader.u8("path_tag")?;
    if tag == 0 {
        Ok(None)
    } else if tag == 1 {
        let path: NormalizedRelativePath = read_path(reader)?;
        Ok(Some(path))
    } else {
        Err(QueryRecordError::InvalidOptionalTag { field: "path", value: tag })
    }
}

/// After a failure nothing is read.
broadcast proof fn lemma_projection_after_failure(
    st: Parse<QueryRecordError>,
    field: &'static str,
)
    requires
        st.err is Some,
    ensures
        (#[trigger] step_projection(st, field)).1 == st,
{
    reveal(step_projection);
}

fn read_projection(reader: &mut Reader, field: &'static str) -> (result: Result<
    TypedProjection,
    QueryRecordError,
>)
    requires
        old(reader).wf(),
    ensures
        final(reader).wf(),
        match result {
            Ok(value) => {
                &&& value.wf()
                &&& step_projection(start(old(reader).rest()), field).0 == value@
                &&& stepped(step_projection(start(old(reader).rest()), field).1, *final(reader))
            },
            Err(error) => step_projection(start(old(reader).rest()), field).1.err == Some(error),
        },
{
    proof {
        reveal(step_projection);
    }
    let bytes: &[u8] = reader.bytes(field, MAX_TYPED_PROJECTION_BYTES)?;
    TypedProjection::decode(bytes)
}

impl ChangeEventRecord {
    pub fn encode(&self) -> (result: Result<Vec<u8>, QueryRecordError>)
        ensures
            match result {
                Ok(bytes) => change_event_fault(self@) is None && bytes@ == change_event_bytes(
                    self@,
                ),
                Err(error) => change_event_fault(self@) == Some(error),
            },
    {
        let before: Vec<u8> = self.before.encode()?;
        let after: Vec<u8> = self.after.encode()?;
        let mut out: Vec<u8> = vec![CHANGE_EVENT_VALUE_FORMAT_VERSION];
        assert(out@ =~= seq![CHANGE_EVENT_VALUE_FORMAT_VERSION]);
        let workbench: &[u8] = self.workbench_id.as_bytes();
        if workbench.len() > MAX_QUERY_SCALAR_BYTES {
            return Err(
                QueryRecordError::LengthLimit {
                    field: "workbench_id",
                    length: workbench.len(),
                    max: MAX_QUERY_SCALAR_BYTES,
                },
            );
        }
        put_sized(&mut out, workbench);
        put_be(&mut out, self.workspace_incarnation_id.bits, 16);
        put_byte(&mut out, self.kind.tag());
        let revision: Option<u128> = match self.artifact_revision_id {
            None => None,
            Some(id) => Some(id.bits),
        };
        put_optional_id(&mut out, revision);
        let ghost here = out@;
        match self.commit_id {
            None => {
                put_byte(&mut out, 0);
            },
            Some(id) => {
                put_byte(&mut out, 1);
                put_slice(&mut out, id.bytes.as_slice());
                proof {
                    lemma_concat_assoc(here, seq![1u8], id.bytes@);
                }
            },
        }
        let operation: Option<u128> = match self.operation_id {
            None => None,
            Some(id) => Some(id.bits),
        };
        put_optional_id(&mut out, operation);
        let ghost here = out@;
        match &self.path {
            None => {
                put_byte(&mut out, 0);
            },
            Some(path) => {
                put_byte(&mut out, 1);
                put_path(&mut out, path)?;
                proof {
                    lemma_concat_assoc(here, seq![1u8], sized(utf8(path@)));
                }
            },
        }
        put_sized(&mut out, before.as_slice());
        put_sized(&mut out, after.as_slice());
        Ok(out)
    }

    pub fn decode(encoded: &[u8]) -> (result: Result<ChangeEventRecord, QueryRecordError>)
        ensures
            viewed(result) == parse_change_event(encoded@),
            result is Ok ==> result.unwrap().before.wf() && result.unwrap().after.wf(),
    {
        broadcast use lemma_projection_after_failure;

        proof {
            reveal(step_event_head);
            reveal(step_event_refs);
        }
        let mut reader = Reader::new(encoded);
        read_version(&mut reader, CHANGE_EVENT_VALUE_FORMAT_VERSION)?;
        let workbench_id: WorkbenchId = read_workbench(&mut reader)?;
        let incarnation: u128 = reader.id("workspace_incarnation_id")?;
        let tag: u8 = reader.u8("kind")?;
        let kind: ChangeEventKind = ChangeEventKind::try_from(tag)?;
        let revision: Option<u128> = reader.optional_id("artifact_revision_id")?;
        let commit_id: Option<CommitId> = read_optional_commit(&mut reader)?;
        let operation: Option<u128> = reader.optional_id("operation_id")?;
        let path: Option<NormalizedRelativePath> = read_optional_path(&mut reader)?;
        let before: TypedProjection = read_projection(&mut reader, "before")?;
        let after: TypedProjection = read_projection(&mut reader, "after")?;
        reader.end()?;
        Ok(
            ChangeEventRecord {
                workbench_id,
                workspace_incarnation_id: WorkspaceIncarnationId { bits: incarnation },
                kind,
                artifact_revision_id: match revision {
                    None => None,
                    Some(bits) => Some(ArtifactRevisionId { bits }),
                },
                commit_id,
                operation_id: match operation {
                    None => None,
                    Some(bits) => Some(OperationId { bits }),
                },
                path,
                before,
                after,
            },
        )
    }
}

/// The names, projections and identities of an event are valid.
pub open spec fn change_event_valid(event: ChangeEventView) -> bool {
    &&& workbench_id_fault(event.workbench_id) is None
    &&& event.commit_id is Some ==> event.commit_id.unwrap().len() == 32
    &&& event.path is Some ==> path_fault(event.path.unwrap()) is None
    &&& projection_valid(event.before)
    &&& projection_valid(event.after)
}

/// Fields that can be stored: sorted, without fault, floats canonical.
pub open spec fn projection_valid(fields: Seq<FieldView>) -> bool {
    projection_fault(fields) is None && fields_sorted(fields) && floats_canonical(fields)
}

proof fn lemma_workbench_back(workbench: Seq<char>, tail: Seq<u8>)
    requires
        workbench_id_fault(workbench) is None,
    ensures
        step_workbench(start(sized(utf8(workbench)) + tail)) == (
            workbench,
            start::<QueryRecordError>(tail),
        ),
{
    broadcast use crate::text::lemma_text_of_utf8;

    crate::wire::lemma_bytes_back::<QueryRecordError>(
        utf8(workbench),
        tail,
        "workbench_id",
        MAX_WORKBENCH_ID_BYTES,
    );
}

proof fn lemma_projection_back(fields: Seq<FieldView>, tail: Seq<u8>, field: &'static str)
    requires
        projection_valid(fields),
    ensures
        step_projection(start(sized(projection_bytes(fields)) + tail), field) == (
            fields,
            start::<QueryRecordError>(tail),
        ),
{
    reveal(step_projection);
    projection_round_trip(fields);
    crate::wire::lemma_bytes_back::<QueryRecordError>(
        projection_bytes(fields),
        tail,
        field,
        MAX_TYPED_PROJECTION_BYTES,
    );
}

proof fn lemma_kind_tag(kind: ChangeEventKind)
    ensures
        ChangeEventKind::spec_from_tag(kind.spec_tag()) == Some(kind),
{
}

proof fn lemma_optional_digest_back(digest: Option<Seq<u8>>, tail: Seq<u8>, field: &'static str)
    requires
        digest is Some ==> digest.unwrap().len() == 32,
    ensures
        step_optional_digest(start(optional_digest_bytes(digest) + tail), field) == (
            digest,
            start::<QueryRecordError>(tail),
        ),
{
    broadcast use crate::wire::group_read_back;

}

proof fn lemma_optional_path_back(path: Option<Seq<char>>, tail: Seq<u8>)
    requires
        path is Some ==> path_fault(path.unwrap()) is None,
    ensures
        step_optional_path(start(optional_path_bytes(path) + tail)) == (
            path,
            start::<QueryRecordError>(tail),
        ),
{
    match path {
        None => {
            crate::wire::lemma_u8_back::<QueryRecordError>(0, tail, "path_tag");
        },
        Some(path) => {
            lemma_concat_assoc(seq![1u8], sized(utf8(path)), tail);
            crate::wire::lemma_u8_back::<QueryRecordError>(
                1,
                sized(utf8(path)) + tail,
                "path_tag",
            );
            lemma_path_back(path, tail);
        },
    }
}

proof fn lemma_event_head_back(
    workbench: Seq<char>,
    incarnation: u128,
    kind: ChangeEventKind,
    tail: Seq<u8>,
)
    requires
        workbench_id_fault(workbench) is None,
    ensures
        step_event_head(
            start(sized(utf8(workbench)) + (id_bytes(incarnation) + (seq![kind.spec_tag()] + tail))),
        ) == ((workbench, incarnation, kind), start::<QueryRecordError>(tail)),
{
    reveal(step_event_head);
    let t2 = seq![kind.spec_tag()] + tail;
    let t1 = id_bytes(incarnation) + t2;
    lemma_workbench_back(workbench, t1);
    crate::wire::lemma_id_back::<QueryRecordError>(incarnation, t2, "workspace_incarnation_id");
    crate::wire::lemma_u8_back::<QueryRecordError>(kind.spec_tag(), tail, "kind");
    lemma_kind_tag(kind);
}

proof fn lemma_event_refs_back(
    revision: Option<u128>,
    commit: Option<Seq<u8>>,
    operation: Option<u128>,
    path: Option<Seq<char>>,
    tail: Seq<u8>,
)
    requires
        commit is Some ==> commit.unwrap().len() == 32,
        path is Some ==> path_fault(path.unwrap()) is None,
    ensures
        step_event_refs(
            start(
                optional_id_bytes(revision) + (optional_digest_bytes(commit) + (optional_id_bytes(
                    operation,
                ) + (optional_path_bytes(path) + tail))),
            ),
        ) == ((revision, commit, operation, path), start::<QueryRecordError>(tail)),
{
    reveal(step_event_refs);
    let t3 = optional_path_bytes(path) + tail;
    let t2 = optional_id_bytes(operation) + t3;
    let t1 = optional_digest_bytes(commit) + t2;
    crate::wire::lemma_optional_id_back::<QueryRecordError>(revision, t1, "artifact_revision_id");
    lemma_optional_digest_back(commit, t2, "commit_id");
    crate::wire::lemma_optional_id_back::<QueryRecordError>(operation, t3, "operation_id");
    lemma_optional_path_back(path, tail);
}

/// A valid change event is read back as it was written.
pub proof fn change_event_round_trip(event: ChangeEventView)
    requires
        change_event_valid(event),
    ensures
        change_event_fault(event) is None,
        parse_change_event(change_event_bytes(event)) == Ok::<_, QueryRecordError>(event),
{
    let p0 = seq![CHANGE_EVENT_VALUE_FORMAT_VERSION];
    let p1 = p0 + sized(utf8(event.workbench_id));
    let p2 = p1 + id_bytes(event.workspace_incarnation_id.bits);
    let p3 = p2 + seq![event.kind.spec_tag()];
    let p4 = p3 + optional_id_bytes(revision_bits(event.artifact_revision_id));
    let p5 = p4 + optional_digest_bytes(event.commit_id);
    let p6 = p5 + optional_id_bytes(optional_operation_bits(event.operation_id));
    let p7 = p6 + optional_path_bytes(event.path);
    let p8 = p7 + sized(projection_bytes(event.before));
    let p9 = p8 + sized(projection_bytes(event.after));
    let t10 = Seq::<u8>::empty();
    let t9 = sized(projection_bytes(event.after)) + t10;
    let t8 = sized(projection_bytes(event.before)) + t9;
    let t7 = optional_path_bytes(event.path) + t8;
    let t6 = optional_id_bytes(optional_operation_bits(event.operation_id)) + t7;
    let t5 = optional_digest_bytes(event.commit_id) + t6;
    let t4 = optional_id_bytes(revision_bits(event.artifact_revision_id)) + t5;
    let t3 = seq![event.kind.spec_tag()] + t4;
    let t2 = id_bytes(event.workspace_incarnation_id.bits) + t3;
    let t1 = sized(utf8(event.workbench_id)) + t2;
    lemma_concat_empty(p9);
    lemma_concat_assoc(p8, sized(projection_bytes(event.after)), t10);
    lemma_concat_assoc(p7, sized(projection_bytes(event.before)), t9);
    lemma_concat_assoc(p6, optional_path_bytes(event.path), t8);
    lemma_concat_assoc(p5, optional_id_bytes(optional_operation_bits(event.operation_id)), t7);
    lemma_concat_assoc(p4, optional_digest_bytes(event.commit_id), t6);
    lemma_concat_assoc(p3, optional_id_bytes(revision_bits(event.artifact_revision_id)), t5);
    lemma_concat_assoc(p2, seq![event.kind.spec_tag()], t4);
    lemma_concat_assoc(p1, id_bytes(event.workspace_incarnation_id.bits), t3);
    lemma_concat_assoc(p0, sized(utf8(event.workbench_id)), t2);
    assert(change_event_bytes(event) == p0 + t1);
    crate::wire::lemma_u8_back::<QueryRecordError>(
        CHANGE_EVENT_VALUE_FORMAT_VERSION,
        t1,
        "value_format_version",
    );
    lemma_event_head_back(
        event.workbench_id,
        event.workspace_incarnation_id.bits,
        event.kind,
        t4,
    );
    lemma_event_refs_back(
        revision_bits(event.artifact_revision_id),
        event.commit_id,
        optional_operation_bits(event.operation_id),
        event.path,
        t8,
    );
    lemma_projection_back(event.before, t9, "before");
    lemma_projection_back(event.after, t10, "after");
    let s0 = step_query_version(start(p0 + t1), CHANGE_EVENT_VALUE_FORMAT_VERSION);
    assert(s0 == start::<QueryRecordError>(t1));
    assert(step_end(start::<QueryRecordError>(t10)) == start::<QueryRecordError>(t10));
}

proof fn lemma_projection_split(st: Parse<QueryRecordError>, field: &'static str)
    ensures
        step_projection(st, field).1.err is None ==> {
            let (fields, next) = step_projection(st, field);
            &&& st.err is None
            &&& projection_valid(fields)
            &&& st.rest == sized(projection_bytes(fields)) + next.rest
        },
{
    broadcast use crate::wire::lemma_bytes_split;

    reveal(step_projection);
    let (bytes, s1) = step_bytes(st, field, MAX_TYPED_PROJECTION_BYTES);
    if parse_projection(bytes) is Ok {
        projection_canonical(bytes);
    }
}

proof fn lemma_workbench_split(st: Parse<QueryRecordError>)
    ensures
        step_workbench(st).1.err is None ==> {
            let (workbench, next) = step_workbench(st);
            &&& st.err is None
            &&& workbench_id_fault(workbench) is None
            &&& st.rest == sized(utf8(workbench)) + next.rest
        },
{
    broadcast use crate::wire::lemma_bytes_split, crate::text::lemma_utf8_text_of;

}

proof fn lemma_optional_digest_split(st: Parse<QueryRecordError>, field: &'static str)
    ensures
        step_optional_digest(st, field).1.err is None ==> {
            let (digest, next) = step_optional_digest(st, field);
            &&& st.err is None
            &&& digest is Some ==> digest.unwrap().len() == 32
            &&& st.rest == optional_digest_bytes(digest) + next.rest
        },
{
    broadcast use crate::wire::group_split, crate::wire::lemma_concat_assoc;

}

proof fn lemma_optional_path_split(st: Parse<QueryRecordError>)
    ensures
        step_optional_path(st).1.err is None ==> {
            let (path, next) = step_optional_path(st);
            &&& st.err is None
            &&& path is Some ==> path_fault(path.unwrap()) is None
            &&& st.rest == optional_path_bytes(path) + next.rest
        },
{
    broadcast use crate::wire::lemma_u8_split, crate::wire::lemma_concat_assoc;

    let (tag, s1) = step_u8(st, "path_tag");
    let s2 = check(
        s1,
        tag <= 1,
        QueryRecordError::InvalidOptionalTag { field: "path", value: tag },
    );
    lemma_path_split(s2);
}

/// Ten parts, each followed by what comes after it, make up the whole.
proof fn lemma_ten_parts(bytes: Seq<u8>, parts: Seq<Seq<u8>>, rests: Seq<Seq<u8>>)
    requires
        parts.len() == 10,
        rests.len() == 10,
        bytes == parts[0] + rests[0],
        rests[0] == parts[1] + rests[1],
        rests[1] == parts[2] + rests[2],
        rests[2] == parts[3] + rests[3],
        rests[3] == parts[4] + rests[4],
        rests[4] == parts[5] + rests[5],
        rests[5] == parts[6] + rests[6],
        rests[6] == parts[7] + rests[7],
        rests[7] == parts[8] + rests[8],
        rests[8] == parts[9] + rests[9],
        rests[9] == Seq::<u8>::empty(),
    ensures
        bytes == parts[0] + parts[1] + parts[2] + parts[3] + parts[4] + parts[5] + parts[6] + parts[7] + parts[8] + parts[9],
{
    let p0 = parts[0];
    let p1 = p0 + parts[1];
    lemma_concat_assoc(p0, parts[1], rests[1]);
    let p2 = p1 + parts[2];
    lemma_concat_assoc(p1, parts[2], rests[2]);
    let p3 = p2 + parts[3];
    lemma_concat_assoc(p2, parts[3], rests[3]);
    let p4 = p3 + parts[4];
    lemma_concat_assoc(p3, parts[4], rests[4]);
    let p5 = p4 + parts[5];
    lemma_concat_assoc(p4, parts[5], rests[5]);
    let p6 = p5 + parts[6];
    lemma_concat_assoc(p5, parts[6], rests[6]);
    let p7 = p6 + parts[7];
    lemma_concat_assoc(p6, parts[7], rests[7]);
    let p8 = p7 + parts[8];
    lemma_concat_assoc(p7, parts[8], rests[8]);
    let p9 = p8 + parts[9];
    lemma_concat_assoc(p8, parts[9], rests[9]);
    lemma_concat_empty(p9);
}

proof fn lemma_event_head_split(st: Parse<QueryRecordError>)
    ensures
        step_event_head(st).1.err is None ==> {
            let ((workbench, incarnation, kind), next) = step_event_head(st);
            &&& st.err is None
            &&& workbench_id_fault(workbench) is None
            &&& st.rest == sized(utf8(workbench)) + (id_bytes(incarnation) + (
            seq![kind.spec_tag()] + next.rest))
        },
{
    reveal(step_event_head);
    let (workbench, s1) = step_workbench(st);
    let (incarnation, s2) = step_id(s1, "workspace_incarnation_id");
    lemma_workbench_split(st);
    crate::wire::lemma_id_split(s1, "workspace_incarnation_id");
    crate::wire::lemma_u8_split(s2, "kind");
}

proof fn lemma_event_refs_split(st: Parse<QueryRecordError>)
    ensures
        step_event_refs(st).1.err is None ==> {
            let ((revision, commit, operation, path), next) = step_event_refs(st);
            &&& st.err is None
            &&& commit is Some ==> commit.unwrap().len() == 32
            &&& path is Some ==> path_fault(path.unwrap()) is None
            &&& st.rest == optional_id_bytes(revision) + (optional_digest_bytes(commit) + (
            optional_id_bytes(operation) + (optional_path_bytes(path) + next.rest)))
        },
{
    reveal(step_event_refs);
    let (revision, s1) = step_optional_id(st, "artifact_revision_id");
    let (commit, s2) = step_optional_digest(s1, "commit_id");
    let (operation, s3) = step_optional_id(s2, "operation_id");
    crate::wire::lemma_optional_id_split(st, "artifact_revision_id");
    lemma_optional_digest_split(s1, "commit_id");
    crate::wire::lemma_optional_id_split(s2, "operation_id");
    lemma_optional_path_split(s3);
}

/// Every accepted change-event payload is the one stored form of a valid
/// event.
pub proof fn change_event_canonical(bytes: Seq<u8>)
    requires
        parse_change_event(bytes) is Ok,
    ensures
        bytes == change_event_bytes(parse_change_event(bytes).unwrap()),
        change_event_valid(parse_change_event(bytes).unwrap()),
{
    let s0 = step_query_version(start(bytes), CHANGE_EVENT_VALUE_FORMAT_VERSION);
    let ((workbench, incarnation, kind), s1) = step_event_head(s0);
    let ((revision, commit, operation, path), s2) = step_event_refs(s1);
    let (before, s3) = step_projection(s2, "before");
    let (after, s4) = step_projection(s3, "after");
    let event = parse_change_event(bytes).unwrap();
    lemma_projection_split(s3, "after");
    lemma_projection_split(s2, "before");
    lemma_event_refs_split(s1);
    lemma_event_head_split(s0);
    crate::wire::lemma_u8_split(start::<QueryRecordError>(bytes), "value_format_version");
    assert(s4.rest =~= Seq::<u8>::empty());
    let r8 = s2.rest;
    let r7 = optional_path_bytes(path) + r8;
    let r6 = optional_id_bytes(operation) + r7;
    let r5 = optional_digest_bytes(commit) + r6;
    let r4 = s1.rest;
    let r3 = seq![kind.spec_tag()] + r4;
    let r2 = id_bytes(incarnation) + r3;
    lemma_ten_parts(
        bytes,
        seq![
            seq![CHANGE_EVENT_VALUE_FORMAT_VERSION],
            sized(utf8(workbench)),
            id_bytes(incarnation),
            seq![kind.spec_tag()],
            optional_id_bytes(revision),
            optional_digest_bytes(commit),
            optional_id_bytes(operation),
            optional_path_bytes(path),
            sized(projection_bytes(before)),
            sized(projection_bytes(after)),
        ],
        seq![s0.rest, r2, r3, r4, r5, r6, r7, r8, s3.rest, s4.rest],
    );
    assert(revision_bits(event.artifact_revision_id) == revision);
    assert(optional_operation_bits(event.operation_id) == operation);
}

} // verus!
