//! Durable workspace payload records used by atomic artifact publication.
//!
//! These codecs encode only family-owned payload fields. Creation and
//! modification versions belong to the surrounding row envelope and are never
//! repeated here.

use crate::be::{be_bytes, copy_bytes, put_be, put_slice};
use crate::ids::{id_bytes, ArtifactRevisionId, CommitVersion, GcClaimState, Generation,
    OperationId, PathIndexGenerationId, ReferenceEpoch, RevisionState, WorkspaceIncarnationId,
    WorkspaceRevision, WorkspaceState};
use crate::text::{find_byte, first_index_of, read_text, text_of, utf8, workbench_id_fault,
    WorkbenchId, MAX_WORKBENCH_ID_BYTES};
use crate::wire::{check, fail, lemma_concat_assoc, lemma_concat_empty, optional_id_bytes, outcome,
    put_byte, put_optional_id, put_sized, sized, start, step_bytes, step_digest, step_end, step_id,
    step_optional_id, step_tag, step_u32, step_u64, step_u8, stepped, viewed, Parse, Reader,
    WireError};
use vstd::prelude::*;

verus! {

/// Only supported value format for publication payload records.
pub const PUBLICATION_VALUE_FORMAT_VERSION: u8 = 3;

/// Maximum encoded digest URI length.
pub const MAX_DIGEST_URI_BYTES: usize = 256;

/// Maximum encoded content type length.
pub const MAX_CONTENT_TYPE_BYTES: usize = 255;

/// Maximum encoded producer/provenance summary length.
pub const MAX_PRODUCER_BYTES: usize = 512;

/// Maximum encoded provider-neutral manifest id length.
pub const MAX_MANIFEST_ID_BYTES: usize = 1_024;

/// Maximum canonical typed secondary-index projection length.
pub const MAX_INDEX_PROJECTION_BYTES: usize = 65_536;

/// Maximum retained provider quarantine evidence length.
pub const MAX_QUARANTINE_EVIDENCE_BYTES: usize = 4_096;

/// Maximum number of distinct physical owner revisions retained by a child.
pub const MAX_DEPENDENCY_COUNT: u32 = 64;

/// Maximum sealed artifact-revision dependency depth.
pub const MAX_DEPENDENCY_DEPTH: u8 = 8;

/// Strict publication-record encode or decode failure.
#[allow(inconsistent_fields)]
#[derive(Clone, Copy, Debug, PartialEq, Eq)]
pub enum PublicationRecordCodecError {
    UnsupportedValueVersion { actual: u8, expected: u8 },
    UnknownDiscriminant { type_label: &'static str, value: u8 },
    ZeroScalar { field: &'static str },
    InvalidOptionalTag { field: &'static str, value: u8 },
    LengthLimit { field: &'static str, length: usize, max: usize },
    InvalidUtf8 { field: &'static str },
    InvalidWorkbenchId { reason: &'static str },
    EmptyString { field: &'static str },
    ContainsNul { field: &'static str, index: usize },
    DependencyCountLimit { count: u32, max: u32 },
    DependencyDepthLimit { depth: u8, max: u8 },
    InvalidDependencyShape,
    Truncated { field: &'static str, needed: usize, remaining: usize },
    TrailingBytes { count: usize },
}

impl WireError for PublicationRecordCodecError {
    open spec fn spec_truncated(field: &'static str, needed: usize, remaining: usize) -> Self {
        PublicationRecordCodecError::Truncated { field, needed, remaining }
    }

    open spec fn spec_trailing(count: usize) -> Self {
        PublicationRecordCodecError::TrailingBytes { count }
    }

    open spec fn spec_length_limit(field: &'static str, length: usize, max: usize) -> Self {
        PublicationRecordCodecError::LengthLimit { field, length, max }
    }

    open spec fn spec_optional_tag(field: &'static str, value: u8) -> Self {
        PublicationRecordCodecError::InvalidOptionalTag { field, value }
    }

    open spec fn spec_unknown_discriminant(type_label: &'static str, value: u8) -> Self {
        PublicationRecordCodecError::UnknownDiscriminant { type_label, value }
    }

    open spec fn spec_zero_scalar(field: &'static str) -> Self {
        PublicationRecordCodecError::ZeroScalar { field }
    }

    fn truncated(field: &'static str, needed: usize, remaining: usize) -> (error: Self) {
        PublicationRecordCodecError::Truncated { field, needed, remaining }
    }

    fn trailing(count: usize) -> (error: Self) {
        PublicationRecordCodecError::TrailingBytes { count }
    }

    fn length_limit(field: &'static str, length: usize, max: usize) -> (error: Self) {
        PublicationRecordCodecError::LengthLimit { field, length, max }
    }

    fn optional_tag(field: &'static str, value: u8) -> (error: Self) {
        PublicationRecordCodecError::InvalidOptionalTag { field, value }
    }

    fn unknown_discriminant(type_label: &'static str, value: u8) -> (error: Self) {
        PublicationRecordCodecError::UnknownDiscriminant { type_label, value }
    }

    fn zero_scalar(field: &'static str) -> (error: Self) {
        PublicationRecordCodecError::ZeroScalar { field }
    }
}

/// The first of two faults.
pub open spec fn first_fault<E>(first: Option<E>, second: Option<E>) -> Option<E> {
    if first is Some {
        first
    } else {
        second
    }
}

/// Fails with `fault` if there is one.
pub open spec fn check_fault<E>(st: Parse<E>, fault: Option<E>) -> Parse<E> {
    if st.err is None && fault is Some {
        fail(st, fault.unwrap())
    } else {
        st
    }
}

/// A byte string over its limit.
pub open spec fn length_fault(field: &'static str, length: nat, max: usize) -> Option<
    PublicationRecordCodecError,
> {
    if length > max {
        Some(
            PublicationRecordCodecError::LengthLimit { field, length: length as usize, max },
        )
    } else {
        None
    }
}

/// A required text, by its UTF-8 bytes: within its limit, without NUL, not
/// empty, in this order.
pub open spec fn string_fault(field: &'static str, bytes: Seq<u8>, max: usize) -> Option<
    PublicationRecordCodecError,
> {
    if bytes.len() > max {
        Some(
            PublicationRecordCodecError::LengthLimit { field, length: bytes.len() as usize, max },
        )
    } else if first_index_of(bytes, 0) < bytes.len() {
        Some(
            PublicationRecordCodecError::ContainsNul {
                field,
                index: first_index_of(bytes, 0) as usize,
            },
        )
    } else if bytes.len() == 0 {
        Some(PublicationRecordCodecError::EmptyString { field })
    } else {
        None
    }
}

/// An optional text: absent, or as a required one.
pub open spec fn optional_string_fault(
    field: &'static str,
    text: Option<Seq<char>>,
    max: usize,
) -> Option<PublicationRecordCodecError> {
    match text {
        None => None,
        Some(text) => string_fault(field, utf8(text), max),
    }
}

/// Dependency count and depth are bounded, and both zero or both positive.
pub open spec fn dependency_fault(count: u32, depth: u8) -> Option<PublicationRecordCodecError> {
    if count > MAX_DEPENDENCY_COUNT {
        Some(
            PublicationRecordCodecError::DependencyCountLimit { count, max: MAX_DEPENDENCY_COUNT },
        )
    } else if depth > MAX_DEPENDENCY_DEPTH {
        Some(
            PublicationRecordCodecError::DependencyDepthLimit { depth, max: MAX_DEPENDENCY_DEPTH },
        )
    } else if (count == 0) != (depth == 0) {
        Some(PublicationRecordCodecError::InvalidDependencyShape)
    } else {
        None
    }
}

/// An optional text as stored.
pub open spec fn optional_text_bytes(text: Option<Seq<char>>) -> Seq<u8> {
    match text {
        None => seq![0u8],
        Some(text) => seq![1u8] + sized(utf8(text)),
    }
}

/// An optional byte string as stored.
pub open spec fn optional_sized_bytes(bytes: Option<Seq<u8>>) -> Seq<u8> {
    match bytes {
        None => seq![0u8],
        Some(bytes) => seq![1u8] + sized(bytes),
    }
}

/// An optional commit version as stored.
pub open spec fn optional_version_bytes(version: Option<CommitVersion>) -> Seq<u8> {
    match version {
        None => seq![0u8],
        Some(version) => seq![1u8] + be_bytes(version.value as nat, 8),
    }
}

/// The supported format version stands first.
pub open spec fn step_version(st: Parse<PublicationRecordCodecError>) -> Parse<
    PublicationRecordCodecError,
> {
    let (actual, s1) = step_u8(st, "value_format_version");
    check(
        s1,
        actual == PUBLICATION_VALUE_FORMAT_VERSION,
        PublicationRecordCodecError::UnsupportedValueVersion {
            actual,
            expected: PUBLICATION_VALUE_FORMAT_VERSION,
        },
    )
}

/// A positive commit version.
pub open spec fn step_commit_version(
    st: Parse<PublicationRecordCodecError>,
    field: &'static str,
) -> (CommitVersion, Parse<PublicationRecordCodecError>) {
    let (value, s1) = step_u64(st, field);
    (
        CommitVersion { value },
        check(s1, value != 0, PublicationRecordCodecError::ZeroScalar { field }),
    )
}

/// A required text.
pub open spec fn step_string(
    st: Parse<PublicationRecordCodecError>,
    field: &'static str,
    max: usize,
) -> (Seq<char>, Parse<PublicationRecordCodecError>) {
    let (bytes, s1) = step_bytes(st, field, max);
    let s2 = check(
        s1,
        text_of(bytes) is Some,
        PublicationRecordCodecError::InvalidUtf8 { field },
    );
    (text_of(bytes).unwrap(), check_fault(s2, string_fault(field, bytes, max)))
}

/// An optional text.
pub open spec fn step_optional_string(
    st: Parse<PublicationRecordCodecError>,
    field: &'static str,
    max: usize,
) -> (Option<Seq<char>>, Parse<PublicationRecordCodecError>) {
    let (present, s1) = step_tag(st, field);
    if s1.err is None && present {
        let (text, s2) = step_string(s1, field, max);
        (Some(text), s2)
    } else {
        (None, s1)
    }
}

/// An optional byte string.
pub open spec fn step_optional_bytes(
    st: Parse<PublicationRecordCodecError>,
    field: &'static str,
    max: usize,
) -> (Option<Seq<u8>>, Parse<PublicationRecordCodecError>) {
    let (present, s1) = step_tag(st, field);
    if s1.err is None && present {
        let (bytes, s2) = step_bytes(s1, field, max);
        (Some(bytes), s2)
    } else {
        (None, s1)
    }
}

/// An optional positive commit version.
pub open spec fn step_optional_version(
    st: Parse<PublicationRecordCodecError>,
    field: &'static str,
) -> (Option<CommitVersion>, Parse<PublicationRecordCodecError>) {
    let (present, s1) = step_tag(st, field);
    if s1.err is None && present {
        let (version, s2) = step_commit_version(s1, field);
        (Some(version), s2)
    } else {
        (None, s1)
    }
}

fn read_version(reader: &mut Reader) -> (result: Result<(), PublicationRecordCodecError>)
    requires
        old(reader).wf(),
    ensures
        final(reader).wf(),
        match result {
            Ok(_) => stepped(step_version(start(old(reader).rest())), *final(reader)),
            Err(error) => step_version(start(old(reader).rest())).err == Some(error),
        },
{
    let actual: u8 = reader.u8("value_format_version")?;
    if actual != PUBLICATION_VALUE_FORMAT_VERSION {
        return Err(
            PublicationRecordCodecError::UnsupportedValueVersion {
                actual,
                expected: PUBLICATION_VALUE_FORMAT_VERSION,
            },
        );
    }
    Ok(())
}

fn read_commit_version(reader: &mut Reader, field: &'static str) -> (result: Result<
    CommitVersion,
    PublicationRecordCodecError,
>)
    requires
        old(reader).wf(),
    ensures
        final(reader).wf(),
        match result {
            Ok(value) => {
                &&& step_commit_version(start(old(reader).rest()), field).0 == value
                &&& stepped(step_commit_version(start(old(reader).rest()), field).1, *final(reader))
            },
            Err(error) => step_commit_version(start(old(reader).rest()), field).1.err == Some(
                error,
            ),
        },
{
    let value: u64 = reader.u64(field)?;
    if value == 0 {
        return Err(PublicationRecordCodecError::ZeroScalar { field });
    }
    Ok(CommitVersion { value })
}

fn check_length(field: &'static str, length: usize, max: usize) -> (result: Result<
    (),
    PublicationRecordCodecError,
>)
    ensures
        match result {
            Ok(_) => length_fault(field, length as nat, max) is None,
            Err(error) => length_fault(field, length as nat, max) == Some(error),
        },
{
    if length > max {
        return Err(PublicationRecordCodecError::LengthLimit { field, length, max });
    }
    Ok(())
}

fn check_string(field: &'static str, bytes: &[u8], max: usize) -> (result: Result<
    (),
    PublicationRecordCodecError,
>)
    ensures
        match result {
            Ok(_) => string_fault(field, bytes@, max) is None,
            Err(error) => string_fault(field, bytes@, max) == Some(error),
        },
{
    if bytes.len() > max {
        return Err(
            PublicationRecordCodecError::LengthLimit { field, length: bytes.len(), max },
        );
    }
    let index: usize = find_byte(bytes, 0);
    if index < bytes.len() {
        return Err(PublicationRecordCodecError::ContainsNul { field, index });
    }
    if bytes.len() == 0 {
        return Err(PublicationRecordCodecError::EmptyString { field });
    }
    Ok(())
}

/// An optional text seen through its characters.
pub open spec fn optional_text(text: Option<String>) -> Option<Seq<char>> {
    match text {
        None => None,
        Some(text) => Some(text@),
    }
}

fn check_optional_string(field: &'static str, text: &Option<String>, max: usize) -> (result: Result<
    (),
    PublicationRecordCodecError,
>)
    ensures
        match result {
            Ok(_) => optional_string_fault(field, optional_text(*text), max) is None,
            Err(error) => optional_string_fault(field, optional_text(*text), max) == Some(error),
        },
{
    match text {
        None => Ok(()),
        Some(text) => check_string(field, text.as_str().as_bytes(), max),
    }
}

fn check_dependencies(count: u32, depth: u8) -> (result: Result<(), PublicationRecordCodecError>)
    ensures
        match result {
            Ok(_) => dependency_fault(count, depth) is None,
            Err(error) => dependency_fault(count, depth) == Some(error),
        },
{
    if count > MAX_DEPENDENCY_COUNT {
        return Err(
            PublicationRecordCodecError::DependencyCountLimit { count, max: MAX_DEPENDENCY_COUNT },
        );
    }
    if depth > MAX_DEPENDENCY_DEPTH {
        return Err(
            PublicationRecordCodecError::DependencyDepthLimit { depth, max: MAX_DEPENDENCY_DEPTH },
        );
    }
    if (count == 0) != (depth == 0) {
        return Err(PublicationRecordCodecError::InvalidDependencyShape);
    }
    Ok(())
}

fn read_string(reader: &mut Reader, field: &'static str, max: usize) -> (result: Result<
    String,
    PublicationRecordCodecError,
>)
    requires
        old(reader).wf(),
    ensures
        final(reader).wf(),
        match result {
            Ok(value) => {
                &&& step_string(start(old(reader).rest()), field, max).0 == value@
                &&& stepped(step_string(start(old(reader).rest()), field, max).1, *final(reader))
            },
            Err(error) => step_string(start(old(reader).rest()), field, max).1.err == Some(error),
        },
{
    let bytes: &[u8] = reader.bytes(field, max)?;
    match read_text(bytes) {
        None => Err(PublicationRecordCodecError::InvalidUtf8 { field }),
        Some(text) => {
            check_string(field, bytes, max)?;
            Ok(text)
        },
    }
}

fn read_optional_string(reader: &mut Reader, field: &'static str, max: usize) -> (result: Result<
    Option<String>,
    PublicationRecordCodecError,
>)
    requires
        old(reader).wf(),
    ensures
        final(reader).wf(),
        match result {
            Ok(value) => {
                &&& step_optional_string(start(old(reader).rest()), field, max).0 == optional_text(
                    value,
                )
                &&& stepped(
                    step_optional_string(start(old(reader).rest()), field, max).1,
                    *final(reader),
                )
            },
            Err(error) => step_optional_string(start(old(reader).rest()), field, max).1.err == Some(
                error,
            ),
        },
{
    let present: bool = reader.tag(field)?;
    if present {
        let text: String = read_string(reader, field, max)?;
        Ok(Some(text))
    } else {
        Ok(None)
    }
}

/// An optional byte vector seen through its bytes.
pub open spec fn optional_bytes(bytes: Option<Vec<u8>>) -> Option<Seq<u8>> {
    match bytes {
        None => None,
        Some(bytes) => Some(bytes@),
    }
}

fn read_optional_bytes(reader: &mut Reader, field: &'static str, max: usize) -> (result: Result<
    Option<Vec<u8>>,
    PublicationRecordCodecError,
>)
    requires
        old(reader).wf(),
    ensures
        final(reader).wf(),
        match result {
            Ok(value) => {
                &&& step_optional_bytes(start(old(reader).rest()), field, max).0 == optional_bytes(
                    value,
                )
                &&& stepped(
                    step_optional_bytes(start(old(reader).rest()), field, max).1,
                    *final(reader),
                )
            },
            Err(error) => step_optional_bytes(start(old(reader).rest()), field, max).1.err == Some(
                error,
            ),
        },
{
    let present: bool = reader.tag(field)?;
    if present {
        let bytes: &[u8] = reader.bytes(field, max)?;
        Ok(Some(copy_bytes(bytes)))
    } else {
        Ok(None)
    }
}

fn read_optional_version(reader: &mut Reader, field: &'static str) -> (result: Result<
    Option<CommitVersion>,
    PublicationRecordCodecError,
>)
    requires
        old(reader).wf(),
    ensures
        final(reader).wf(),
        match result {
            Ok(value) => {
                &&& step_optional_version(start(old(reader).rest()), field).0 == value
                &&& stepped(
                    step_optional_version(start(old(reader).rest()), field).1,
                    *final(reader),
                )
            },
            Err(error) => step_optional_version(start(old(reader).rest()), field).1.err == Some(
                error,
            ),
        },
{
    let present: bool = reader.tag(field)?;
    if present {
        let version: CommitVersion = read_commit_version(reader, field)?;
        Ok(Some(version))
    } else {
        Ok(None)
    }
}

fn put_optional_text(out: &mut Vec<u8>, text: &Option<String>)
    requires
        match optional_text(*text) {
            None => true,
            Some(text) => utf8(text).len() <= u32::MAX,
        },
    ensures
        final(out)@ == old(out)@ + optional_text_bytes(optional_text(*text)),
{
    match text {
        None => {
            put_byte(out, 0);
        },
        Some(text) => {
            put_byte(out, 1);
            put_sized(out, text.as_str().as_bytes());
            assert(out@ =~= old(out)@ + (seq![1u8] + sized(utf8(text@))));
        },
    }
}

fn put_optional_bytes(out: &mut Vec<u8>, bytes: &Option<Vec<u8>>)
    requires
        match optional_bytes(*bytes) {
            None => true,
            Some(bytes) => bytes.len() <= u32::MAX,
        },
    ensures
        final(out)@ == old(out)@ + optional_sized_bytes(optional_bytes(*bytes)),
{
    match bytes {
        None => {
            put_byte(out, 0);
        },
        Some(bytes) => {
            put_byte(out, 1);
            put_sized(out, bytes.as_slice());
            assert(out@ =~= old(out)@ + (seq![1u8] + sized(bytes@)));
        },
    }
}

fn put_optional_version(out: &mut Vec<u8>, version: Option<CommitVersion>)
    ensures
        final(out)@ == old(out)@ + optional_version_bytes(version),
{
    match version {
        None => {
            put_byte(out, 0);
        },
        Some(version) => {
            put_byte(out, 1);
            put_be(out, version.value as u128, 8);
            assert(out@ =~= old(out)@ + (seq![1u8] + be_bytes(version.value as nat, 8)));
        },
    }
}

/// Current durable marker for a workbench name.
#[derive(Clone, Copy, Debug, PartialEq, Eq, Structural)]
pub struct WorkspaceRecord {
    pub incarnation_id: WorkspaceIncarnationId,
    pub workspace_revision: WorkspaceRevision,
    pub state: WorkspaceState,
    pub owning_operation_id: Option<OperationId>,
}

/// The bits of an optional operation identity.
pub open spec fn optional_operation_bits(id: Option<OperationId>) -> Option<u128> {
    match id {
        None => None,
        Some(id) => Some(id.bits),
    }
}

/// The stored form of a workspace marker.
pub open spec fn workspace_bytes(record: WorkspaceRecord) -> Seq<u8> {
    seq![PUBLICATION_VALUE_FORMAT_VERSION] + id_bytes(record.incarnation_id.bits) + be_bytes(
        record.workspace_revision.value as nat,
        8,
    ) + seq![record.state.spec_tag()] + optional_id_bytes(
        optional_operation_bits(record.owning_operation_id),
    )
}

/// The marker that a payload holds, or why it holds none.
pub open spec fn parse_workspace(bytes: Seq<u8>) -> Result<
    WorkspaceRecord,
    PublicationRecordCodecError,
> {
    let s0 = step_version(start(bytes));
    let (incarnation, s1) = step_id(s0, "incarnation_id");
    let (revision, s2) = step_u64(s1, "workspace_revision");
    let (tag, s3) = step_u8(s2, "state");
    let state = WorkspaceState::spec_from_tag(tag);
    let s4 = check(
        s3,
        state is Some,
        PublicationRecordCodecError::UnknownDiscriminant {
            type_label: "WorkspaceState",
            value: tag,
        },
    );
    let (owner, s5) = step_optional_id(s4, "owning_operation_id");
    outcome(
        step_end(s5),
        WorkspaceRecord {
            incarnation_id: WorkspaceIncarnationId { bits: incarnation },
            workspace_revision: WorkspaceRevision { value: revision },
            state: state.unwrap(),
            owning_operation_id: match owner {
                None => None,
                Some(bits) => Some(OperationId { bits }),
            },
        },
    )
}

impl WorkspaceRecord {
    pub fn encode(&self) -> (result: Result<Vec<u8>, PublicationRecordCodecError>)
        ensures
            result is Ok,
            result.unwrap()@ == workspace_bytes(*self),
    {
        let mut out: Vec<u8> = vec![PUBLICATION_VALUE_FORMAT_VERSION];
        assert(out@ =~= seq![PUBLICATION_VALUE_FORMAT_VERSION]);
        put_be(&mut out, self.incarnation_id.bits, 16);
        put_be(&mut out, self.workspace_revision.value as u128, 8);
        put_byte(&mut out, self.state.tag());
        let owner: Option<u128> = match self.owning_operation_id {
            None => None,
            Some(id) => Some(id.bits),
        };
        put_optional_id(&mut out, owner);
        Ok(out)
    }

    pub fn decode(encoded: &[u8]) -> (result: Result<WorkspaceRecord, PublicationRecordCodecError>)
        ensures
            result == parse_workspace(encoded@),
    {
        let mut reader = Reader::new(encoded);
        read_version(&mut reader)?;
        let incarnation: u128 = reader.id("incarnation_id")?;
        let revision: u64 = reader.u64("workspace_revision")?;
        let tag: u8 = reader.u8("state")?;
        let state = match WorkspaceState::from_tag(tag) {
            None => {
                return Err(
                    PublicationRecordCodecError::UnknownDiscriminant {
                        type_label: "WorkspaceState",
                        value: tag,
                    },
                );
            },
            Some(state) => state,
        };
        let owner: Option<u128> = reader.optional_id("owning_operation_id")?;
        reader.end()?;
        Ok(
            WorkspaceRecord {
                incarnation_id: WorkspaceIncarnationId { bits: incarnation },
                workspace_revision: WorkspaceRevision { value: revision },
                state,
                owning_operation_id: match owner {
                    None => None,
                    Some(bits) => Some(OperationId { bits }),
                },
            },
        )
    }
}

/// A workspace marker is read back as it was written.
pub proof fn workspace_round_trip(record: WorkspaceRecord)
    ensures
        parse_workspace(workspace_bytes(record)) == Ok::<_, PublicationRecordCodecError>(record),
{
    broadcast use crate::wire::group_read_back, crate::wire::lemma_concat_empty;

    assert(workspace_bytes(record) + Seq::<u8>::empty() == workspace_bytes(record));
}

/// Every accepted workspace payload is the one stored form of its marker.
pub proof fn workspace_canonical(bytes: Seq<u8>)
    requires
        parse_workspace(bytes) is Ok,
    ensures
        bytes == workspace_bytes(parse_workspace(bytes).unwrap()),
{
    broadcast use crate::wire::group_split, crate::wire::lemma_concat_assoc;
    broadcast use crate::wire::lemma_concat_empty;

}

/// Permanent owner of one never-reused workspace incarnation identity.
#[derive(Clone, Debug, PartialEq, Eq)]
pub struct WorkspaceIncarnationClaimRecord {
    pub workbench_id: WorkbenchId,
}

impl View for WorkspaceIncarnationClaimRecord {
    type V = Seq<char>;

    open spec fn view(&self) -> Seq<char> {
        self.workbench_id@
    }
}

/// The stored form of an incarnation claim.
pub open spec fn incarnation_claim_bytes(workbench: Seq<char>) -> Seq<u8> {
    seq![PUBLICATION_VALUE_FORMAT_VERSION] + sized(utf8(workbench))
}

/// The workbench that a claim payload names, or why it names none.
pub open spec fn parse_incarnation_claim(bytes: Seq<u8>) -> Result<
    Seq<char>,
    PublicationRecordCodecError,
> {
    let s0 = step_version(start(bytes));
    let (name, s1) = step_bytes(s0, "workbench_id", MAX_WORKBENCH_ID_BYTES);
    let s2 = check(
        s1,
        text_of(name) is Some,
        PublicationRecordCodecError::InvalidUtf8 { field: "workbench_id" },
    );
    let text = text_of(name).unwrap();
    let fault = workbench_id_fault(text);
    let s3 = check(
        s2,
        fault is None,
        PublicationRecordCodecError::InvalidWorkbenchId { reason: fault.unwrap().reason },
    );
    outcome(step_end(s3), text)
}

impl WorkspaceIncarnationClaimRecord {
    pub fn encode(&self) -> (result: Result<Vec<u8>, PublicationRecordCodecError>)
        ensures
            match result {
                Ok(bytes) => length_fault(
                    "workbench_id",
                    utf8(self@).len(),
                    MAX_WORKBENCH_ID_BYTES,
                ) is None && bytes@ == incarnation_claim_bytes(self@),
                Err(error) => length_fault(
                    "workbench_id",
                    utf8(self@).len(),
                    MAX_WORKBENCH_ID_BYTES,
                ) == Some(error),
            },
    {
        let mut out: Vec<u8> = vec![PUBLICATION_VALUE_FORMAT_VERSION];
        assert(out@ =~= seq![PUBLICATION_VALUE_FORMAT_VERSION]);
        let name: &[u8] = self.workbench_id.as_bytes();
        check_length("workbench_id", name.len(), MAX_WORKBENCH_ID_BYTES)?;
        put_sized(&mut out, name);
        Ok(out)
    }

    pub fn decode(encoded: &[u8]) -> (result: Result<
        WorkspaceIncarnationClaimRecord,
        PublicationRecordCodecError,
    >)
        ensures
            viewed(result) == parse_incarnation_claim(encoded@),
    {
        let mut reader = Reader::new(encoded);
        read_version(&mut reader)?;
        let name: &[u8] = reader.bytes("workbench_id", MAX_WORKBENCH_ID_BYTES)?;
        let text: String = match read_text(name) {
            None => {
                return Err(PublicationRecordCodecError::InvalidUtf8 { field: "workbench_id" });
            },
            Some(text) => text,
        };
        let workbench_id = match WorkbenchId::new(text.as_str()) {
            Err(error) => {
                return Err(
                    PublicationRecordCodecError::InvalidWorkbenchId { reason: error.reason },
                );
            },
            Ok(id) => id,
        };
        reader.end()?;
        Ok(WorkspaceIncarnationClaimRecord { workbench_id })
    }
}

/// A claim by a valid workbench name is read back as it was written.
pub proof fn incarnation_claim_round_trip(workbench: Seq<char>)
    requires
        workbench_id_fault(workbench) is None,
    ensures
        parse_incarnation_claim(incarnation_claim_bytes(workbench)) == Ok::<
            _,
            PublicationRecordCodecError,
        >(workbench),
{
    broadcast use crate::wire::group_read_back, crate::wire::lemma_concat_empty;
    broadcast use crate::text::lemma_text_of_utf8;

    let bytes = incarnation_claim_bytes(workbench);
    assert(bytes + Seq::<u8>::empty() == bytes);
}

/// Every accepted claim payload is the one stored form of a valid name.
pub proof fn incarnation_claim_canonical(bytes: Seq<u8>)
    requires
        parse_incarnation_claim(bytes) is Ok,
    ensures
        bytes == incarnation_claim_bytes(parse_incarnation_claim(bytes).unwrap()),
        workbench_id_fault(parse_incarnation_claim(bytes).unwrap()) is None,
{
    broadcast use crate::wire::group_split, crate::wire::lemma_concat_assoc;
    broadcast use crate::wire::lemma_concat_empty, crate::text::lemma_utf8_text_of;

}

/// In-flight exclusive publish ownership of one artifact revision identity.
///
/// Created atomically when a publish begins and deleted in the same command
/// that publishes the revision or finishes the owning operation's cleanup, so
/// two operations never own the revision's permanent object keys at once.
#[derive(Clone, Copy, Debug, PartialEq, Eq, Structural)]
pub struct ArtifactRevisionClaimRecord {
    pub operation_id: OperationId,
}

/// The stored form of a revision claim.
pub open spec fn revision_claim_bytes(record: ArtifactRevisionClaimRecord) -> Seq<u8> {
    seq![PUBLICATION_VALUE_FORMAT_VERSION] + id_bytes(record.operation_id.bits)
}

/// The claim that a payload holds, or why it holds none.
pub open spec fn parse_revision_claim(bytes: Seq<u8>) -> Result<
    ArtifactRevisionClaimRecord,
    PublicationRecordCodecError,
> {
    let s0 = step_version(start(bytes));
    let (operation, s1) = step_id(s0, "operation_id");
    outcome(
        step_end(s1),
        ArtifactRevisionClaimRecord { operation_id: OperationId { bits: operation } },
    )
}

impl ArtifactRevisionClaimRecord {
    pub fn encode(&self) -> (result: Result<Vec<u8>, PublicationRecordCodecError>)
        ensures
            result is Ok,
            result.unwrap()@ == revision_claim_bytes(*self),
    {
        let mut out: Vec<u8> = vec![PUBLICATION_VALUE_FORMAT_VERSION];
        assert(out@ =~= seq![PUBLICATION_VALUE_FORMAT_VERSION]);
        put_be(&mut out, self.operation_id.bits, 16);
        Ok(out)
    }

    pub fn decode(encoded: &[u8]) -> (result: Result<
        ArtifactRevisionClaimRecord,
        PublicationRecordCodecError,
    >)
        ensures
            result == parse_revision_claim(encoded@),
    {
        let mut reader = Reader::new(encoded);
        read_version(&mut reader)?;
        let operation: u128 = reader.id("operation_id")?;
        reader.end()?;
        Ok(ArtifactRevisionClaimRecord { operation_id: OperationId { bits: operation } })
    }
}

/// A revision claim is read back as it was written.
pub proof fn revision_claim_round_trip(record: ArtifactRevisionClaimRecord)
    ensures
        parse_revision_claim(revision_claim_bytes(record)) == Ok::<_, PublicationRecordCodecError>(
            record,
        ),
{
    broadcast use crate::wire::group_read_back, crate::wire::lemma_concat_empty;

    assert(revision_claim_bytes(record) + Seq::<u8>::empty() == revision_claim_bytes(record));
}

/// Every accepted revision-claim payload is the one stored form of its claim.
pub proof fn revision_claim_canonical(bytes: Seq<u8>)
    requires
        parse_revision_claim(bytes) is Ok,
    ensures
        bytes == revision_claim_bytes(parse_revision_claim(bytes).unwrap()),
{
    broadcast use crate::wire::group_split, crate::wire::lemma_concat_assoc;
    broadcast use crate::wire::lemma_concat_empty;

}

/// Strong reference row payload.
#[derive(Clone, Copy, Debug, PartialEq, Eq, Structural)]
pub struct RevisionRefRecord {
    pub reference_epoch_at_add: ReferenceEpoch,
}

/// The stored form of a reference.
pub open spec fn revision_ref_bytes(record: RevisionRefRecord) -> Seq<u8> {
    seq![PUBLICATION_VALUE_FORMAT_VERSION] + be_bytes(
        record.reference_epoch_at_add.value as nat,
        8,
    )
}

/// The reference that a payload holds, or why it holds none.
pub open spec fn parse_revision_ref(bytes: Seq<u8>) -> Result<
    RevisionRefRecord,
    PublicationRecordCodecError,
> {
    let s0 = step_version(start(bytes));
    let (epoch, s1) = step_u64(s0, "reference_epoch_at_add");
    outcome(
        step_end(s1),
        RevisionRefRecord { reference_epoch_at_add: ReferenceEpoch { value: epoch } },
    )
}

impl RevisionRefRecord {
    pub fn encode(&self) -> (result: Result<Vec<u8>, PublicationRecordCodecError>)
        ensures
            result is Ok,
            result.unwrap()@ == revision_ref_bytes(*self),
    {
        let mut out: Vec<u8> = vec![PUBLICATION_VALUE_FORMAT_VERSION];
        assert(out@ =~= seq![PUBLICATION_VALUE_FORMAT_VERSION]);
        put_be(&mut out, self.reference_epoch_at_add.value as u128, 8);
        Ok(out)
    }

    pub fn decode(encoded: &[u8]) -> (result: Result<
        RevisionRefRecord,
        PublicationRecordCodecError,
    >)
        ensures
            result == parse_revision_ref(encoded@),
    {
        let mut reader = Reader::new(encoded);
        read_version(&mut reader)?;
        let epoch: u64 = reader.u64("reference_epoch_at_add")?;
        reader.end()?;
        Ok(RevisionRefRecord { reference_epoch_at_add: ReferenceEpoch { value: epoch } })
    }
}

/// A reference is read back as it was written.
pub proof fn revision_ref_round_trip(record: RevisionRefRecord)
    ensures
        parse_revision_ref(revision_ref_bytes(record)) == Ok::<_, PublicationRecordCodecError>(
            record,
        ),
{
    broadcast use crate::wire::group_read_back, crate::wire::lemma_concat_empty;

    assert(revision_ref_bytes(record) + Seq::<u8>::empty() == revision_ref_bytes(record));
}

/// Every accepted reference payload is the one stored form of its reference.
pub proof fn revision_ref_canonical(bytes: Seq<u8>)
    requires
        parse_revision_ref(bytes) is Ok,
    ensures
        bytes == revision_ref_bytes(parse_revision_ref(bytes).unwrap()),
{
    broadcast use crate::wire::group_split, crate::wire::lemma_concat_assoc;
    broadcast use crate::wire::lemma_concat_empty;

}

/// Current authoritative value for one normalized path.
///
/// The immutable revision fields that readers of a path need are copied here
/// in the same atomic publication command; the revision row itself only keeps
/// the revision reachable.
#[derive(Debug, PartialEq, Eq)]
pub struct PathEntry {
    pub generation: Generation,
    pub index_generation: PathIndexGenerationId,
    pub path_digest: [u8; 32],
    pub artifact_revision_id: ArtifactRevisionId,
    /// Digest URI for the complete resulting body, not an append delta.
    pub body_digest_uri: String,
    /// Digest URI for the immutable manifest owned by this revision.
    pub manifest_digest_uri: String,
    pub logical_size: u64,
    /// Number of distinct physical owner revisions retained by this revision.
    pub dependency_count: u32,
    /// Maximum sealed dependency path ending at this revision.
    pub dependency_depth: u8,
    pub content_type: String,
    pub producer: Option<String>,
    pub manifest_id: Option<String>,
    /// Canonical bytes of the typed index projection.
    pub typed_index_projection: Vec<u8>,
}

/// A path entry with its texts as characters and its bytes as sequences.
#[verifier::ext_equal]
pub struct PathEntryView {
    pub generation: Generation,
    pub index_generation: PathIndexGenerationId,
    pub path_digest: Seq<u8>,
    pub artifact_revision_id: ArtifactRevisionId,
    pub body_digest_uri: Seq<char>,
    pub manifest_digest_uri: Seq<char>,
    pub logical_size: u64,
    pub dependency_count: u32,
    pub dependency_depth: u8,
    pub content_type: Seq<char>,
    pub producer: Option<Seq<char>>,
    pub manifest_id: Option<Seq<char>>,
    pub typed_index_projection: Seq<u8>,
}

impl View for PathEntry {
    type V = PathEntryView;

    open spec fn view(&self) -> PathEntryView {
        PathEntryView {
            generation: self.generation,
            index_generation: self.index_generation,
            path_digest: self.path_digest@,
            artifact_revision_id: self.artifact_revision_id,
            body_digest_uri: self.body_digest_uri@,
            manifest_digest_uri: self.manifest_digest_uri@,
            logical_size: self.logical_size,
            dependency_count: self.dependency_count,
            dependency_depth: self.dependency_depth,
            content_type: self.content_type@,
            producer: optional_text(self.producer),
            manifest_id: optional_text(self.manifest_id),
            typed_index_projection: self.typed_index_projection@,
        }
    }
}

/// Why a path entry cannot be stored, if it cannot.
pub open spec fn path_entry_fault(entry: PathEntryView) -> Option<PublicationRecordCodecError> {
    first_fault(
        string_fault("body_digest_uri", utf8(entry.body_digest_uri), MAX_DIGEST_URI_BYTES),
        first_fault(
            string_fault(
                "manifest_digest_uri",
                utf8(entry.manifest_digest_uri),
                MAX_DIGEST_URI_BYTES,
            ),
            first_fault(
                dependency_fault(entry.dependency_count, entry.dependency_depth),
                first_fault(
                    string_fault("content_type", utf8(entry.content_type), MAX_CONTENT_TYPE_BYTES),
                    first_fault(
                        optional_string_fault("producer", entry.producer, MAX_PRODUCER_BYTES),
                        first_fault(
                            optional_string_fault(
                                "manifest_id",
                                entry.manifest_id,
                                MAX_MANIFEST_ID_BYTES,
                            ),
                            length_fault(
                                "typed_index_projection",
                                entry.typed_index_projection.len(),
                                MAX_INDEX_PROJECTION_BYTES,
                            ),
                        ),
                    ),
                ),
            ),
        ),
    )
}

/// The stored form of a path entry.
pub open spec fn path_entry_bytes(entry: PathEntryView) -> Seq<u8> {
    seq![PUBLICATION_VALUE_FORMAT_VERSION] + be_bytes(entry.generation.value as nat, 8) + id_bytes(
        entry.index_generation.bits,
    ) + entry.path_digest + id_bytes(entry.artifact_revision_id.bits) + sized(
        utf8(entry.body_digest_uri),
    ) + sized(utf8(entry.manifest_digest_uri)) + be_bytes(entry.logical_size as nat, 8) + be_bytes(
        entry.dependency_count as nat,
        4,
    ) + seq![entry.dependency_depth] + sized(utf8(entry.content_type)) + optional_text_bytes(
        entry.producer,
    ) + optional_text_bytes(entry.manifest_id) + sized(entry.typed_index_projection)
}

/// The path entry that a payload holds, or why it holds none.
pub open spec fn parse_path_entry(bytes: Seq<u8>) -> Result<
    PathEntryView,
    PublicationRecordCodecError,
> {
    let s0 = step_version(start(bytes));
    let (generation, s1) = step_u64(s0, "generation");
    let s2 = check(
        s1,
        generation != 0,
        PublicationRecordCodecError::ZeroScalar { field: "generation" },
    );
    let (index_generation, s3) = step_id(s2, "index_generation");
    let (path_digest, s4) = step_digest(s3, "path_digest");
    let (revision, s5) = step_id(s4, "artifact_revision_id");
    let (body, s6) = step_string(s5, "body_digest_uri", MAX_DIGEST_URI_BYTES);
    let (manifest, s7) = step_string(s6, "manifest_digest_uri", MAX_DIGEST_URI_BYTES);
    let (logical_size, s8) = step_u64(s7, "logical_size");
    let (count, s9) = step_u32(s8, "dependency_count");
    let (depth, s10) = step_u8(s9, "dependency_depth");
    let s11 = check_fault(s10, dependency_fault(count, depth));
    let (content_type, s12) = step_string(s11, "content_type", MAX_CONTENT_TYPE_BYTES);
    let (producer, s13) = step_optional_string(s12, "producer", MAX_PRODUCER_BYTES);
    let (manifest_id, s14) = step_optional_string(s13, "manifest_id", MAX_MANIFEST_ID_BYTES);
    let (projection, s15) = step_bytes(
        s14,
        "typed_index_projection",
        MAX_INDEX_PROJECTION_BYTES,
    );
    outcome(
        step_end(s15),
        PathEntryView {
            generation: Generation { value: generation },
            index_generation: PathIndexGenerationId { bits: index_generation },
            path_digest,
            artifact_revision_id: ArtifactRevisionId { bits: revision },
            body_digest_uri: body,
            manifest_digest_uri: manifest,
            logical_size,
            dependency_count: count,
            dependency_depth: depth,
            content_type,
            producer,
            manifest_id,
            typed_index_projection: projection,
        },
    )
}

impl PathEntry {
    pub fn encode(&self) -> (result: Result<Vec<u8>, PublicationRecordCodecError>)
        ensures
            match result {
                Ok(bytes) => path_entry_fault(self@) is None && bytes@ == path_entry_bytes(self@),
                Err(error) => path_entry_fault(self@) == Some(error),
            },
    {
        check_string(
            "body_digest_uri",
            self.body_digest_uri.as_str().as_bytes(),
            MAX_DIGEST_URI_BYTES,
        )?;
        check_string(
            "manifest_digest_uri",
            self.manifest_digest_uri.as_str().as_bytes(),
            MAX_DIGEST_URI_BYTES,
        )?;
        check_dependencies(self.dependency_count, self.dependency_depth)?;
        check_string("content_type", self.content_type.as_str().as_bytes(), MAX_CONTENT_TYPE_BYTES)?;
        check_optional_string("producer", &self.producer, MAX_PRODUCER_BYTES)?;
        check_optional_string("manifest_id", &self.manifest_id, MAX_MANIFEST_ID_BYTES)?;
        check_length(
            "typed_index_projection",
            self.typed_index_projection.len(),
            MAX_INDEX_PROJECTION_BYTES,
        )?;
        let mut out: Vec<u8> = vec![PUBLICATION_VALUE_FORMAT_VERSION];
        assert(out@ =~= seq![PUBLICATION_VALUE_FORMAT_VERSION]);
        put_be(&mut out, self.generation.value as u128, 8);
        put_be(&mut out, self.index_generation.bits, 16);
        put_slice(&mut out, self.path_digest.as_slice());
        put_be(&mut out, self.artifact_revision_id.bits, 16);
        put_sized(&mut out, self.body_digest_uri.as_str().as_bytes());
        put_sized(&mut out, self.manifest_digest_uri.as_str().as_bytes());
        put_be(&mut out, self.logical_size as u128, 8);
        put_be(&mut out, self.dependency_count as u128, 4);
        put_byte(&mut out, self.dependency_depth);
        put_sized(&mut out, self.content_type.as_str().as_bytes());
        put_optional_text(&mut out, &self.producer);
        put_optional_text(&mut out, &self.manifest_id);
        put_sized(&mut out, self.typed_index_projection.as_slice());
        Ok(out)
    }

    pub fn decode(encoded: &[u8]) -> (result: Result<PathEntry, PublicationRecordCodecError>)
        ensures
            viewed(result) == parse_path_entry(encoded@),
    {
        let mut reader = Reader::new(encoded);
        read_version(&mut reader)?;
        let generation: u64 = reader.u64("generation")?;
        if generation == 0 {
            return Err(PublicationRecordCodecError::ZeroScalar { field: "generation" });
        }
        let index_generation: u128 = reader.id("index_generation")?;
        let path_digest: [u8; 32] = reader.digest("path_digest")?;
        let revision: u128 = reader.id("artifact_revision_id")?;
        let body: String = read_string(&mut reader, "body_digest_uri", MAX_DIGEST_URI_BYTES)?;
        let manifest: String = read_string(&mut reader, "manifest_digest_uri", MAX_DIGEST_URI_BYTES)?;
        let logical_size: u64 = reader.u64("logical_size")?;
        let count: u32 = reader.u32("dependency_count")?;
        let depth: u8 = reader.u8("dependency_depth")?;
        check_dependencies(count, depth)?;
        let content_type: String = read_string(&mut reader, "content_type", MAX_CONTENT_TYPE_BYTES)?;
        let producer: Option<String> = read_optional_string(
            &mut reader,
            "producer",
            MAX_PRODUCER_BYTES,
        )?;
        let manifest_id: Option<String> = read_optional_string(
            &mut reader,
            "manifest_id",
            MAX_MANIFEST_ID_BYTES,
        )?;
        let projection: &[u8] = reader.bytes("typed_index_projection", MAX_INDEX_PROJECTION_BYTES)?;
        reader.end()?;
        Ok(
            PathEntry {
                generation: Generation { value: generation },
                index_generation: PathIndexGenerationId { bits: index_generation },
                path_digest,
                artifact_revision_id: ArtifactRevisionId { bits: revision },
                body_digest_uri: body,
                manifest_digest_uri: manifest,
                logical_size,
                dependency_count: count,
                dependency_depth: depth,
                content_type,
                producer,
                manifest_id,
                typed_index_projection: copy_bytes(projection),
            },
        )
    }
}

proof fn lemma_string_back(text: Seq<char>, tail: Seq<u8>, field: &'static str, max: usize)
    requires
        string_fault(field, utf8(text), max) is None,
        max <= u32::MAX,
    ensures
        step_string(start(sized(utf8(text)) + tail), field, max) == (
            text,
            start::<PublicationRecordCodecError>(tail),
        ),
{
    broadcast use crate::text::lemma_text_of_utf8;

    crate::wire::lemma_bytes_back::<PublicationRecordCodecError>(utf8(text), tail, field, max);
}

proof fn lemma_optional_string_back(
    text: Option<Seq<char>>,
    tail: Seq<u8>,
    field: &'static str,
    max: usize,
)
    requires
        optional_string_fault(field, text, max) is None,
        max <= u32::MAX,
    ensures
        step_optional_string(start(optional_text_bytes(text) + tail), field, max) == (
            text,
            start::<PublicationRecordCodecError>(tail),
        ),
{
    broadcast use crate::wire::group_read_back;

    if let Some(text) = text {
        lemma_string_back(text, tail, field, max);
    }
}

proof fn lemma_string_split(
    st: Parse<PublicationRecordCodecError>,
    field: &'static str,
    max: usize,
)
    ensures
        step_string(st, field, max).1.err is None ==> {
            let (text, next) = step_string(st, field, max);
            &&& st.err is None
            &&& string_fault(field, utf8(text), max) is None
            &&& st.rest == sized(utf8(text)) + next.rest
        },
{
    broadcast use crate::wire::group_split, crate::text::lemma_utf8_text_of;

}

proof fn lemma_optional_string_split(
    st: Parse<PublicationRecordCodecError>,
    field: &'static str,
    max: usize,
)
    ensures
        step_optional_string(st, field, max).1.err is None ==> {
            let (text, next) = step_optional_string(st, field, max);
            &&& st.err is None
            &&& optional_string_fault(field, text, max) is None
            &&& st.rest == optional_text_bytes(text) + next.rest
        },
{
    broadcast use crate::wire::group_split, crate::wire::lemma_concat_assoc;

    let (present, s1) = step_tag(st, field);
    lemma_string_split(s1, field, max);
}

/// A storable path entry is read back as it was written.
pub proof fn path_entry_round_trip(entry: PathEntryView)
    requires
        path_entry_fault(entry) is None,
        entry.generation.wf(),
        entry.path_digest.len() == 32,
    ensures
        parse_path_entry(path_entry_bytes(entry)) == Ok::<_, PublicationRecordCodecError>(entry),
{
    broadcast use crate::wire::group_steps_back;

    let p0 = seq![PUBLICATION_VALUE_FORMAT_VERSION];
    let p1 = p0 + be_bytes(entry.generation.value as nat, 8);
    let p2 = p1 + id_bytes(entry.index_generation.bits);
    let p3 = p2 + entry.path_digest;
    let p4 = p3 + id_bytes(entry.artifact_revision_id.bits);
    let p5 = p4 + sized(utf8(entry.body_digest_uri));
    let p6 = p5 + sized(utf8(entry.manifest_digest_uri));
    let p7 = p6 + be_bytes(entry.logical_size as nat, 8);
    let p8 = p7 + be_bytes(entry.dependency_count as nat, 4);
    let p9 = p8 + seq![entry.dependency_depth];
    let p10 = p9 + sized(utf8(entry.content_type));
    let p11 = p10 + optional_text_bytes(entry.producer);
    let p12 = p11 + optional_text_bytes(entry.manifest_id);
    let p13 = p12 + sized(entry.typed_index_projection);
    let t14 = Seq::<u8>::empty();
    let t13 = sized(entry.typed_index_projection) + t14;
    let t12 = optional_text_bytes(entry.manifest_id) + t13;
    let t11 = optional_text_bytes(entry.producer) + t12;
    let t10 = sized(utf8(entry.content_type)) + t11;
    let t9 = seq![entry.dependency_depth] + t10;
    let t8 = be_bytes(entry.dependency_count as nat, 4) + t9;
    let t7 = be_bytes(entry.logical_size as nat, 8) + t8;
    let t6 = sized(utf8(entry.manifest_digest_uri)) + t7;
    let t5 = sized(utf8(entry.body_digest_uri)) + t6;
    let t4 = id_bytes(entry.artifact_revision_id.bits) + t5;
    let t3 = entry.path_digest + t4;
    let t2 = id_bytes(entry.index_generation.bits) + t3;
    let t1 = be_bytes(entry.generation.value as nat, 8) + t2;
    lemma_concat_empty(p13);
    lemma_concat_assoc(p12, sized(entry.typed_index_projection), t14);
    lemma_concat_assoc(p11, optional_text_bytes(entry.manifest_id), t13);
    lemma_concat_assoc(p10, optional_text_bytes(entry.producer), t12);
    lemma_concat_assoc(p9, sized(utf8(entry.content_type)), t11);
    lemma_concat_assoc(p8, seq![entry.dependency_depth], t10);
    lemma_concat_assoc(p7, be_bytes(entry.dependency_count as nat, 4), t9);
    lemma_concat_assoc(p6, be_bytes(entry.logical_size as nat, 8), t8);
    lemma_concat_assoc(p5, sized(utf8(entry.manifest_digest_uri)), t7);
    lemma_concat_assoc(p4, sized(utf8(entry.body_digest_uri)), t6);
    lemma_concat_assoc(p3, id_bytes(entry.artifact_revision_id.bits), t5);
    lemma_concat_assoc(p2, entry.path_digest, t4);
    lemma_concat_assoc(p1, id_bytes(entry.index_generation.bits), t3);
    lemma_concat_assoc(p0, be_bytes(entry.generation.value as nat, 8), t2);
    assert(path_entry_bytes(entry) == p0 + t1);
    lemma_string_back(entry.body_digest_uri, t6, "body_digest_uri", MAX_DIGEST_URI_BYTES);
    lemma_string_back(entry.manifest_digest_uri, t7, "manifest_digest_uri", MAX_DIGEST_URI_BYTES);
    lemma_string_back(entry.content_type, t11, "content_type", MAX_CONTENT_TYPE_BYTES);
    lemma_optional_string_back(entry.producer, t12, "producer", MAX_PRODUCER_BYTES);
    lemma_optional_string_back(entry.manifest_id, t13, "manifest_id", MAX_MANIFEST_ID_BYTES);
}

/// Every accepted path-entry payload is the one stored form of a storable
/// entry.
pub proof fn path_entry_canonical(bytes: Seq<u8>)
    requires
        parse_path_entry(bytes) is Ok,
    ensures
        bytes == path_entry_bytes(parse_path_entry(bytes).unwrap()),
        path_entry_fault(parse_path_entry(bytes).unwrap()) is None,
        parse_path_entry(bytes).unwrap().generation.wf(),
        parse_path_entry(bytes).unwrap().path_digest.len() == 32,
{
    broadcast use crate::wire::group_split, crate::wire::lemma_concat_assoc;
    broadcast use crate::wire::lemma_concat_empty;

    let s0 = step_version(start(bytes));
    let (generation, s1) = step_u64(s0, "generation");
    let s2 = check(
        s1,
        generation != 0,
        PublicationRecordCodecError::ZeroScalar { field: "generation" },
    );
    let (index_generation, s3) = step_id(s2, "index_generation");
    let (path_digest, s4) = step_digest(s3, "path_digest");
    let (revision, s5) = step_id(s4, "artifact_revision_id");
    let (body, s6) = step_string(s5, "body_digest_uri", MAX_DIGEST_URI_BYTES);
    let (manifest, s7) = step_string(s6, "manifest_digest_uri", MAX_DIGEST_URI_BYTES);
    let (logical_size, s8) = step_u64(s7, "logical_size");
    let (count, s9) = step_u32(s8, "dependency_count");
    let (depth, s10) = step_u8(s9, "dependency_depth");
    let s11 = check_fault(s10, dependency_fault(count, depth));
    let (content_type, s12) = step_string(s11, "content_type", MAX_CONTENT_TYPE_BYTES);
    let (producer, s13) = step_optional_string(s12, "producer", MAX_PRODUCER_BYTES);
    lemma_string_split(s5, "body_digest_uri", MAX_DIGEST_URI_BYTES);
    lemma_string_split(s6, "manifest_digest_uri", MAX_DIGEST_URI_BYTES);
    lemma_string_split(s11, "content_type", MAX_CONTENT_TYPE_BYTES);
    lemma_optional_string_split(s12, "producer", MAX_PRODUCER_BYTES);
    lemma_optional_string_split(s13, "manifest_id", MAX_MANIFEST_ID_BYTES);
}

/// Immutable revision descriptor and its strong-reference lifetime state.
#[derive(Debug, PartialEq, Eq)]
pub struct ArtifactRevisionRecord {
    pub logical_size: u64,
    pub body_digest_uri: String,
    pub manifest_digest_uri: String,
    pub block_count: u64,
    pub dependency_count: u32,
    pub dependency_depth: u8,
    /// SHA-256 of the canonical, sorted dependency closure.
    pub dependency_digest: [u8; 32],
    pub content_type: String,
    pub state: RevisionState,
    pub reference_epoch: ReferenceEpoch,
    pub strong_reference_count: u64,
    pub last_zero_ref_version: Option<CommitVersion>,
}

/// A revision record with its texts as characters.
#[verifier::ext_equal]
pub struct ArtifactRevisionView {
    pub logical_size: u64,
    pub body_digest_uri: Seq<char>,
    pub manifest_digest_uri: Seq<char>,
    pub block_count: u64,
    pub dependency_count: u32,
    pub dependency_depth: u8,
    pub dependency_digest: Seq<u8>,
    pub content_type: Seq<char>,
    pub state: RevisionState,
    pub reference_epoch: ReferenceEpoch,
    pub strong_reference_count: u64,
    pub last_zero_ref_version: Option<CommitVersion>,
}

impl View for ArtifactRevisionRecord {
    type V = ArtifactRevisionView;

    open spec fn view(&self) -> ArtifactRevisionView {
        ArtifactRevisionView {
            logical_size: self.logical_size,
            body_digest_uri: self.body_digest_uri@,
            manifest_digest_uri: self.manifest_digest_uri@,
            block_count: self.block_count,
            dependency_count: self.dependency_count,
            dependency_depth: self.dependency_depth,
            dependency_digest: self.dependency_digest@,
            content_type: self.content_type@,
            state: self.state,
            reference_epoch: self.reference_epoch,
            strong_reference_count: self.strong_reference_count,
            last_zero_ref_version: self.last_zero_ref_version,
        }
    }
}

/// Why a revision record cannot be stored, if it cannot.
pub open spec fn artifact_revision_fault(record: ArtifactRevisionView) -> Option<
    PublicationRecordCodecError,
> {
    first_fault(
        string_fault("body_digest_uri", utf8(record.body_digest_uri), MAX_DIGEST_URI_BYTES),
        first_fault(
            string_fault(
                "manifest_digest_uri",
                utf8(record.manifest_digest_uri),
                MAX_DIGEST_URI_BYTES,
            ),
            first_fault(
                string_fault("content_type", utf8(record.content_type), MAX_CONTENT_TYPE_BYTES),
                dependency_fault(record.dependency_count, record.dependency_depth),
            ),
        ),
    )
}

/// The stored form of a revision record.
pub open spec fn artifact_revision_bytes(record: ArtifactRevisionView) -> Seq<u8> {
    seq![PUBLICATION_VALUE_FORMAT_VERSION] + be_bytes(record.logical_size as nat, 8)
        + sized(utf8(record.body_digest_uri)) + sized(utf8(record.manifest_digest_uri))
        + be_bytes(record.block_count as nat, 8) + be_bytes(record.dependency_count as nat, 4)
        + seq![record.dependency_depth] + record.dependency_digest
        + sized(utf8(record.content_type)) + seq![record.state.spec_tag()]
        + be_bytes(record.reference_epoch.value as nat, 8)
        + be_bytes(record.strong_reference_count as nat, 8)
        + optional_version_bytes(record.last_zero_ref_version)
}

/// How a stored revision stands: whether it is live, and who refers to it.
#[derive(Clone, Copy)]
pub struct RevisionStanding {
    pub state: RevisionState,
    pub reference_epoch: ReferenceEpoch,
    pub strong_reference_count: u64,
    pub last_zero_ref_version: Option<CommitVersion>,
}

/// The last fields of a revision record.
#[verifier::opaque]
pub open spec fn step_standing(st: Parse<PublicationRecordCodecError>) -> (
    RevisionStanding,
    Parse<PublicationRecordCodecError>,
) {
    let (tag, s1) = step_u8(st, "state");
    let state = RevisionState::spec_from_tag(tag);
    let s2 = check(
        s1,
        state is Some,
        PublicationRecordCodecError::UnknownDiscriminant {
            type_label: "RevisionState",
            value: tag,
        },
    );
    let (epoch, s3) = step_u64(s2, "reference_epoch");
    let (references, s4) = step_u64(s3, "strong_reference_count");
    let (zero_version, s5) = step_optional_version(s4, "last_zero_ref_version");
    (
        RevisionStanding {
            state: state.unwrap(),
            reference_epoch: ReferenceEpoch { value: epoch },
            strong_reference_count: references,
            last_zero_ref_version: zero_version,
        },
        s5,
    )
}

broadcast proof fn lemma_standing_after_failure(st: Parse<PublicationRecordCodecError>)
    requires
        st.err is Some,
    ensures
        (#[trigger] step_standing(st)).1 == st,
{
    reveal(step_standing);
}

fn read_standing(reader: &mut Reader) -> (result: Result<
    RevisionStanding,
    PublicationRecordCodecError,
>)
    requires
        old(reader).wf(),
    ensures
        final(reader).wf(),
        match result {
            Ok(value) => {
                &&& step_standing(start(old(reader).rest())).0 == value
                &&& stepped(step_standing(start(old(reader).rest())).1, *final(reader))
            },
            Err(error) => step_standing(start(old(reader).rest())).1.err == Some(error),
        },
{
    reveal(step_standing);
    let tag: u8 = reader.u8("state")?;
    let state = match RevisionState::from_tag(tag) {
        None => {
            return Err(
                PublicationRecordCodecError::UnknownDiscriminant {
                    type_label: "RevisionState",
                    value: tag,
                },
            );
        },
        Some(state) => state,
    };
    let epoch: u64 = reader.u64("reference_epoch")?;
    let references: u64 = reader.u64("strong_reference_count")?;
    let zero_version: Option<CommitVersion> = read_optional_version(
        reader,
        "last_zero_ref_version",
    )?;
    Ok(
        RevisionStanding {
            state,
            reference_epoch: ReferenceEpoch { value: epoch },
            strong_reference_count: references,
            last_zero_ref_version: zero_version,
        },
    )
}

/// The revision record that a payload holds, or why it holds none.
pub open spec fn parse_artifact_revision(bytes: Seq<u8>) -> Result<
    ArtifactRevisionView,
    PublicationRecordCodecError,
> {
    let s0 = step_version(start(bytes));
    let (logical_size, s1) = step_u64(s0, "logical_size");
    let (body, s2) = step_string(s1, "body_digest_uri", MAX_DIGEST_URI_BYTES);
    let (manifest, s3) = step_string(s2, "manifest_digest_uri", MAX_DIGEST_URI_BYTES);
    let (block_count, s4) = step_u64(s3, "block_count");
    let (count, s5) = step_u32(s4, "dependency_count");
    let (depth, s6) = step_u8(s5, "dependency_depth");
    let s7 = check_fault(s6, dependency_fault(count, depth));
    let (dependency_digest, s8) = step_digest(s7, "dependency_digest");
    let (content_type, s9) = step_string(s8, "content_type", MAX_CONTENT_TYPE_BYTES);
    let (standing, s10) = step_standing(s9);
    outcome(
        step_end(s10),
        ArtifactRevisionView {
            logical_size,
            body_digest_uri: body,
            manifest_digest_uri: manifest,
            block_count,
            dependency_count: count,
            dependency_depth: depth,
            dependency_digest,
            content_type,
            state: standing.state,
            reference_epoch: standing.reference_epoch,
            strong_reference_count: standing.strong_reference_count,
            last_zero_ref_version: standing.last_zero_ref_version,
        },
    )
}

impl ArtifactRevisionRecord {
    pub fn encode(&self) -> (result: Result<Vec<u8>, PublicationRecordCodecError>)
        ensures
            match result {
                Ok(bytes) => artifact_revision_fault(self@) is None && bytes@
                    == artifact_revision_bytes(self@),
                Err(error) => artifact_revision_fault(self@) == Some(error),
            },
    {
        check_string(
            "body_digest_uri",
            self.body_digest_uri.as_str().as_bytes(),
            MAX_DIGEST_URI_BYTES,
        )?;
        check_string(
            "manifest_digest_uri",
            self.manifest_digest_uri.as_str().as_bytes(),
            MAX_DIGEST_URI_BYTES,
        )?;
        check_string("content_type", self.content_type.as_str().as_bytes(), MAX_CONTENT_TYPE_BYTES)?;
        check_dependencies(self.dependency_count, self.dependency_depth)?;
        let mut out: Vec<u8> = vec![PUBLICATION_VALUE_FORMAT_VERSION];
        assert(out@ =~= seq![PUBLICATION_VALUE_FORMAT_VERSION]);
        put_be(&mut out, self.logical_size as u128, 8);
        put_sized(&mut out, self.body_digest_uri.as_str().as_bytes());
        put_sized(&mut out, self.manifest_digest_uri.as_str().as_bytes());
        put_be(&mut out, self.block_count as u128, 8);
        put_be(&mut out, self.dependency_count as u128, 4);
        put_byte(&mut out, self.dependency_depth);
        put_slice(&mut out, self.dependency_digest.as_slice());
        put_sized(&mut out, self.content_type.as_str().as_bytes());
        put_byte(&mut out, self.state.tag());
        put_be(&mut out, self.reference_epoch.value as u128, 8);
        put_be(&mut out, self.strong_reference_count as u128, 8);
        put_optional_version(&mut out, self.last_zero_ref_version);
        Ok(out)
    }

    pub fn decode(encoded: &[u8]) -> (result: Result<
        ArtifactRevisionRecord,
        PublicationRecordCodecError,
    >)
        ensures
            viewed(result) == parse_artifact_revision(encoded@),
    {
        broadcast use lemma_standing_after_failure;

        let mut reader = Reader::new(encoded);
        read_version(&mut reader)?;
        let logical_size: u64 = reader.u64("logical_size")?;
        let body: String = read_string(&mut reader, "body_digest_uri", MAX_DIGEST_URI_BYTES)?;
        let manifest: String = read_string(&mut reader, "manifest_digest_uri", MAX_DIGEST_URI_BYTES)?;
        let block_count: u64 = reader.u64("block_count")?;
        let count: u32 = reader.u32("dependency_count")?;
        let depth: u8 = reader.u8("dependency_depth")?;
        check_dependencies(count, depth)?;
        let dependency_digest: [u8; 32] = reader.digest("dependency_digest")?;
        let content_type: String = read_string(&mut reader, "content_type", MAX_CONTENT_TYPE_BYTES)?;
        let standing: RevisionStanding = read_standing(&mut reader)?;
        reader.end()?;
        Ok(
            ArtifactRevisionRecord {
                logical_size,
                body_digest_uri: body,
                manifest_digest_uri: manifest,
                block_count,
                dependency_count: count,
                dependency_depth: depth,
                dependency_digest,
                content_type,
                state: standing.state,
                reference_epoch: standing.reference_epoch,
                strong_reference_count: standing.strong_reference_count,
                last_zero_ref_version: standing.last_zero_ref_version,
            },
        )
    }
}

proof fn lemma_optional_version_back(
    version: Option<CommitVersion>,
    tail: Seq<u8>,
    field: &'static str,
)
    requires
        version is Some ==> version.unwrap().wf(),
    ensures
        step_optional_version(start(optional_version_bytes(version) + tail), field) == (
            version,
            start::<PublicationRecordCodecError>(tail),
        ),
{
    broadcast use crate::wire::group_read_back;

}

proof fn lemma_optional_version_split(
    st: Parse<PublicationRecordCodecError>,
    field: &'static str,
)
    ensures
        step_optional_version(st, field).1.err is None ==> {
            let (version, next) = step_optional_version(st, field);
            &&& st.err is None
            &&& version is Some ==> version.unwrap().wf()
            &&& st.rest == optional_version_bytes(version) + next.rest
        },
{
    broadcast use crate::wire::group_split, crate::wire::lemma_concat_assoc;

}

/// A storable revision record is read back as it was written.
pub proof fn artifact_revision_round_trip(record: ArtifactRevisionView)
    requires
        artifact_revision_fault(record) is None,
        record.dependency_digest.len() == 32,
        record.last_zero_ref_version is Some ==> record.last_zero_ref_version.unwrap().wf(),
    ensures
        parse_artifact_revision(artifact_revision_bytes(record)) == Ok::<
            _,
            PublicationRecordCodecError,
        >(record),
{
    broadcast use crate::wire::group_steps_back;

    let p0 = seq![PUBLICATION_VALUE_FORMAT_VERSION];
    let p1 = p0 + be_bytes(record.logical_size as nat, 8);
    let p2 = p1 + sized(utf8(record.body_digest_uri));
    let p3 = p2 + sized(utf8(record.manifest_digest_uri));
    let p4 = p3 + be_bytes(record.block_count as nat, 8);
    let p5 = p4 + be_bytes(record.dependency_count as nat, 4);
    let p6 = p5 + seq![record.dependency_depth];
    let p7 = p6 + record.dependency_digest;
    let p8 = p7 + sized(utf8(record.content_type));
    let p9 = p8 + seq![record.state.spec_tag()];
    let p10 = p9 + be_bytes(record.reference_epoch.value as nat, 8);
    let p11 = p10 + be_bytes(record.strong_reference_count as nat, 8);
    let p12 = p11 + optional_version_bytes(record.last_zero_ref_version);
    let t13 = Seq::<u8>::empty();
    let t12 = optional_version_bytes(record.last_zero_ref_version) + t13;
    let t11 = be_bytes(record.strong_reference_count as nat, 8) + t12;
    let t10 = be_bytes(record.reference_epoch.value as nat, 8) + t11;
    let t9 = seq![record.state.spec_tag()] + t10;
    let t8 = sized(utf8(record.content_type)) + t9;
    let t7 = record.dependency_digest + t8;
    let t6 = seq![record.dependency_depth] + t7;
    let t5 = be_bytes(record.dependency_count as nat, 4) + t6;
    let t4 = be_bytes(record.block_count as nat, 8) + t5;
    let t3 = sized(utf8(record.manifest_digest_uri)) + t4;
    let t2 = sized(utf8(record.body_digest_uri)) + t3;
    let t1 = be_bytes(record.logical_size as nat, 8) + t2;
    lemma_concat_empty(p12);
    lemma_concat_assoc(p11, optional_version_bytes(record.last_zero_ref_version), t13);
    lemma_concat_assoc(p10, be_bytes(record.strong_reference_count as nat, 8), t12);
    lemma_concat_assoc(p9, be_bytes(record.reference_epoch.value as nat, 8), t11);
    lemma_concat_assoc(p8, seq![record.state.spec_tag()], t10);
    lemma_concat_assoc(p7, sized(utf8(record.content_type)), t9);
    lemma_concat_assoc(p6, record.dependency_digest, t8);
    lemma_concat_assoc(p5, seq![record.dependency_depth], t7);
    lemma_concat_assoc(p4, be_bytes(record.dependency_count as nat, 4), t6);
    lemma_concat_assoc(p3, be_bytes(record.block_count as nat, 8), t5);
    lemma_concat_assoc(p2, sized(utf8(record.manifest_digest_uri)), t4);
    lemma_concat_assoc(p1, sized(utf8(record.body_digest_uri)), t3);
    lemma_concat_assoc(p0, be_bytes(record.logical_size as nat, 8), t2);
    assert(artifact_revision_bytes(record) == p0 + t1);
    lemma_string_back(record.body_digest_uri, t3, "body_digest_uri", MAX_DIGEST_URI_BYTES);
    lemma_string_back(record.manifest_digest_uri, t4, "manifest_digest_uri", MAX_DIGEST_URI_BYTES);
    lemma_string_back(record.content_type, t9, "content_type", MAX_CONTENT_TYPE_BYTES);
    lemma_optional_version_back(record.last_zero_ref_version, t13, "last_zero_ref_version");
    reveal(step_standing);
}

/// The last fields of a revision record as stored.
pub open spec fn standing_bytes(standing: RevisionStanding) -> Seq<u8> {
    seq![standing.state.spec_tag()] + be_bytes(standing.reference_epoch.value as nat, 8) + be_bytes(
        standing.strong_reference_count as nat,
        8,
    ) + optional_version_bytes(standing.last_zero_ref_version)
}

proof fn lemma_standing_split(st: Parse<PublicationRecordCodecError>)
    ensures
        step_standing(st).1.err is None ==> {
            let (standing, next) = step_standing(st);
            &&& st.err is None
            &&& st.rest == standing_bytes(standing) + next.rest
            &&& standing.last_zero_ref_version is Some
                ==> standing.last_zero_ref_version.unwrap().wf()
        },
{
    broadcast use crate::wire::group_split, crate::wire::lemma_concat_assoc;

    reveal(step_standing);
    let (tag, s1) = step_u8(st, "state");
    let s2 = check(
        s1,
        RevisionState::spec_from_tag(tag) is Some,
        PublicationRecordCodecError::UnknownDiscriminant {
            type_label: "RevisionState",
            value: tag,
        },
    );
    let s3 = step_u64(s2, "reference_epoch").1;
    let s4 = step_u64(s3, "strong_reference_count").1;
    lemma_optional_version_split(s4, "last_zero_ref_version");
}

/// Every accepted revision payload is the one stored form of a storable
/// record.
pub proof fn artifact_revision_canonical(bytes: Seq<u8>)
    requires
        parse_artifact_revision(bytes) is Ok,
    ensures
        bytes == artifact_revision_bytes(parse_artifact_revision(bytes).unwrap()),
        artifact_revision_fault(parse_artifact_revision(bytes).unwrap()) is None,
        parse_artifact_revision(bytes).unwrap().dependency_digest.len() == 32,
{
    broadcast use crate::wire::group_split, crate::wire::lemma_concat_assoc;
    broadcast use crate::wire::lemma_concat_empty;

    let s0 = step_version(start(bytes));
    let (logical_size, s1) = step_u64(s0, "logical_size");
    let (body, s2) = step_string(s1, "body_digest_uri", MAX_DIGEST_URI_BYTES);
    let (manifest, s3) = step_string(s2, "manifest_digest_uri", MAX_DIGEST_URI_BYTES);
    let (block_count, s4) = step_u64(s3, "block_count");
    let (count, s5) = step_u32(s4, "dependency_count");
    let (depth, s6) = step_u8(s5, "dependency_depth");
    let s7 = check_fault(s6, dependency_fault(count, depth));
    let (dependency_digest, s8) = step_digest(s7, "dependency_digest");
    let (content_type, s9) = step_string(s8, "content_type", MAX_CONTENT_TYPE_BYTES);
    lemma_string_split(s1, "body_digest_uri", MAX_DIGEST_URI_BYTES);
    lemma_string_split(s2, "manifest_digest_uri", MAX_DIGEST_URI_BYTES);
    lemma_string_split(s8, "content_type", MAX_CONTENT_TYPE_BYTES);
    lemma_standing_split(s9);
}

/// Epoch-keyed candidate for fenced artifact-revision garbage collection.
#[derive(Debug, PartialEq, Eq)]
pub struct GcCandidateRecord {
    pub last_zero_ref_version: CommitVersion,
    pub claim_state: GcClaimState,
    pub retry_count: u32,
    pub quarantine_evidence: Option<Vec<u8>>,
}

/// A candidate with its evidence as a sequence.
#[verifier::ext_equal]
pub struct GcCandidateView {
    pub last_zero_ref_version: CommitVersion,
    pub claim_state: GcClaimState,
    pub retry_count: u32,
    pub quarantine_evidence: Option<Seq<u8>>,
}

impl View for GcCandidateRecord {
    type V = GcCandidateView;

    open spec fn view(&self) -> GcCandidateView {
        GcCandidateView {
            last_zero_ref_version: self.last_zero_ref_version,
            claim_state: self.claim_state,
            retry_count: self.retry_count,
            quarantine_evidence: optional_bytes(self.quarantine_evidence),
        }
    }
}

/// Why a candidate cannot be stored, if it cannot.
pub open spec fn gc_candidate_fault(record: GcCandidateView) -> Option<
    PublicationRecordCodecError,
> {
    match record.quarantine_evidence {
        None => None,
        Some(evidence) => length_fault(
            "quarantine_evidence",
            evidence.len(),
            MAX_QUARANTINE_EVIDENCE_BYTES,
        ),
    }
}

/// The stored form of a candidate.
pub open spec fn gc_candidate_bytes(record: GcCandidateView) -> Seq<u8> {
    seq![PUBLICATION_VALUE_FORMAT_VERSION] + be_bytes(record.last_zero_ref_version.value as nat, 8)
        + seq![record.claim_state.spec_tag()] + be_bytes(record.retry_count as nat, 4)
        + optional_sized_bytes(record.quarantine_evidence)
}

/// The candidate that a payload holds, or why it holds none.
pub open spec fn parse_gc_candidate(bytes: Seq<u8>) -> Result<
    GcCandidateView,
    PublicationRecordCodecError,
> {
    let s0 = step_version(start(bytes));
    let (version, s1) = step_commit_version(s0, "last_zero_ref_version");
    let (tag, s2) = step_u8(s1, "claim_state");
    let state = GcClaimState::spec_from_tag(tag);
    let s3 = check(
        s2,
        state is Some,
        PublicationRecordCodecError::UnknownDiscriminant { type_label: "GcClaimState", value: tag },
    );
    let (retry_count, s4) = step_u32(s3, "retry_count");
    let (evidence, s5) = step_optional_bytes(
        s4,
        "quarantine_evidence",
        MAX_QUARANTINE_EVIDENCE_BYTES,
    );
    outcome(
        step_end(s5),
        GcCandidateView {
            last_zero_ref_version: version,
            claim_state: state.unwrap(),
            retry_count,
            quarantine_evidence: evidence,
        },
    )
}

impl GcCandidateRecord {
    pub fn encode(&self) -> (result: Result<Vec<u8>, PublicationRecordCodecError>)
        ensures
            match result {
                Ok(bytes) => gc_candidate_fault(self@) is None && bytes@ == gc_candidate_bytes(
                    self@,
                ),
                Err(error) => gc_candidate_fault(self@) == Some(error),
            },
    {
        if let Some(evidence) = &self.quarantine_evidence {
            check_length("quarantine_evidence", evidence.len(), MAX_QUARANTINE_EVIDENCE_BYTES)?;
        }
        let mut out: Vec<u8> = vec![PUBLICATION_VALUE_FORMAT_VERSION];
        assert(out@ =~= seq![PUBLICATION_VALUE_FORMAT_VERSION]);
        put_be(&mut out, self.last_zero_ref_version.value as u128, 8);
        put_byte(&mut out, self.claim_state.tag());
        put_be(&mut out, self.retry_count as u128, 4);
        put_optional_bytes(&mut out, &self.quarantine_evidence);
        Ok(out)
    }

    pub fn decode(encoded: &[u8]) -> (result: Result<
        GcCandidateRecord,
        PublicationRecordCodecError,
    >)
        ensures
            viewed(result) == parse_gc_candidate(encoded@),
    {
        let mut reader = Reader::new(encoded);
        read_version(&mut reader)?;
        let version: CommitVersion = read_commit_version(&mut reader, "last_zero_ref_version")?;
        let tag: u8 = reader.u8("claim_state")?;
        let state = match GcClaimState::from_tag(tag) {
            None => {
                return Err(
                    PublicationRecordCodecError::UnknownDiscriminant {
                        type_label: "GcClaimState",
                        value: tag,
                    },
                );
            },
            Some(state) => state,
        };
        let retry_count: u32 = reader.u32("retry_count")?;
        let evidence: Option<Vec<u8>> = read_optional_bytes(
            &mut reader,
            "quarantine_evidence",
            MAX_QUARANTINE_EVIDENCE_BYTES,
        )?;
        reader.end()?;
        Ok(
            GcCandidateRecord {
                last_zero_ref_version: version,
                claim_state: state,
                retry_count,
                quarantine_evidence: evidence,
            },
        )
    }
}

/// A storable candidate is read back as it was written.
pub proof fn gc_candidate_round_trip(record: GcCandidateView)
    requires
        gc_candidate_fault(record) is None,
        record.last_zero_ref_version.wf(),
    ensures
        parse_gc_candidate(gc_candidate_bytes(record)) == Ok::<_, PublicationRecordCodecError>(
            record,
        ),
{
    broadcast use crate::wire::group_read_back, crate::wire::lemma_concat_empty;

    assert(gc_candidate_bytes(record) + Seq::<u8>::empty() == gc_candidate_bytes(record));
}

/// Every accepted candidate payload is the one stored form of a storable
/// candidate.
pub proof fn gc_candidate_canonical(bytes: Seq<u8>)
    requires
        parse_gc_candidate(bytes) is Ok,
    ensures
        bytes == gc_candidate_bytes(parse_gc_candidate(bytes).unwrap()),
        gc_candidate_fault(parse_gc_candidate(bytes).unwrap()) is None,
        parse_gc_candidate(bytes).unwrap().last_zero_ref_version.wf(),
{
    broadcast use crate::wire::group_split, crate::wire::lemma_concat_assoc;
    broadcast use crate::wire::lemma_concat_empty;

}

} // verus!
