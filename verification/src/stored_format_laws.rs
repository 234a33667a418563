//! What stands in storage: the byte of every tag, and the place of every field.

use crate::be::{be_bytes, be_value, lemma_be_bytes_len, lemma_be_round_trip, lemma_pow256_values,
    lex_less, pow256};
use crate::change_events::{change_event_bytes, locator_bytes, parse_secondary_index,
    secondary_index_bytes, secondary_index_round_trip, ChangeEventKind, ChangeEventView,
    PathIndexLocatorState, SecondaryIndexView};
use crate::ids::{GcClaimState, MetadataFamily, PathIndexGenerationId, RevisionState,
    RootActivationState, RootId, WorkspaceIncarnationId, WorkspaceState};
use crate::index_keys::index_key;
use crate::publication_error::PublicationError;
use crate::publication_index_stage::{index_keys_cover_the_fields, index_keys_of, index_rows_of,
    stage_result_fault};
use crate::publication_plan::RowKeyView;
use crate::publication_records::{artifact_revision_bytes, gc_candidate_bytes,
    incarnation_claim_bytes, optional_operation_bits, optional_sized_bytes, optional_text_bytes,
    optional_version_bytes, path_entry_bytes, revision_claim_bytes, revision_ref_bytes,
    workspace_bytes, ArtifactRevisionClaimRecord, ArtifactRevisionView, GcCandidateView,
    PathEntryView, RevisionRefRecord, WorkspaceRecord};
use crate::query_records::{fields_bytes, projection_bytes, scalar_bytes, signed_bits, FieldView,
    QueryRecordError, ScalarView};
use crate::text::utf8;
use crate::wire::{lemma_concat_assoc, lemma_concat_empty, optional_id_bytes, sized};
use vstd::prelude::*;

verus! {

/// The states of workspaces, revisions, candidates and roots are numbered from
/// one, and every other byte is refused.
pub proof fn state_bytes_are_fixed(tag: u8)
    ensures
        WorkspaceState::spec_from_tag(tag) == (match tag {
            1 => Some(WorkspaceState::Staging),
            2 => Some(WorkspaceState::Visible),
            3 => Some(WorkspaceState::Retired),
            _ => None,
        }),
        RevisionState::spec_from_tag(tag) == (match tag {
            1 => Some(RevisionState::Available),
            2 => Some(RevisionState::Deleting),
            _ => None,
        }),
        GcClaimState::spec_from_tag(tag) == (match tag {
            1 => Some(GcClaimState::Candidate),
            2 => Some(GcClaimState::Claimed),
            3 => Some(GcClaimState::Deleting),
            4 => Some(GcClaimState::Quarantined),
            _ => None,
        }),
        RootActivationState::spec_from_tag(tag) == (match tag {
            1 => Some(RootActivationState::Installing),
            2 => Some(RootActivationState::Active),
            3 => Some(RootActivationState::Retired),
            _ => None,
        }),
        PathIndexLocatorState::spec_from_tag(tag) == (match tag {
            1 => Some(PathIndexLocatorState::Staged),
            2 => Some(PathIndexLocatorState::Published),
            _ => None,
        }),
        forall|state: WorkspaceState|
            WorkspaceState::spec_from_tag(#[trigger] state.spec_tag()) == Some(state),
        forall|state: RevisionState|
            RevisionState::spec_from_tag(#[trigger] state.spec_tag()) == Some(state),
        forall|state: GcClaimState|
            GcClaimState::spec_from_tag(#[trigger] state.spec_tag()) == Some(state),
        forall|state: RootActivationState|
            RootActivationState::spec_from_tag(#[trigger] state.spec_tag()) == Some(state),
        forall|state: PathIndexLocatorState|
            PathIndexLocatorState::spec_from_tag(#[trigger] state.spec_tag()) == Some(state),
{
}

/// The kinds of events are numbered from one, and every other byte is refused.
pub proof fn event_kind_bytes_are_fixed(tag: u8)
    ensures
        ChangeEventKind::spec_from_tag(tag) == (match tag {
            1 => Some(ChangeEventKind::WorkspaceCreated),
            2 => Some(ChangeEventKind::ArtifactPublished),
            3 => Some(ChangeEventKind::PathRemoved),
            4 => Some(ChangeEventKind::WorkspaceRestored),
            5 => Some(ChangeEventKind::SnapshotMinted),
            6 => Some(ChangeEventKind::SnapshotRenewed),
            7 => Some(ChangeEventKind::SnapshotRetired),
            8 => Some(ChangeEventKind::SnapshotReapClaimed),
            9 => Some(ChangeEventKind::SnapshotReaped),
            10 => Some(ChangeEventKind::SnapshotConsumerAttached),
            11 => Some(ChangeEventKind::SnapshotConsumerReleased),
            12 => Some(ChangeEventKind::CommitAdvanced),
            13 => Some(ChangeEventKind::CommitRetired),
            _ => None,
        }),
        forall|kind: ChangeEventKind|
            ChangeEventKind::spec_from_tag(#[trigger] kind.spec_tag()) == Some(kind),
{
}

/// Scalars are stored behind the byte of their type, and the order of the types
/// is the order of these bytes.
pub proof fn scalar_bytes_are_fixed(value: ScalarView)
    ensures
        scalar_bytes(value)[0] == (match value {
            ScalarView::Null => 1u8,
            ScalarView::Boolean(_) => 2u8,
            ScalarView::Signed(_) => 3u8,
            ScalarView::Unsigned(_) => 4u8,
            ScalarView::Float(_) => 5u8,
            ScalarView::Timestamp(_) => 6u8,
            ScalarView::Bytes(_) => 7u8,
            ScalarView::String(_) => 8u8,
        }),
        value is Null ==> scalar_bytes(value).len() == 1,
        value matches ScalarView::Boolean(b) ==> scalar_bytes(value) == seq![
            2u8,
            if b {
                1u8
            } else {
                0u8
            },
        ],
        value is Signed || value is Unsigned || value is Float || value is Timestamp
            ==> scalar_bytes(value).len() == 9,
        value matches ScalarView::Unsigned(n) ==> be_value(scalar_bytes(value).skip(1)) == n,
        value matches ScalarView::Signed(n) ==> be_value(scalar_bytes(value).skip(1)) == (if n
            >= 0 {
            n as int
        } else {
            0x1_0000_0000_0000_0000 + n
        }),
        value matches ScalarView::Timestamp(n) ==> be_value(scalar_bytes(value).skip(1)) == (if n
            >= 0 {
            n as int
        } else {
            0x1_0000_0000_0000_0000 + n
        }),
        value matches ScalarView::Bytes(bytes) ==> scalar_bytes(value).skip(5) == bytes,
        value matches ScalarView::String(text) ==> scalar_bytes(value).skip(5) == utf8(text),
{
    broadcast use lemma_be_bytes_len;

    lemma_pow256_values();
    match value {
        ScalarView::Null => {},
        ScalarView::Boolean(b) => {
            assert(scalar_bytes(value) =~= seq![
                2u8,
                if b {
                    1u8
                } else {
                    0u8
                },
            ]);
        },
        ScalarView::Signed(n) => {
            lemma_be_round_trip(signed_bits(n), 8);
            assert(scalar_bytes(value).skip(1) =~= be_bytes(signed_bits(n), 8));
        },
        ScalarView::Timestamp(n) => {
            lemma_be_round_trip(signed_bits(n), 8);
            assert(scalar_bytes(value).skip(1) =~= be_bytes(signed_bits(n), 8));
        },
        ScalarView::Unsigned(n) => {
            lemma_be_round_trip(n as nat, 8);
            assert(scalar_bytes(value).skip(1) =~= be_bytes(n as nat, 8));
        },
        ScalarView::Float(n) => {},
        ScalarView::Bytes(bytes) => {
            assert(scalar_bytes(value).skip(5) =~= bytes);
        },
        ScalarView::String(text) => {
            assert(scalar_bytes(value).skip(5) =~= utf8(text));
        },
    }
}

/// A number at a fixed place.
pub open spec fn number_at(bytes: Seq<u8>, at: int, width: int) -> nat {
    be_value(bytes.subrange(at, at + width))
}

pub proof fn lemma_number_at(head: Seq<u8>, v: nat, n: nat, tail: Seq<u8>)
    requires
        v < pow256(n),
    ensures
        number_at(head + be_bytes(v, n) + tail, head.len() as int, n as int) == v,
        (head + be_bytes(v, n)).len() == head.len() + n,
{
    lemma_be_round_trip(v, n);
    let whole = head + be_bytes(v, n) + tail;
    assert(whole.subrange(head.len() as int, head.len() + n as int) =~= be_bytes(v, n));
}

/// A workspace marker is stored in format three: its incarnation at 1, its
/// revision at 17, its state at 25, and whether it has an owner at 26, with the
/// owner behind it.
pub proof fn workspaces_are_stored_in_place(record: WorkspaceRecord)
    ensures
        ({
            let bytes = workspace_bytes(record);
            &&& bytes[0] == 3
            &&& number_at(bytes, 1, 16) == record.incarnation_id.bits
            &&& number_at(bytes, 17, 8) == record.workspace_revision.value
            &&& bytes[25] == record.state.spec_tag()
            &&& match record.owning_operation_id {
                None => bytes.len() == 27 && bytes[26] == 0,
                Some(owner) => bytes.len() == 43 && bytes[26] == 1 && number_at(bytes, 27, 16)
                    == owner.bits,
            }
        }),
{
    lemma_pow256_values();
    broadcast use lemma_concat_assoc, lemma_concat_empty;

    let bytes = workspace_bytes(record);
    let state = seq![record.state.spec_tag()];
    let owner = optional_id_bytes(optional_operation_bits(record.owning_operation_id));
    let h1 = seq![3u8];
    let (a, b) = (record.incarnation_id.bits as nat, record.workspace_revision.value as nat);
    let t2 = state + owner;
    let t1 = be_bytes(b, 8) + t2;
    lemma_number_at(h1, a, 16, t1);
    let h2 = h1 + be_bytes(a, 16);
    lemma_number_at(h2, b, 8, t2);
    let h3 = h2 + be_bytes(b, 8);
    assert(bytes == h3 + state + owner);
    assert(bytes == h1 + be_bytes(a, 16) + t1);
    assert(bytes == h2 + be_bytes(b, 8) + t2);
    if let Some(id) = record.owning_operation_id {
        let h4 = h3 + state + seq![1u8];
        lemma_number_at(h4, id.bits as nat, 16, Seq::empty());
        assert(bytes == h4 + be_bytes(id.bits as nat, 16) + Seq::<u8>::empty());
    }
}

/// Claims and references are stored in format three: the operation, or the
/// epoch, at 1.
pub proof fn references_are_stored_in_place(
    claim: ArtifactRevisionClaimRecord,
    reference: RevisionRefRecord,
    workbench: Seq<char>,
)
    ensures
        revision_claim_bytes(claim)[0] == 3,
        revision_claim_bytes(claim).len() == 17,
        number_at(revision_claim_bytes(claim), 1, 16) == claim.operation_id.bits,
        revision_ref_bytes(reference)[0] == 3,
        revision_ref_bytes(reference).len() == 9,
        number_at(revision_ref_bytes(reference), 1, 8) == reference.reference_epoch_at_add.value,
        incarnation_claim_bytes(workbench)[0] == 3,
        incarnation_claim_bytes(workbench).skip(5) == utf8(workbench),
{
    broadcast use lemma_be_bytes_len;

    lemma_pow256_values();
    broadcast use lemma_concat_empty;

    let none = Seq::<u8>::empty();
    lemma_number_at(seq![3u8], claim.operation_id.bits as nat, 16, none);
    lemma_number_at(seq![3u8], reference.reference_epoch_at_add.value as nat, 8, none);
    assert(incarnation_claim_bytes(workbench).skip(5) =~= utf8(workbench));
}

/// A candidate is stored in format three: the version at which the last
/// reference went at 1, its state at 9, its retries at 10, and whether there is
/// evidence at 14.
pub proof fn candidates_are_stored_in_place(record: GcCandidateView)
    ensures
        ({
            let bytes = gc_candidate_bytes(record);
            &&& bytes[0] == 3
            &&& number_at(bytes, 1, 8) == record.last_zero_ref_version.value
            &&& bytes[9] == record.claim_state.spec_tag()
            &&& number_at(bytes, 10, 4) == record.retry_count
            &&& match record.quarantine_evidence {
                None => bytes.len() == 15 && bytes[14] == 0,
                Some(evidence) => bytes[14] == 1 && bytes.skip(19) == evidence,
            }
        }),
{
    broadcast use lemma_be_bytes_len;

    lemma_pow256_values();
    broadcast use lemma_concat_assoc;

    let bytes = gc_candidate_bytes(record);
    let state = seq![record.claim_state.spec_tag()];
    let evidence = optional_sized_bytes(record.quarantine_evidence);
    let (a, b) = (record.last_zero_ref_version.value as nat, record.retry_count as nat);
    let t1 = state + be_bytes(b, 4) + evidence;
    lemma_number_at(seq![3u8], a, 8, t1);
    assert(bytes == seq![3u8] + be_bytes(a, 8) + t1);
    let h2 = seq![3u8] + be_bytes(a, 8) + state;
    lemma_number_at(h2, b, 4, evidence);
    assert(bytes == h2 + be_bytes(b, 4) + evidence);
    if let Some(e) = record.quarantine_evidence {
        assert(bytes.skip(19) =~= e);
    }
}

/// An index row holds the path's digest at 1 and the index generation at 33, in
/// format two.
pub proof fn index_values_are_stored_in_place(record: SecondaryIndexView)
    requires
        record.path_digest.len() == 32,
    ensures
        ({
            let bytes = secondary_index_bytes(record);
            &&& bytes[0] == 2
            &&& bytes.subrange(1, 33) == record.path_digest
            &&& number_at(bytes, 33, 16) == record.index_generation.bits
            &&& bytes.len() == 49
        }),
{
    broadcast use lemma_concat_empty;

    lemma_pow256_values();
    let head = seq![2u8] + record.path_digest;
    lemma_number_at(head, record.index_generation.bits as nat, 16, Seq::empty());
    assert(secondary_index_bytes(record).subrange(1, 33) =~= record.path_digest);
}

/// A locator holds its state at 1 and its path from 6, in format one.
pub proof fn locators_are_stored_in_place(state: PathIndexLocatorState, path: Seq<char>)
    ensures
        ({
            let bytes = locator_bytes((state, path));
            &&& bytes[0] == 1
            &&& bytes[1] == state.spec_tag()
            &&& bytes.skip(6) == utf8(path)
        }),
{
    broadcast use lemma_be_bytes_len;

    assert(locator_bytes((state, path)).skip(6) =~= utf8(path));
}

/// A path entry is stored in format three: its generation at 1, its index
/// generation at 9, its path's digest at 25 and its revision at 57; the digests
/// of its body and its manifest follow, its size, its dependencies, its content
/// type, its producer, its manifest's name and its fields.
pub proof fn path_entries_are_stored_in_place(entry: PathEntryView)
    requires
        entry.path_digest.len() == 32,
    ensures
        ({
            let bytes = path_entry_bytes(entry);
            &&& bytes[0] == 3
            &&& number_at(bytes, 1, 8) == entry.generation.value
            &&& number_at(bytes, 9, 16) == entry.index_generation.bits
            &&& bytes.subrange(25, 57) == entry.path_digest
            &&& number_at(bytes, 57, 16) == entry.artifact_revision_id.bits
            &&& bytes.skip(73) == sized(utf8(entry.body_digest_uri)) + sized(
                utf8(entry.manifest_digest_uri),
            ) + be_bytes(entry.logical_size as nat, 8) + be_bytes(entry.dependency_count as nat, 4)
                + seq![entry.dependency_depth] + sized(utf8(entry.content_type))
                + optional_text_bytes(entry.producer) + optional_text_bytes(entry.manifest_id)
                + sized(entry.typed_index_projection)
        }),
{
    broadcast use lemma_be_bytes_len;

    lemma_pow256_values();
    let bytes = path_entry_bytes(entry);
    let (a, b, c) = (
        entry.generation.value as nat,
        entry.index_generation.bits as nat,
        entry.artifact_revision_id.bits as nat,
    );
    lemma_be_round_trip(a, 8);
    lemma_be_round_trip(b, 16);
    lemma_be_round_trip(c, 16);
    let head = seq![3u8] + be_bytes(a, 8) + be_bytes(b, 16) + entry.path_digest + be_bytes(c, 16);
    let tail = sized(utf8(entry.body_digest_uri)) + sized(utf8(entry.manifest_digest_uri))
        + be_bytes(entry.logical_size as nat, 8) + be_bytes(entry.dependency_count as nat, 4)
        + seq![entry.dependency_depth] + sized(utf8(entry.content_type)) + optional_text_bytes(
        entry.producer,
    ) + optional_text_bytes(entry.manifest_id) + sized(entry.typed_index_projection);
    assert(bytes == head + tail) by {
        broadcast use lemma_concat_assoc;

    }
    assert(bytes.subrange(1, 9) =~= be_bytes(a, 8));
    assert(bytes.subrange(9, 25) =~= be_bytes(b, 16));
    assert(bytes.subrange(25, 57) =~= entry.path_digest);
    assert(bytes.subrange(57, 73) =~= be_bytes(c, 16));
    assert(bytes.skip(73) =~= tail);
}

/// A revision is stored in format three: its size at 1, the digests of its body
/// and its manifest, its blocks, its dependencies and their digest, its content
/// type, and last its state, its epoch, its count of references and the version
/// at which the last of them went.
pub proof fn revisions_are_stored_in_place(record: ArtifactRevisionView)
    ensures
        ({
            let bytes = artifact_revision_bytes(record);
            &&& bytes[0] == 3
            &&& number_at(bytes, 1, 8) == record.logical_size
            &&& bytes.skip(9) == sized(utf8(record.body_digest_uri)) + sized(
                utf8(record.manifest_digest_uri),
            ) + be_bytes(record.block_count as nat, 8) + be_bytes(
                record.dependency_count as nat,
                4,
            ) + seq![record.dependency_depth] + record.dependency_digest + sized(
                utf8(record.content_type),
            ) + seq![record.state.spec_tag()] + be_bytes(record.reference_epoch.value as nat, 8)
                + be_bytes(record.strong_reference_count as nat, 8) + optional_version_bytes(
                record.last_zero_ref_version,
            )
        }),
        record.last_zero_ref_version is None ==> {
            let bytes = artifact_revision_bytes(record);
            let n = bytes.len() as int;
            &&& n > 18
            &&& bytes[n - 1] == 0
            &&& number_at(bytes, n - 9, 8) == record.strong_reference_count
            &&& number_at(bytes, n - 17, 8) == record.reference_epoch.value
            &&& bytes[n - 18] == record.state.spec_tag()
        },
{
    broadcast use lemma_be_bytes_len;

    lemma_pow256_values();
    let bytes = artifact_revision_bytes(record);
    let a = record.logical_size as nat;
    let (e, c) = (record.reference_epoch.value as nat, record.strong_reference_count as nat);
    lemma_be_round_trip(a, 8);
    lemma_be_round_trip(e, 8);
    lemma_be_round_trip(c, 8);
    let head = seq![3u8] + be_bytes(a, 8);
    let tail = sized(utf8(record.body_digest_uri)) + sized(utf8(record.manifest_digest_uri))
        + be_bytes(record.block_count as nat, 8) + be_bytes(record.dependency_count as nat, 4)
        + seq![record.dependency_depth] + record.dependency_digest + sized(
        utf8(record.content_type),
    ) + seq![record.state.spec_tag()] + be_bytes(e, 8) + be_bytes(c, 8) + optional_version_bytes(
        record.last_zero_ref_version,
    );
    assert(bytes == head + tail) by {
        broadcast use lemma_concat_assoc;

    }
    assert(bytes.subrange(1, 9) =~= be_bytes(a, 8));
    assert(bytes.skip(9) =~= tail);
    if record.last_zero_ref_version is None {
        let n = bytes.len() as int;
        assert(bytes.subrange(n - 9, n - 1) =~= be_bytes(c, 8));
        assert(bytes.subrange(n - 17, n - 9) =~= be_bytes(e, 8));
    }
}

/// An event is stored in format two: its workbench, its workspace, its kind, what
/// it is about, and last the fields before it and the fields after it.
pub proof fn events_are_stored_in_place(event: ChangeEventView)
    ensures
        ({
            let bytes = change_event_bytes(event);
            let name = utf8(event.workbench_id);
            let n = name.len() as int;
            let (before, after) = (projection_bytes(event.before), projection_bytes(event.after));
            let end = bytes.len() as int;
            &&& bytes[0] == 2
            &&& bytes.subrange(5, 5 + n) == name
            &&& number_at(bytes, 5 + n, 16) == event.workspace_incarnation_id.bits
            &&& bytes[21 + n] == event.kind.spec_tag()
            &&& bytes.skip(end - after.len()) == after
            &&& bytes.subrange(
                end - after.len() - 4 - before.len(),
                end - after.len() - 4,
            ) == before
        }),
{
    broadcast use lemma_be_bytes_len;

    lemma_pow256_values();
    let bytes = change_event_bytes(event);
    let name = utf8(event.workbench_id);
    let n = name.len() as int;
    let a = event.workspace_incarnation_id.bits as nat;
    lemma_be_round_trip(a, 16);
    let (before, after) = (projection_bytes(event.before), projection_bytes(event.after));
    let end = bytes.len() as int;
    assert(bytes.subrange(5, 5 + n) =~= name);
    assert(bytes.subrange(5 + n, 21 + n) =~= be_bytes(a, 16));
    assert(bytes.skip(end - after.len()) =~= after);
    assert(bytes.subrange(end - after.len() - 4 - before.len(), end - after.len() - 4) =~= before);
}

/// Fields are stored in format one: their number at 1, and then each behind the
/// length and the bytes of its name.
pub proof fn fields_are_stored_in_place(fields: Seq<FieldView>)
    requires
        fields.len() <= u16::MAX,
        fields.len() > 0,
        utf8(fields[0].0).len() <= u16::MAX,
    ensures
        ({
            let bytes = projection_bytes(fields);
            let name = utf8(fields[0].0);
            let n = name.len() as int;
            let value = scalar_bytes(fields[0].1);
            &&& bytes[0] == 1
            &&& number_at(bytes, 1, 2) == fields.len()
            &&& number_at(bytes, 3, 2) == n
            &&& bytes.subrange(5, 5 + n) == name
            &&& bytes.subrange(5 + n, 5 + n + value.len()) == value
            &&& bytes.skip(5 + n + value.len()) == fields_bytes(fields.skip(1))
        }),
{
    broadcast use lemma_be_bytes_len;

    lemma_pow256_values();
    let bytes = projection_bytes(fields);
    let name = utf8(fields[0].0);
    let n = name.len() as int;
    let value = scalar_bytes(fields[0].1);
    lemma_be_round_trip(fields.len(), 2);
    lemma_be_round_trip(name.len(), 2);
    assert(bytes.subrange(1, 3) =~= be_bytes(fields.len(), 2));
    assert(bytes.subrange(3, 5) =~= be_bytes(name.len(), 2));
    assert(bytes.subrange(5, 5 + n) =~= name);
    assert(bytes.subrange(5 + n, 5 + n + value.len()) =~= value);
    assert(bytes.skip(5 + n + value.len()) =~= fields_bytes(fields.skip(1)));
}

/// Every field of an artifact has its own index row, whose key names the field
/// and its value and whose value names the path and the generation, and there
/// are no other rows.
pub proof fn fields_are_indexed(
    root: RootId,
    workspace: WorkspaceIncarnationId,
    path_digest: Seq<u8>,
    generation: PathIndexGenerationId,
    fields: Seq<FieldView>,
)
    requires
        path_digest.len() == 32,
    ensures
        ({
            let rows = index_rows_of(root, workspace, path_digest, generation, fields);
            &&& forall|i: int|
                0 <= i < fields.len() ==> exists|j: int|
                    0 <= j < rows.len() && (#[trigger] rows[j]).0 == index_key(
                        root,
                        (#[trigger] fields[i]).0,
                        fields[i].1,
                        workspace,
                        path_digest,
                        generation,
                    )
            &&& forall|j: int|
                0 <= j < rows.len() ==> parse_secondary_index((#[trigger] rows[j]).1) == Ok::<
                    SecondaryIndexView,
                    QueryRecordError,
                >(SecondaryIndexView { path_digest, index_generation: generation }) && exists|i: int|
                    0 <= i < fields.len() && rows[j].0 == index_key(
                        root,
                        (#[trigger] fields[i]).0,
                        fields[i].1,
                        workspace,
                        path_digest,
                        generation,
                    )
            &&& forall|j: int, k: int|
                0 <= j < k < rows.len() ==> lex_less(
                    (#[trigger] rows[j]).0,
                    (#[trigger] rows[k]).0,
                )
        }),
{
    let n = fields.len();
    let rows = index_rows_of(root, workspace, path_digest, generation, fields);
    let keys = index_keys_of(root, workspace, path_digest, generation, fields, n);
    index_keys_cover_the_fields(root, workspace, path_digest, generation, fields, n);
    secondary_index_round_trip(SecondaryIndexView { path_digest, index_generation: generation });
    assert forall|i: int| 0 <= i < n implies exists|j: int|
        0 <= j < rows.len() && (#[trigger] rows[j]).0 == index_key(
            root,
            (#[trigger] fields[i]).0,
            fields[i].1,
            workspace,
            path_digest,
            generation,
        ) by {
        let key = index_key(
            root,
            fields[i].0,
            fields[i].1,
            workspace,
            path_digest,
            generation,
        );
        assert(keys.contains(key));
        let j = choose|j: int| 0 <= j < keys.len() && keys[j] == key;
        assert(rows[j].0 == key);
    }
    assert forall|j: int| 0 <= j < rows.len() implies keys.contains((#[trigger] rows[j]).0) by {
        assert(rows[j].0 == keys[j]);
    }
    assert forall|j: int, k: int| 0 <= j < k < rows.len() implies lex_less(
        (#[trigger] rows[j]).0,
        (#[trigger] rows[k]).0,
    ) by {
        assert(lex_less(keys[j], keys[k]));
    }
}

/// The result of a staging is accepted exactly where it is thirty-three bytes,
/// of format two, and carries the digest of what was to be staged; a result of
/// another form is no such result, and another digest is of other inputs.
pub proof fn stage_results_are_accepted_exactly(encoded: Seq<u8>, expected: Seq<u8>)
    requires
        expected.len() == 32,
    ensures
        stage_result_fault(encoded, expected) is None <==> encoded == seq![2u8] + expected,
        stage_result_fault(encoded, expected) == Some(PublicationError::ReplayResultMismatch) <==> !(
        encoded.len() == 33 && encoded[0] == 2),
        stage_result_fault(encoded, expected) == Some(PublicationError::OperationInputMismatch)
            <==> encoded.len() == 33 && encoded[0] == 2 && encoded.skip(1) != expected,
{
    if encoded.len() == 33 && encoded[0] == 2 {
        assert(encoded =~= seq![2u8] + encoded.skip(1));
        if encoded == seq![2u8] + expected {
            assert(encoded.skip(1) =~= expected);
        }
    }
}

/// Every kind of row stands in a family of its own, but for claims and
/// revisions, which share one, and the three kinds of references, which share
/// another.
pub proof fn rows_stand_in_their_family(key: RowKeyView)
    ensures
        match key {
            RowKeyView::Raw { family, .. } => key.family() == family,
            _ => {
                &&& key.family() == MetadataFamily::Operation <==> key is Operation
                &&& key.family() == MetadataFamily::ArtifactRevision <==> key is ArtifactRevision
                    || key is ArtifactRevisionClaim
                &&& key.family() == MetadataFamily::StagedObject <==> key is StagedObject
                &&& key.family() == MetadataFamily::ArtifactManifest <==> key is ArtifactManifest
                &&& key.family() == MetadataFamily::PathCurrent <==> key is PathCurrent
                &&& key.family() == MetadataFamily::WorkspaceCurrent <==> key is WorkspaceCurrent
                &&& key.family() == MetadataFamily::RevisionRef <==> key is PathRevisionRef || key
                    is DependencyRef || key is CommitRef
                &&& key.family() == MetadataFamily::GcCandidate <==> key is GcCandidate
            },
        },
{
}

} // verus!
