//! What the shard's answers mean: each read is answered by its own row at its
//! own version, and a row is what its bytes decode to.

use crate::ids::ReadVersion;
use crate::publication_error::PublicationError;
use crate::publication_plan::{RowKeyView, StopView};
use crate::publication_records::{parse_artifact_revision, parse_path_entry, parse_revision_claim,
    parse_revision_ref, parse_workspace};
use crate::publication_store::{answer_of, build_commit_halt, build_commit_of, bytes_of, claim_halt,
    claim_of, first_answer, manifest_row_halt, manifest_row_of, path_entry_halt, path_entry_of,
    publish_halt, publish_of, read_halt, restore_halt, restore_of, revision_halt, revision_of,
    revision_ref_halt, revision_ref_of, row_of, staged_object_halt, staged_object_of,
    workspace_halt, workspace_of, DecodedRow, MetaShard, RowRead};
use vstd::prelude::*;

verus! {

/// A read is answered exactly where the shard was asked for that row at that
/// version, and by the first such answer.
pub proof fn reads_are_answered_by_their_own_row(
    store: MetaShard,
    version: ReadVersion,
    key: RowKeyView,
)
    ensures
        answer_of(store, version, key) is None <==> forall|i: int|
            0 <= i < store.reads@.len() ==> !((#[trigger] store.reads@[i]).version == version
                && store.reads@[i].key@ == key),
        answer_of(store, version, key) matches Some(answer) ==> exists|i: int|
            0 <= i < store.reads@.len() && (#[trigger] store.reads@[i]).version == version
                && store.reads@[i].key@ == key && store.reads@[i].answer == answer && forall|j: int|
                0 <= j < i ==> !((#[trigger] store.reads@[j]).version == version
                    && store.reads@[j].key@ == key),
{
    reveal(answer_of);
    lemma_first_answer(store.reads@, version, key, 0);
}

proof fn lemma_first_answer(reads: Seq<RowRead>, version: ReadVersion, key: RowKeyView, i: nat)
    requires
        i <= reads.len(),
    ensures
        first_answer(reads, version, key, i) is None <==> forall|k: int|
            i <= k < reads.len() ==> !((#[trigger] reads[k]).version == version && reads[k].key@
                == key),
        first_answer(reads, version, key, i) matches Some(answer) ==> exists|k: int|
            i <= k < reads.len() && (#[trigger] reads[k]).version == version && reads[k].key@ == key
                && reads[k].answer == answer && forall|j: int|
                i <= j < k ==> !((#[trigger] reads[j]).version == version && reads[j].key@ == key),
    decreases reads.len() - i,
{
    if i < reads.len() {
        let here = reads[i as int].version == version && reads[i as int].key@ == key;
        if !here {
            lemma_first_answer(reads, version, key, i + 1);
            if first_answer(reads, version, key, i + 1) is Some {
                let k = choose|k: int|
                    i + 1 <= k < reads.len() && (#[trigger] reads[k]).version == version
                        && reads[k].key@ == key && reads[k].answer == first_answer(
                        reads,
                        version,
                        key,
                        i + 1,
                    ).unwrap() && forall|j: int|
                        i + 1 <= j < k ==> !((#[trigger] reads[j]).version == version
                            && reads[j].key@ == key);
                assert(reads[k].version == version);
            }
        }
    }
}

/// A row that was not read yet is asked for, at the version of the request; a
/// read that failed fails the command with what the shard said.
pub proof fn missing_rows_are_asked_for(store: MetaShard, version: ReadVersion, key: RowKeyView)
    ensures
        read_halt(store, version, key) == (match answer_of(store, version, key) {
            None => Some(StopView::Read { version, key }),
            Some(Err(error)) => Some(StopView::Fail(PublicationError::Meta(error))),
            Some(Ok(_)) => None,
        }),
        answer_of(store, version, key) matches Some(Ok(row)) ==> bytes_of(store, version, key) == (
        match row {
            None => None,
            Some(row) => Some(row.payload@),
        }),
{
    reveal(read_halt);
    reveal(row_of);
    reveal(bytes_of);
}

/// A workspace that was read is what its bytes decode to; where there is no row
/// there is none, and bytes that decode to none fail the command.
pub proof fn workspace_rows_are_decoded(store: MetaShard, version: ReadVersion, key: RowKeyView)
    requires
        read_halt(store, version, key) is None,
    ensures
        match bytes_of(store, version, key) {
            None => workspace_halt(store, version, key) is None && workspace_of(store, version, key) is None,
            Some(bytes) => match parse_workspace(bytes) {
                Ok(record) => workspace_halt(store, version, key) is None && workspace_of(
                    store,
                    version,
                    key,
                ) == Some(record),
                Err(error) => workspace_halt(store, version, key) == Some(
                    StopView::Fail(PublicationError::RecordCodec(error)),
                ),
            },
        },
{
    reveal(workspace_halt);
    reveal(workspace_of);
}

/// A path entry that was read is what its bytes decode to; where there is no row
/// there is none, and bytes that decode to none fail the command.
pub proof fn path_entry_rows_are_decoded(store: MetaShard, version: ReadVersion, key: RowKeyView)
    requires
        read_halt(store, version, key) is None,
    ensures
        match bytes_of(store, version, key) {
            None => path_entry_halt(store, version, key) is None && path_entry_of(store, version, key) is None,
            Some(bytes) => match parse_path_entry(bytes) {
                Ok(record) => path_entry_halt(store, version, key) is None && path_entry_of(
                    store,
                    version,
                    key,
                ) == Some(record),
                Err(error) => path_entry_halt(store, version, key) == Some(
                    StopView::Fail(PublicationError::RecordCodec(error)),
                ),
            },
        },
{
    reveal(path_entry_halt);
    reveal(path_entry_of);
}

/// A artifact revision that was read is what its bytes decode to; where there is no row
/// there is none, and bytes that decode to none fail the command.
pub proof fn revision_rows_are_decoded(store: MetaShard, version: ReadVersion, key: RowKeyView)
    requires
        read_halt(store, version, key) is None,
    ensures
        match bytes_of(store, version, key) {
            None => revision_halt(store, version, key) is None && revision_of(store, version, key) is None,
            Some(bytes) => match parse_artifact_revision(bytes) {
                Ok(record) => revision_halt(store, version, key) is None && revision_of(
                    store,
                    version,
                    key,
                ) == Some(record),
                Err(error) => revision_halt(store, version, key) == Some(
                    StopView::Fail(PublicationError::RecordCodec(error)),
                ),
            },
        },
{
    reveal(revision_halt);
    reveal(revision_of);
}

/// A reference that was read is what its bytes decode to; where there is no row
/// there is none, and bytes that decode to none fail the command.
pub proof fn revision_ref_rows_are_decoded(store: MetaShard, version: ReadVersion, key: RowKeyView)
    requires
        read_halt(store, version, key) is None,
    ensures
        match bytes_of(store, version, key) {
            None => revision_ref_halt(store, version, key) is None && revision_ref_of(store, version, key) is None,
            Some(bytes) => match parse_revision_ref(bytes) {
                Ok(record) => revision_ref_halt(store, version, key) is None && revision_ref_of(
                    store,
                    version,
                    key,
                ) == Some(record),
                Err(error) => revision_ref_halt(store, version, key) == Some(
                    StopView::Fail(PublicationError::RecordCodec(error)),
                ),
            },
        },
{
    reveal(revision_ref_halt);
    reveal(revision_ref_of);
}

/// A claim that was read is what its bytes decode to; where there is no row
/// there is none, and bytes that decode to none fail the command.
pub proof fn claim_rows_are_decoded(store: MetaShard, version: ReadVersion, key: RowKeyView)
    requires
        read_halt(store, version, key) is None,
    ensures
        match bytes_of(store, version, key) {
            None => claim_halt(store, version, key) is None && claim_of(store, version, key) is None,
            Some(bytes) => match parse_revision_claim(bytes) {
                Ok(record) => claim_halt(store, version, key) is None && claim_of(
                    store,
                    version,
                    key,
                ) == Some(record),
                Err(error) => claim_halt(store, version, key) == Some(
                    StopView::Fail(PublicationError::RecordCodec(error)),
                ),
            },
        },
{
    reveal(claim_halt);
    reveal(claim_of);
}

/// A publish operation that was read is what the caller's codec made of the row.
pub proof fn publish_rows_are_what_the_codec_made(store: MetaShard, version: ReadVersion, key: RowKeyView)
    ensures
        answer_of(store, version, key) matches Some(Ok(None)) ==> publish_halt(
            store,
            version,
            key,
        ) is None && publish_of(store, version, key) is None,
        answer_of(store, version, key) matches Some(Ok(Some(row))) ==> (
        row.decoded matches DecodedRow::Publish(Ok(record)) ==> publish_halt(
            store,
            version,
            key,
        ) is None && publish_of(store, version, key) == Some(record)),
        publish_halt(store, version, key) is None && publish_of(store, version, key) is Some
            ==> answer_of(store, version, key) matches Some(Ok(Some(_))),
{
    reveal(read_halt);
    reveal(row_of);
    reveal(publish_halt);
    reveal(publish_of);
}

/// A restore operation that was read is what the caller's codec made of the row.
pub proof fn restore_rows_are_what_the_codec_made(store: MetaShard, version: ReadVersion, key: RowKeyView)
    ensures
        answer_of(store, version, key) matches Some(Ok(None)) ==> restore_halt(
            store,
            version,
            key,
        ) is None && restore_of(store, version, key) is None,
        answer_of(store, version, key) matches Some(Ok(Some(row))) ==> (
        row.decoded matches DecodedRow::Restore(Ok(record)) ==> restore_halt(
            store,
            version,
            key,
        ) is None && restore_of(store, version, key) == Some(record)),
        restore_halt(store, version, key) is None && restore_of(store, version, key) is Some
            ==> answer_of(store, version, key) matches Some(Ok(Some(_))),
{
    reveal(read_halt);
    reveal(row_of);
    reveal(restore_halt);
    reveal(restore_of);
}

/// A commit build that was read is what the caller's codec made of the row.
pub proof fn build_commit_rows_are_what_the_codec_made(store: MetaShard, version: ReadVersion, key: RowKeyView)
    ensures
        answer_of(store, version, key) matches Some(Ok(None)) ==> build_commit_halt(
            store,
            version,
            key,
        ) is None && build_commit_of(store, version, key) is None,
        answer_of(store, version, key) matches Some(Ok(Some(row))) ==> (
        row.decoded matches DecodedRow::BuildCommit(Ok(record)) ==> build_commit_halt(
            store,
            version,
            key,
        ) is None && build_commit_of(store, version, key) == Some(record)),
        build_commit_halt(store, version, key) is None && build_commit_of(store, version, key) is Some
            ==> answer_of(store, version, key) matches Some(Ok(Some(_))),
{
    reveal(read_halt);
    reveal(row_of);
    reveal(build_commit_halt);
    reveal(build_commit_of);
}

/// A staged object that was read is what the caller's codec made of the row.
pub proof fn staged_object_rows_are_what_the_codec_made(store: MetaShard, version: ReadVersion, key: RowKeyView)
    ensures
        answer_of(store, version, key) matches Some(Ok(None)) ==> staged_object_halt(
            store,
            version,
            key,
        ) is None && staged_object_of(store, version, key) is None,
        answer_of(store, version, key) matches Some(Ok(Some(row))) ==> (
        row.decoded matches DecodedRow::StagedObject(Ok(record)) ==> staged_object_halt(
            store,
            version,
            key,
        ) is None && staged_object_of(store, version, key) == Some(record)),
        staged_object_halt(store, version, key) is None && staged_object_of(store, version, key) is Some
            ==> answer_of(store, version, key) matches Some(Ok(Some(_))),
{
    reveal(read_halt);
    reveal(row_of);
    reveal(staged_object_halt);
    reveal(staged_object_of);
}

/// A manifest row that was read is what the caller's codec made of the row.
pub proof fn manifest_rows_are_what_the_codec_made(store: MetaShard, version: ReadVersion, key: RowKeyView)
    ensures
        answer_of(store, version, key) matches Some(Ok(None)) ==> manifest_row_halt(
            store,
            version,
            key,
        ) is None && manifest_row_of(store, version, key) is None,
        answer_of(store, version, key) matches Some(Ok(Some(row))) ==> (
        row.decoded matches DecodedRow::ManifestRow(Ok(record)) ==> manifest_row_halt(
            store,
            version,
            key,
        ) is None && manifest_row_of(store, version, key) == Some(record)),
        manifest_row_halt(store, version, key) is None && manifest_row_of(store, version, key) is Some
            ==> answer_of(store, version, key) matches Some(Ok(Some(_))),
{
    reveal(read_halt);
    reveal(row_of);
    reveal(manifest_row_halt);
    reveal(manifest_row_of);
}

} // verus!
