//! What the recovery log accepts: rows that carry evidence of their mutation,
//! and segments that continue each other without a gap.

use crate::be::{be_bytes, lemma_pow256_values};
use crate::command::RecoveryCodecError;
use crate::digest::sha256_of;
use crate::ids::{id_bytes, LogicalShardId};
use crate::publication_input_laws::{collide, lemma_same_head, lemma_same_number};
use crate::recovery::{genesis_digest_of, pair_fault, record_bytes, record_fault, RecordView};
use crate::recovery_mutation::{mutation_bytes, mutation_fault, result_bytes, result_fault,
    RecoveryMutationView, RecoveryResultView};
use crate::recovery_segment::{follows, hashed_rows, row_fault, rows_fault, seal_fault,
    segment_digest_of, segment_fault, segment_length, succession_fault, SegmentView};
use crate::recovery_storage::{chunk_data, chunks_needed, storage_chunks};
use crate::text::utf8;
use vstd::prelude::*;

verus! {

/// A result is evidence of its mutation exactly where it is of the same kind
/// and says what the mutation came to: a command returned its own result one
/// version after it read, a clock reports the positive time that was observed,
/// and an owner advance applied the next epoch, which is later than the one it
/// expected.
pub proof fn results_are_evidence_exactly(
    mutation: RecoveryMutationView,
    result: RecoveryResultView,
)
    ensures
        ({
            let evident = match mutation {
                RecoveryMutationView::MetadataCommand { command, .. } => {
                    &&& result matches RecoveryResultView::MetadataCommand {
                        commit_version,
                        deterministic_result,
                    }
                    &&& commit_version.value == command.read_version.value + 1
                    &&& deterministic_result == command.deterministic_result
                },
                RecoveryMutationView::ObserveLeaseClock { observed_ms, .. } => {
                    &&& observed_ms > 0
                    &&& result == RecoveryResultView::LeaseClock {
                        effective_high_water_ms: observed_ms,
                    }
                },
                RecoveryMutationView::AdvanceOwnerEpoch { expected, next } => {
                    &&& result == RecoveryResultView::OwnerEpoch { applied_owner_epoch: next }
                    &&& expected is None || expected.unwrap().value < next.value
                },
            };
            &&& evident ==> pair_fault(mutation, result) is None
            &&& !evident ==> pair_fault(mutation, result) == Some(
                RecoveryCodecError::InvalidValue { field: "mutation_result_pair" },
            )
        }),
{
}

/// A row is stored exactly where its result is evidence of its mutation, both
/// can be stored, its number is positive, and its digest chains the row to the
/// one before: it is over that row's digest, the number, and what the row
/// carries, each with its length.
pub proof fn rows_are_chained_by_their_digest(record: RecordView)
    ensures
        record_fault(record) is None <==> {
            let mutation = mutation_bytes(record.mutation);
            let result = result_bytes(record.result);
            &&& pair_fault(record.mutation, record.result) is None
            &&& mutation_fault(record.mutation, record.format_version) is None
            &&& result_fault(record.result) is None
            &&& record.recovery_lsn > 0
            &&& record.chain_digest == sha256_of(
                utf8("nokv.metadata.recovery.chain.v1\0"@) + record.previous_chain_digest
                    + be_bytes(record.recovery_lsn as nat, 8) + (be_bytes(mutation.len(), 8)
                    + mutation) + (be_bytes(result.len(), 8) + result),
            )
        },
{
}

/// A row continues another exactly where its number is the next one and it
/// names the other's digest. A number that comes again, goes back or leaves a
/// gap is refused as such.
pub proof fn rows_continue_exactly(previous: RecordView, record: RecordView)
    ensures
        succession_fault(previous, record) is None <==> {
            &&& record.recovery_lsn == previous.recovery_lsn + 1
            &&& record.previous_chain_digest == previous.chain_digest
        },
        previous.recovery_lsn < u64::MAX ==> {
            let (before, after) = (previous.recovery_lsn, record.recovery_lsn);
            &&& after == before ==> succession_fault(previous, record) == Some(
                RecoveryCodecError::DuplicateRecoveryLsn { lsn: after },
            )
            &&& after < before ==> succession_fault(previous, record) == Some(
                RecoveryCodecError::RecoveryLsnRegression { previous: before, actual: after },
            )
            &&& after > before + 1 ==> succession_fault(previous, record) == Some(
                RecoveryCodecError::RecoveryLsnGap {
                    expected: (before + 1) as u64,
                    actual: after,
                },
            )
            &&& after == before + 1 && record.previous_chain_digest != previous.chain_digest
                ==> succession_fault(previous, record) == Some(
                RecoveryCodecError::ChainDigestMismatch,
            )
        },
{
}

/// Rows are sealed into a segment exactly where there is at least one, they
/// are within the limits of a segment, each can be stored and is of the
/// segment's shard, and each continues the one before.
pub proof fn segments_are_sealed_exactly(shard: LogicalShardId, records: Seq<RecordView>)
    ensures
        seal_fault(shard, records) is None <==> {
            &&& 1 <= records.len() <= 1024
            &&& segment_length(records) <= 67_108_864
            &&& forall|i: int|
                0 <= i < records.len() ==> {
                    &&& record_fault(#[trigger] records[i]) is None
                    &&& records[i].mutation matches RecoveryMutationView::MetadataCommand {
                        command,
                        ..
                    } ==> command.logical_shard_id == shard
                    &&& i > 0 ==> succession_fault(records[i - 1], records[i]) is None
                }
        },
{
    lemma_rows_fault(shard, records, records.len());
}

proof fn lemma_rows_fault(shard: LogicalShardId, records: Seq<RecordView>, n: nat)
    requires
        n <= records.len(),
    ensures
        rows_fault(shard, records, n) is None <==> forall|i: int|
            0 <= i < n ==> {
                &&& record_fault(#[trigger] records[i]) is None
                &&& records[i].mutation matches RecoveryMutationView::MetadataCommand {
                    command,
                    ..
                } ==> command.logical_shard_id == shard
                &&& i > 0 ==> succession_fault(records[i - 1], records[i]) is None
            },
    decreases n,
{
    if n > 0 {
        lemma_rows_fault(shard, records, (n - 1) as nat);
        let last = records[n - 1];
        assert(row_fault(shard, records, n - 1) is None <==> {
            &&& record_fault(last) is None
            &&& last.mutation matches RecoveryMutationView::MetadataCommand { command, .. }
                ==> command.logical_shard_id == shard
            &&& n > 1 ==> succession_fault(records[n - 2], last) is None
        });
    }
}

/// A verified segment extends a tail exactly where its first row is the next
/// one and names the tail's digest; the tail is then at its last row.
pub proof fn segments_extend_exactly(segment: SegmentView, applied: u64, chain: Seq<u8>)
    requires
        segment_fault(segment) is None,
    ensures
        follows(segment, applied, chain) is Ok <==> {
            &&& segment.records[0].recovery_lsn == applied + 1
            &&& segment.records[0].previous_chain_digest == chain
        },
        follows(segment, applied, chain) matches Ok(tail) ==> {
            let last = segment.records[segment.records.len() - 1];
            &&& tail.0 == last.recovery_lsn
            &&& tail.1 == last.chain_digest
        },
{
}

/// A row is split into as many chunks as its length needs, of at most 61440
/// bytes each, and all but the last are full.
pub proof fn rows_are_split_evenly(logical: Seq<u8>, i: int)
    requires
        0 <= i < storage_chunks(logical).len(),
    ensures
        storage_chunks(logical).len() == chunks_needed(logical.len()),
        (storage_chunks(logical).len() - 1) * 61_440 < logical.len(),
        logical.len() <= storage_chunks(logical).len() * 61_440,
        i < storage_chunks(logical).len() - 1 ==> chunk_data(logical, i).len() == 61_440,
        0 < chunk_data(logical, i).len() <= 61_440,
        forall|j: int|
            0 <= j < chunk_data(logical, i).len() ==> #[trigger] chunk_data(logical, i)[j]
                == logical[i * 61_440 + j],
{
}

/// A segment's digest is over its shard, the numbers of its first and last
/// rows, the digest before the first, that of the last, the number of rows, and
/// every row behind its length; each row adds its own bytes.
pub proof fn segment_digests_cover_their_rows(
    shard: LogicalShardId,
    records: Seq<RecordView>,
    record: RecordView,
)
    ensures
        ({
            let all = records.push(record);
            let first = all[0];
            let rows = hashed_rows(all);
            let bytes = record_bytes(record);
            &&& segment_digest_of(shard, all) == sha256_of(
                utf8("nokv.metadata.recovery.segment.v1\0"@) + id_bytes(shard.bits) + be_bytes(
                    first.recovery_lsn as nat,
                    8,
                ) + be_bytes(record.recovery_lsn as nat, 8) + first.previous_chain_digest
                    + record.chain_digest + be_bytes(all.len(), 8) + rows,
            )
            &&& rows == hashed_rows(records) + (be_bytes(bytes.len(), 8) + bytes)
        }),
        hashed_rows(Seq::empty()) == Seq::<u8>::empty(),
{
    let all = records.push(record);
    assert(all.drop_last() =~= records);
}

/// The chain of a shard starts from a digest over the shard alone, which differs
/// between shards unless different bytes have one digest.
pub proof fn chains_start_at_their_shard(a: LogicalShardId, b: LogicalShardId)
    requires
        genesis_digest_of(a) == genesis_digest_of(b),
    ensures
        ({
            let domain = utf8("nokv.metadata.recovery.genesis.v1\0"@);
            collide(domain + id_bytes(a.bits), domain + id_bytes(b.bits)) || a == b
        }),
{
    let domain = utf8("nokv.metadata.recovery.genesis.v1\0"@);
    let (x, y) = (id_bytes(a.bits), id_bytes(b.bits));
    if domain + x == domain + y {
        lemma_pow256_values();
        lemma_same_head(domain, domain, x, y);
        let none = Seq::<u8>::empty();
        assert(x + none =~= x && y + none =~= y);
        lemma_same_number(a.bits as nat, b.bits as nat, 16, none, none);
    }
}

} // verus!
