//! Where the parts of recovery rows, segments and their keys stand.

use crate::be::{be_bytes, lemma_be_bytes_len, lemma_be_round_trip, lemma_pow256_values};
use crate::command::{root_action_bytes, RootFenceAction};
use crate::ids::{OwnerEpoch, PlacementGeneration, RootActivationState, RootId};
use crate::recovery::{pair_fault, record_bytes, RecordView};
use crate::recovery_mutation::{mutation_bytes, result_bytes, RecoveryMutationView,
    RecoveryResultView};
use crate::recovery_segment::{lemma_magic_length, rows_bytes, segment_bytes, SegmentView};
use crate::recovery_storage::{chunk_key, decimal, decimal_value, header_key,
    lemma_decimal_round_trip, lemma_lsn_fits, storage_chunk_bytes, storage_header_bytes,
    RecoveryKeyLayout};
use crate::stored_format_laws::{lemma_number_at, number_at};
use crate::text::utf8;
use crate::wire::{lemma_concat_assoc, lemma_concat_empty};
use vstd::prelude::*;

verus! {

/// A recovery row holds its format at 0, its number at 1, the digest of the row
/// before it at 9, its own at 41, and then its mutation and its result, each
/// behind its length.
pub proof fn rows_are_stored_in_place(record: RecordView)
    requires
        record.previous_chain_digest.len() == 32,
        record.chain_digest.len() == 32,
        mutation_bytes(record.mutation).len() <= u32::MAX,
        result_bytes(record.result).len() <= u32::MAX,
    ensures
        ({
            let bytes = record_bytes(record);
            let mutation = mutation_bytes(record.mutation);
            let result = result_bytes(record.result);
            let m = mutation.len() as int;
            &&& bytes[0] == record.format_version
            &&& number_at(bytes, 1, 8) == record.recovery_lsn
            &&& bytes.subrange(9, 41) == record.previous_chain_digest
            &&& bytes.subrange(41, 73) == record.chain_digest
            &&& number_at(bytes, 73, 4) == m
            &&& bytes.subrange(77, 77 + m) == mutation
            &&& number_at(bytes, 77 + m, 4) == result.len()
            &&& bytes.skip(81 + m) == result
        }),
{
    broadcast use lemma_concat_assoc;

    lemma_pow256_values();
    let bytes = record_bytes(record);
    let mutation = mutation_bytes(record.mutation);
    let result = result_bytes(record.result);
    let (m, r) = (mutation.len(), result.len());
    let h0 = seq![record.format_version];
    let h1 = h0 + be_bytes(record.recovery_lsn as nat, 8);
    let h2 = h1 + record.previous_chain_digest;
    let h3 = h2 + record.chain_digest;
    let h4 = h3 + be_bytes(m, 4) + mutation;
    let t4 = be_bytes(r, 4) + result;
    let t3 = be_bytes(m, 4) + (mutation + t4);
    lemma_number_at(h0, record.recovery_lsn as nat, 8, record.previous_chain_digest + (
    record.chain_digest + t3));
    lemma_number_at(h3, m, 4, mutation + t4);
    lemma_number_at(h4, r, 4, result);
    assert(bytes == h0 + be_bytes(record.recovery_lsn as nat, 8) + (record.previous_chain_digest + (
    record.chain_digest + t3)));
    assert(bytes == h3 + be_bytes(m, 4) + (mutation + t4));
    assert(bytes == h4 + be_bytes(r, 4) + result);
    assert(bytes.subrange(9, 41) =~= record.previous_chain_digest);
    assert(bytes.subrange(41, 73) =~= record.chain_digest);
    assert(bytes.subrange(77, 77 + m as int) =~= mutation);
    assert(bytes.skip(81 + m as int) =~= result);
}

/// A mutation begins with its kind, and a result with that of the mutation that
/// it is evidence of.
pub proof fn kinds_are_stored_first(mutation: RecoveryMutationView, result: RecoveryResultView)
    ensures
        mutation_bytes(mutation)[0] == (match mutation {
            RecoveryMutationView::MetadataCommand { .. } => 1u8,
            RecoveryMutationView::ObserveLeaseClock { .. } => 2u8,
            RecoveryMutationView::AdvanceOwnerEpoch { .. } => 3u8,
        }),
        result_bytes(result)[0] == (match result {
            RecoveryResultView::MetadataCommand { .. } => 1u8,
            RecoveryResultView::LeaseClock { .. } => 2u8,
            RecoveryResultView::OwnerEpoch { .. } => 3u8,
        }),
        mutation is MetadataCommand && pair_fault(mutation, result) is None
            ==> mutation_bytes(mutation)[0] == result_bytes(result)[0],
{
    lemma_command_first(mutation);
    match result {
        RecoveryResultView::MetadataCommand { commit_version, deterministic_result } => {
            assert(result_bytes(result)[0] == 1u8);
        },
        RecoveryResultView::LeaseClock { effective_high_water_ms } => {},
        RecoveryResultView::OwnerEpoch { applied_owner_epoch } => {},
    }
}

proof fn lemma_command_first(mutation: RecoveryMutationView)
    ensures
        mutation_bytes(mutation).len() > 0,
        mutation_bytes(mutation)[0] == (match mutation {
            RecoveryMutationView::MetadataCommand { .. } => 1u8,
            RecoveryMutationView::ObserveLeaseClock { .. } => 2u8,
            RecoveryMutationView::AdvanceOwnerEpoch { .. } => 3u8,
        }),
{
}

/// Results hold a version or a clock at 1, and clock mutations their root at 1,
/// their generation at 17, their epoch at 25 and their time at 33.
pub proof fn clocks_are_stored_in_place(
    root_id: RootId,
    placement_generation: PlacementGeneration,
    owner_epoch: OwnerEpoch,
    observed_ms: u64,
)
    ensures
        ({
            let bytes = mutation_bytes(
                RecoveryMutationView::ObserveLeaseClock {
                    root_id,
                    placement_generation,
                    owner_epoch,
                    observed_ms,
                },
            );
            &&& bytes.len() == 41
            &&& number_at(bytes, 1, 16) == root_id.bits
            &&& number_at(bytes, 17, 8) == placement_generation.value
            &&& number_at(bytes, 25, 8) == owner_epoch.value
            &&& number_at(bytes, 33, 8) == observed_ms
        }),
        number_at(
            result_bytes(RecoveryResultView::LeaseClock { effective_high_water_ms: observed_ms }),
            1,
            8,
        ) == observed_ms,
        number_at(
            result_bytes(RecoveryResultView::OwnerEpoch { applied_owner_epoch: owner_epoch }),
            1,
            8,
        ) == owner_epoch.value,
{
    broadcast use {lemma_concat_assoc, lemma_concat_empty};

    lemma_pow256_values();
    let none = Seq::<u8>::empty();
    let (a, b, c, d) = (
        root_id.bits as nat,
        placement_generation.value as nat,
        owner_epoch.value as nat,
        observed_ms as nat,
    );
    let h0 = seq![2u8];
    let h1 = h0 + be_bytes(a, 16);
    let h2 = h1 + be_bytes(b, 8);
    let h3 = h2 + be_bytes(c, 8);
    lemma_number_at(h0, a, 16, be_bytes(b, 8) + (be_bytes(c, 8) + be_bytes(d, 8)));
    lemma_number_at(h1, b, 8, be_bytes(c, 8) + be_bytes(d, 8));
    lemma_number_at(h2, c, 8, be_bytes(d, 8));
    lemma_number_at(h3, d, 8, none);
    lemma_number_at(h0, d, 8, none);
    lemma_number_at(seq![3u8], c, 8, none);
}

/// A segment begins with its magic, and holds its format at 8, its shard at 9,
/// its first and last numbers at 25 and 33, the digest before it at 41, its last
/// row's at 73, its own at 105 and its number of rows at 137, with the rows
/// behind it.
pub proof fn segments_are_stored_in_place(segment: SegmentView)
    requires
        segment.previous_chain_digest.len() == 32,
        segment.last_chain_digest.len() == 32,
        segment.segment_digest.len() == 32,
        segment.records.len() <= u32::MAX,
    ensures
        ({
            let bytes = segment_bytes(segment);
            &&& bytes.take(8) == utf8("NOKVRSG1"@)
            &&& bytes[8] == segment.format_version
            &&& number_at(bytes, 9, 16) == segment.logical_shard_id.bits
            &&& number_at(bytes, 25, 8) == segment.first_lsn
            &&& number_at(bytes, 33, 8) == segment.last_lsn
            &&& bytes.subrange(41, 73) == segment.previous_chain_digest
            &&& bytes.subrange(73, 105) == segment.last_chain_digest
            &&& bytes.subrange(105, 137) == segment.segment_digest
            &&& number_at(bytes, 137, 4) == segment.records.len()
            &&& bytes.skip(141) == rows_bytes(segment.records)
        }),
{
    broadcast use lemma_be_bytes_len;

    lemma_pow256_values();
    lemma_magic_length();
    let bytes = segment_bytes(segment);
    let (a, b, c, n) = (
        segment.logical_shard_id.bits as nat,
        segment.first_lsn as nat,
        segment.last_lsn as nat,
        segment.records.len(),
    );
    lemma_be_round_trip(a, 16);
    lemma_be_round_trip(b, 8);
    lemma_be_round_trip(c, 8);
    lemma_be_round_trip(n, 4);
    assert(bytes.take(8) =~= utf8("NOKVRSG1"@));
    assert(bytes.subrange(9, 25) =~= be_bytes(a, 16));
    assert(bytes.subrange(25, 33) =~= be_bytes(b, 8));
    assert(bytes.subrange(33, 41) =~= be_bytes(c, 8));
    assert(bytes.subrange(41, 73) =~= segment.previous_chain_digest);
    assert(bytes.subrange(73, 105) =~= segment.last_chain_digest);
    assert(bytes.subrange(105, 137) =~= segment.segment_digest);
    assert(bytes.subrange(137, 141) =~= be_bytes(n, 4));
    assert(bytes.skip(141) =~= rows_bytes(segment.records));
}

/// A row's header key is a byte of its layout and the row's number, and its
/// chunk keys another byte, the number and the chunk's place.
pub proof fn storage_keys_are_laid_out(lsn: u64, index: u32)
    ensures
        header_key(RecoveryKeyLayout::Format8, lsn) == seq![0u8] + be_bytes(lsn as nat, 8),
        chunk_key(RecoveryKeyLayout::Format8, lsn, index) == seq![1u8] + be_bytes(lsn as nat, 8)
            + be_bytes(index as nat, 4),
        header_key(RecoveryKeyLayout::Format9, lsn)[0] == 2,
        header_key(RecoveryKeyLayout::Format9, lsn).len() == 21,
        decimal_value(header_key(RecoveryKeyLayout::Format9, lsn).skip(1)) == lsn,
        chunk_key(RecoveryKeyLayout::Format9, lsn, index)[0] == 3,
        chunk_key(RecoveryKeyLayout::Format9, lsn, index).len() == 25,
        decimal_value(chunk_key(RecoveryKeyLayout::Format9, lsn, index).subrange(1, 21)) == lsn,
        number_at(chunk_key(RecoveryKeyLayout::Format9, lsn, index), 21, 4) == index,
{
    broadcast use lemma_concat_empty;

    lemma_pow256_values();
    lemma_lsn_fits(lsn);
    lemma_decimal_round_trip(lsn as nat, 20);
    let head = seq![3u8] + decimal(lsn as nat, 20);
    lemma_number_at(head, index as nat, 4, Seq::empty());
    assert(header_key(RecoveryKeyLayout::Format9, lsn).skip(1) =~= decimal(lsn as nat, 20));
    assert(chunk_key(RecoveryKeyLayout::Format9, lsn, index).subrange(1, 21) =~= decimal(
        lsn as nat,
        20,
    ));
}

/// A stored header holds the row's length at 1, its number of chunks at 9 and
/// its digest at 13; a chunk holds its place at 1, the number of chunks at 5,
/// its length at 9 and its data behind it.
pub proof fn chunks_are_stored_in_place(
    length: u64,
    count: u32,
    digest: Seq<u8>,
    index: u32,
    data: Seq<u8>,
)
    requires
        digest.len() == 32,
        data.len() <= u32::MAX,
    ensures
        ({
            let bytes = storage_header_bytes(length as nat, count as nat, digest);
            &&& bytes[0] == 1
            &&& number_at(bytes, 1, 8) == length
            &&& number_at(bytes, 9, 4) == count
            &&& bytes.skip(13) == digest
        }),
        ({
            let bytes = storage_chunk_bytes(index as nat, count as nat, data);
            &&& bytes[0] == 1
            &&& number_at(bytes, 1, 4) == index
            &&& number_at(bytes, 5, 4) == count
            &&& number_at(bytes, 9, 4) == data.len()
            &&& bytes.skip(13) == data
        }),
{
    broadcast use lemma_concat_assoc;

    lemma_pow256_values();
    let h0 = seq![1u8];
    let h1 = h0 + be_bytes(length as nat, 8);
    lemma_number_at(h0, length as nat, 8, be_bytes(count as nat, 4) + digest);
    lemma_number_at(h1, count as nat, 4, digest);
    assert(storage_header_bytes(length as nat, count as nat, digest).skip(13) =~= digest);
    let g1 = h0 + be_bytes(index as nat, 4);
    let g2 = g1 + be_bytes(count as nat, 4);
    lemma_number_at(h0, index as nat, 4, be_bytes(count as nat, 4) + (be_bytes(data.len(), 4)
        + data));
    lemma_number_at(g1, count as nat, 4, be_bytes(data.len(), 4) + data);
    lemma_number_at(g2, data.len(), 4, data);
    assert(storage_chunk_bytes(index as nat, count as nat, data).skip(13) =~= data);
}

/// A fence action is one byte, and the states that it names behind it.
pub proof fn fence_actions_are_stored(expected: RootActivationState, next: RootActivationState)
    ensures
        root_action_bytes(RootFenceAction::Install) == seq![1u8],
        root_action_bytes(RootFenceAction::RequireActive) == seq![2u8],
        root_action_bytes(RootFenceAction::Transition { expected, next }) == seq![
            3u8,
            expected.spec_tag(),
            next.spec_tag(),
        ],
        root_action_bytes(RootFenceAction::BindObjectNamespace { expected }) == seq![
            4u8,
            expected.spec_tag(),
        ],
{
    assert(root_action_bytes(RootFenceAction::Transition { expected, next }) =~= seq![
        3u8,
        expected.spec_tag(),
        next.spec_tag(),
    ]);
    assert(root_action_bytes(RootFenceAction::BindObjectNamespace { expected }) =~= seq![
        4u8,
        expected.spec_tag(),
    ]);
}

} // verus!
