//! Bounded, canonical slices of the recovery outbox.

use crate::be::{be_bytes, copy_bytes, put_be, put_slice, same_bytes};
use crate::command::{RecoveryCodecError, RecoveryParse, MAX_RECOVERY_BYTES};
use crate::digest::{sha256, sha256_of};
use crate::ids::{id_bytes, LogicalShardId};
use crate::publication_records::first_fault;
use crate::recovery::{long_sized, parse_record, put_long_sized, record_bytes, record_fault,
    record_valid, sealed_by, RecordView, RecoveryOutboxRecord, RecoveryState};
use crate::recovery_mutation::{RecoveryMutationV1, RecoveryMutationView};
use crate::recovery_storage::byte_rows;
use crate::text::utf8;
use crate::wire::{check, fail, lemma_concat_assoc, lemma_concat_empty, put_sized, sized, start,
    step_bytes, step_digest, step_end, step_id, step_take, step_u32, step_u64, step_u8, stepped,
    viewed, Reader};
use vstd::prelude::*;

verus! {

/// Most bytes of a segment.
pub const MAX_RECOVERY_SEGMENT_BYTES: usize = 67_108_864;

/// Most rows of a segment.
pub const MAX_RECOVERY_SEGMENT_RECORDS: usize = 1024;

/// Format of a segment.
pub const RECOVERY_SEGMENT_FORMAT_VERSION: u8 = 1;

/// Bytes of a segment in front of its rows.
pub const RECOVERY_SEGMENT_FIXED_BYTES: usize = 141;

/// One bounded, canonical slice of the recovery outbox.
#[derive(Clone, Debug, PartialEq, Eq)]
pub struct RecoveryOutboxSegment {
    pub format_version: u8,
    pub logical_shard_id: LogicalShardId,
    pub first_lsn: u64,
    pub last_lsn: u64,
    pub previous_chain_digest: [u8; 32],
    pub last_chain_digest: [u8; 32],
    pub records: Vec<RecoveryOutboxRecord>,
    pub segment_digest: [u8; 32],
}

/// A segment with its bytes and rows as sequences.
#[verifier::ext_equal]
pub struct SegmentView {
    pub format_version: u8,
    pub logical_shard_id: LogicalShardId,
    pub first_lsn: u64,
    pub last_lsn: u64,
    pub previous_chain_digest: Seq<u8>,
    pub last_chain_digest: Seq<u8>,
    pub records: Seq<RecordView>,
    pub segment_digest: Seq<u8>,
}

/// Rows seen through their views.
pub open spec fn record_views(records: Seq<RecoveryOutboxRecord>) -> Seq<RecordView> {
    records.map_values(|record: RecoveryOutboxRecord| record@)
}

impl View for RecoveryOutboxSegment {
    type V = SegmentView;

    open spec fn view(&self) -> SegmentView {
        SegmentView {
            format_version: self.format_version,
            logical_shard_id: self.logical_shard_id,
            first_lsn: self.first_lsn,
            last_lsn: self.last_lsn,
            previous_chain_digest: self.previous_chain_digest@,
            last_chain_digest: self.last_chain_digest@,
            records: record_views(self.records@),
            segment_digest: self.segment_digest@,
        }
    }
}

/// A row whose command targets another shard.
pub open spec fn shard_fault(shard: LogicalShardId, record: RecordView) -> Option<
    RecoveryCodecError,
> {
    match record.mutation {
        RecoveryMutationView::MetadataCommand { command, .. } => if command.logical_shard_id
            != shard {
            Some(
                RecoveryCodecError::UnexpectedLogicalShard {
                    expected: shard,
                    actual: command.logical_shard_id,
                },
            )
        } else {
            None
        },
        _ => None,
    }
}

/// A row that does not continue the row before it.
pub open spec fn succession_fault(previous: RecordView, record: RecordView) -> Option<
    RecoveryCodecError,
> {
    if previous.recovery_lsn == u64::MAX {
        Some(RecoveryCodecError::InvalidValue { field: "recovery_lsn" })
    } else {
        first_fault(
            lsn_fault(previous.recovery_lsn, record.recovery_lsn),
            if record.previous_chain_digest != previous.chain_digest {
                Some(RecoveryCodecError::ChainDigestMismatch)
            } else {
                None
            },
        )
    }
}

/// A row number that is not the next one.
pub open spec fn lsn_fault(previous: u64, actual: u64) -> Option<RecoveryCodecError> {
    if actual == previous + 1 {
        None
    } else if actual == previous {
        Some(RecoveryCodecError::DuplicateRecoveryLsn { lsn: actual })
    } else if actual < previous {
        Some(RecoveryCodecError::RecoveryLsnRegression { previous, actual })
    } else {
        Some(RecoveryCodecError::RecoveryLsnGap { expected: (previous + 1) as u64, actual })
    }
}

/// What is wrong with row `i` of a segment, if anything.
pub open spec fn row_fault(shard: LogicalShardId, records: Seq<RecordView>, i: int) -> Option<
    RecoveryCodecError,
> {
    first_fault(
        shard_fault(shard, records[i]),
        first_fault(
            record_fault(records[i]),
            if i == 0 {
                None
            } else {
                succession_fault(records[i - 1], records[i])
            },
        ),
    )
}

/// What is wrong with the first `n` rows of a segment, if anything.
pub open spec fn rows_fault(shard: LogicalShardId, records: Seq<RecordView>, n: nat) -> Option<
    RecoveryCodecError,
>
    decreases n,
{
    if n == 0 {
        None
    } else {
        first_fault(
            rows_fault(shard, records, (n - 1) as nat),
            row_fault(shard, records, n - 1),
        )
    }
}

/// The stored forms of rows, each behind its four-byte length.
pub open spec fn rows_bytes(records: Seq<RecordView>) -> Seq<u8>
    decreases records.len(),
{
    if records.len() == 0 {
        Seq::empty()
    } else {
        rows_bytes(records.drop_last()) + sized(record_bytes(records.last()))
    }
}

/// The rows as the segment digest covers them, each behind its eight-byte
/// length.
pub open spec fn hashed_rows(records: Seq<RecordView>) -> Seq<u8>
    decreases records.len(),
{
    if records.len() == 0 {
        Seq::empty()
    } else {
        hashed_rows(records.drop_last()) + long_sized(record_bytes(records.last()))
    }
}

/// How many bytes a segment of these rows takes.
pub open spec fn segment_length(records: Seq<RecordView>) -> nat
    decreases records.len(),
{
    if records.len() == 0 {
        RECOVERY_SEGMENT_FIXED_BYTES as nat
    } else {
        segment_length(records.drop_last()) + 4 + record_bytes(records.last()).len()
    }
}

/// Why rows cannot be sealed into a segment, if they cannot.
pub open spec fn seal_fault(shard: LogicalShardId, records: Seq<RecordView>) -> Option<
    RecoveryCodecError,
> {
    if records.len() == 0 {
        Some(RecoveryCodecError::EmptySegment)
    } else if records.len() > MAX_RECOVERY_SEGMENT_RECORDS {
        Some(
            RecoveryCodecError::LengthBound {
                field: "recovery_segment_records",
                length: records.len() as usize,
                max: MAX_RECOVERY_SEGMENT_RECORDS,
            },
        )
    } else {
        first_fault(
            rows_fault(shard, records, records.len()),
            if segment_length(records) > usize::MAX {
                Some(
                    RecoveryCodecError::LengthOverflow {
                        field: "recovery_segment",
                        length: usize::MAX,
                    },
                )
            } else if segment_length(records) > MAX_RECOVERY_SEGMENT_BYTES {
                Some(
                    RecoveryCodecError::LengthBound {
                        field: "recovery_segment",
                        length: segment_length(records) as usize,
                        max: MAX_RECOVERY_SEGMENT_BYTES,
                    },
                )
            } else {
                None
            },
        )
    }
}

/// The digest of a segment of these rows.
pub open spec fn segment_digest_of(shard: LogicalShardId, records: Seq<RecordView>) -> Seq<u8> {
    sha256_of(
        utf8("nokv.metadata.recovery.segment.v1\0"@) + id_bytes(shard.bits) + be_bytes(
            records.first().recovery_lsn as nat,
            8,
        ) + be_bytes(records.last().recovery_lsn as nat, 8) + records.first().previous_chain_digest
            + records.last().chain_digest + be_bytes(records.len(), 8) + hashed_rows(records),
    )
}

/// The segment that seals these rows.
pub open spec fn sealed(shard: LogicalShardId, records: Seq<RecordView>) -> SegmentView {
    SegmentView {
        format_version: RECOVERY_SEGMENT_FORMAT_VERSION,
        logical_shard_id: shard,
        first_lsn: records.first().recovery_lsn,
        last_lsn: records.last().recovery_lsn,
        previous_chain_digest: records.first().previous_chain_digest,
        last_chain_digest: records.last().chain_digest,
        records,
        segment_digest: segment_digest_of(shard, records),
    }
}

/// A segment whose header or digest is not that of its rows sealed.
pub open spec fn header_fault(segment: SegmentView) -> Option<RecoveryCodecError> {
    let expected = sealed(segment.logical_shard_id, segment.records);
    if segment.first_lsn != expected.first_lsn || segment.last_lsn != expected.last_lsn
        || segment.previous_chain_digest != expected.previous_chain_digest
        || segment.last_chain_digest != expected.last_chain_digest {
        Some(RecoveryCodecError::SegmentHeaderMismatch)
    } else if segment.segment_digest != expected.segment_digest {
        Some(RecoveryCodecError::SegmentDigestMismatch)
    } else {
        None
    }
}

/// What is wrong with a segment, if anything.
pub open spec fn segment_fault(segment: SegmentView) -> Option<RecoveryCodecError> {
    if segment.format_version != RECOVERY_SEGMENT_FORMAT_VERSION {
        Some(
            RecoveryCodecError::UnsupportedVersion {
                actual: segment.format_version,
                expected: RECOVERY_SEGMENT_FORMAT_VERSION,
            },
        )
    } else {
        first_fault(
            seal_fault(segment.logical_shard_id, segment.records),
            header_fault(segment),
        )
    }
}

/// The stored form of a segment.
pub open spec fn segment_bytes(segment: SegmentView) -> Seq<u8> {
    utf8("NOKVRSG1"@) + seq![segment.format_version] + id_bytes(segment.logical_shard_id.bits)
        + be_bytes(segment.first_lsn as nat, 8) + be_bytes(segment.last_lsn as nat, 8)
        + segment.previous_chain_digest + segment.last_chain_digest + segment.segment_digest
        + be_bytes(segment.records.len(), 4) + rows_bytes(segment.records)
}

/// A tail that a verified segment may extend, and the tail after it.
pub open spec fn follows(segment: SegmentView, applied: u64, chain: Seq<u8>) -> Result<
    (u64, Seq<u8>),
    RecoveryCodecError,
> {
    match segment_fault(segment) {
        Some(error) => Err(error),
        None => if applied == u64::MAX {
            Err(RecoveryCodecError::InvalidValue { field: "recovery_segment_boundary_lsn" })
        } else if lsn_fault(applied, segment.first_lsn) is Some {
            Err(lsn_fault(applied, segment.first_lsn).unwrap())
        } else if segment.previous_chain_digest != chain {
            Err(RecoveryCodecError::ChainDigestMismatch)
        } else {
            Ok((segment.last_lsn, segment.last_chain_digest))
        },
    }
}

proof fn lemma_rows_fault_prefix(shard: LogicalShardId, records: Seq<RecordView>, i: nat, n: nat)
    requires
        i <= n,
        rows_fault(shard, records, i) is Some,
    ensures
        rows_fault(shard, records, n) == rows_fault(shard, records, i),
    decreases n,
{
    if i < n {
        lemma_rows_fault_prefix(shard, records, i, (n - 1) as nat);
    }
}

proof fn lemma_segment_length_grows(records: Seq<RecordView>, i: int)
    requires
        0 <= i <= records.len(),
    ensures
        segment_length(records.take(i)) <= segment_length(records),
    decreases records.len() - i,
{
    if i == records.len() {
        assert(records.take(i) =~= records);
    } else {
        lemma_segment_length_grows(records, i + 1);
        assert(records.take(i + 1).drop_last() =~= records.take(i));
    }
}

fn validate_succession(previous: &RecoveryOutboxRecord, record: &RecoveryOutboxRecord) -> (result:
    Result<(), RecoveryCodecError>)
    ensures
        match result {
            Ok(_) => succession_fault(previous@, record@) is None,
            Err(error) => succession_fault(previous@, record@) == Some(error),
        },
{
    if previous.recovery_lsn == u64::MAX {
        return Err(RecoveryCodecError::InvalidValue { field: "recovery_lsn" });
    }
    validate_lsn(previous.recovery_lsn, record.recovery_lsn)?;
    if !same_bytes(record.previous_chain_digest.as_slice(), previous.chain_digest.as_slice()) {
        return Err(RecoveryCodecError::ChainDigestMismatch);
    }
    Ok(())
}

fn validate_lsn(previous: u64, actual: u64) -> (result: Result<(), RecoveryCodecError>)
    requires
        previous < u64::MAX,
    ensures
        match result {
            Ok(_) => lsn_fault(previous, actual) is None,
            Err(error) => lsn_fault(previous, actual) == Some(error),
        },
{
    let expected: u64 = previous + 1;
    if actual == expected {
        Ok(())
    } else if actual == previous {
        Err(RecoveryCodecError::DuplicateRecoveryLsn { lsn: actual })
    } else if actual < expected {
        Err(RecoveryCodecError::RecoveryLsnRegression { previous, actual })
    } else {
        Err(RecoveryCodecError::RecoveryLsnGap { expected, actual })
    }
}

fn validate_shard(shard: LogicalShardId, record: &RecoveryOutboxRecord) -> (result: Result<
    (),
    RecoveryCodecError,
>)
    ensures
        match result {
            Ok(_) => shard_fault(shard, record@) is None,
            Err(error) => shard_fault(shard, record@) == Some(error),
        },
{
    match &record.mutation {
        RecoveryMutationV1::MetadataCommand { command, .. } => {
            if command.logical_shard_id.bits != shard.bits {
                return Err(
                    RecoveryCodecError::UnexpectedLogicalShard {
                        expected: shard,
                        actual: command.logical_shard_id,
                    },
                );
            }
            Ok(())
        },
        _ => Ok(()),
    }
}

/// Encodes the rows of a segment, each one checked and linked to the row
/// before it.
fn validate_segment_records(shard: LogicalShardId, records: &Vec<RecoveryOutboxRecord>) -> (result:
    Result<Vec<Vec<u8>>, RecoveryCodecError>)
    ensures
        match result {
            Ok(encoded) => {
                let views = record_views(records@);
                &&& 0 < views.len() <= MAX_RECOVERY_SEGMENT_RECORDS
                &&& rows_fault(shard, views, views.len()) is None
                &&& encoded@.len() == views.len()
                &&& forall|k: int|
                    0 <= k < views.len() ==> #[trigger] encoded@[k]@ == record_bytes(views[k])
            },
            Err(error) => {
                let views = record_views(records@);
                Some(error) == if views.len() == 0 {
                    Some(RecoveryCodecError::EmptySegment)
                } else if views.len() > MAX_RECOVERY_SEGMENT_RECORDS {
                    Some(
                        RecoveryCodecError::LengthBound {
                            field: "recovery_segment_records",
                            length: views.len() as usize,
                            max: MAX_RECOVERY_SEGMENT_RECORDS,
                        },
                    )
                } else {
                    rows_fault(shard, views, views.len())
                }
            },
        },
{
    let ghost views = record_views(records@);
    if records.len() == 0 {
        return Err(RecoveryCodecError::EmptySegment);
    }
    if records.len() > MAX_RECOVERY_SEGMENT_RECORDS {
        return Err(
            RecoveryCodecError::LengthBound {
                field: "recovery_segment_records",
                length: records.len(),
                max: MAX_RECOVERY_SEGMENT_RECORDS,
            },
        );
    }
    let mut encoded: Vec<Vec<u8>> = Vec::new();
    let mut i: usize = 0;
    while i < records.len()
        invariant
            i <= views.len(),
            views == record_views(records@),
            0 < views.len() <= MAX_RECOVERY_SEGMENT_RECORDS,
            rows_fault(shard, views, i as nat) is None,
            encoded@.len() == i,
            forall|k: int| 0 <= k < i ==> #[trigger] encoded@[k]@ == record_bytes(views[k]),
        decreases views.len() - i,
    {
        proof {
            assert(views[i as int] == records@[i as int]@);
            if i > 0 {
                assert(views[i - 1] == records@[i - 1]@);
            }
            if rows_fault(shard, views, (i + 1) as nat) is Some {
                lemma_rows_fault_prefix(shard, views, (i + 1) as nat, views.len());
            }
        }
        validate_shard(shard, &records[i])?;
        let bytes: Vec<u8> = records[i].encode()?;
        if i > 0 {
            validate_succession(&records[i - 1], &records[i])?;
        }
        encoded.push(bytes);
        i = i + 1;
    }
    Ok(encoded)
}

/// How many bytes a segment of these encoded rows takes, if that fits.
fn recovery_segment_encoded_length(encoded: &Vec<Vec<u8>>, Ghost(views): Ghost<
    Seq<RecordView>,
>) -> (result: Result<usize, RecoveryCodecError>)
    requires
        encoded@.len() == views.len(),
        forall|k: int| 0 <= k < views.len() ==> #[trigger] encoded@[k]@ == record_bytes(views[k]),
    ensures
        match result {
            Ok(length) => length == segment_length(views),
            Err(error) => segment_length(views) > usize::MAX && error
                == (RecoveryCodecError::LengthOverflow {
                field: "recovery_segment",
                length: usize::MAX,
            }),
        },
{
    let mut length: usize = RECOVERY_SEGMENT_FIXED_BYTES;
    let mut i: usize = 0;
    while i < encoded.len()
        invariant
            i <= views.len(),
            encoded@.len() == views.len(),
            forall|k: int|
                0 <= k < views.len() ==> #[trigger] encoded@[k]@ == record_bytes(views[k]),
            length == segment_length(views.take(i as int)),
        decreases views.len() - i,
    {
        let row: usize = encoded[i].len();
        proof {
            let part = views.take(i + 1);
            assert(part.drop_last() =~= views.take(i as int));
            assert(part.last() == views[i as int]);
            assert(encoded@[i as int]@ == record_bytes(views[i as int]));
            lemma_segment_length_grows(views, i + 1);
        }
        if length > usize::MAX - 4 || row > usize::MAX - 4 - length {
            return Err(
                RecoveryCodecError::LengthOverflow {
                    field: "recovery_segment",
                    length: usize::MAX,
                },
            );
        }
        length = length + 4 + row;
        i = i + 1;
    }
    assert(views.take(i as int) =~= views);
    Ok(length)
}

/// How many bytes the rows of a segment may take, of at most `record_limit`
/// rows.
pub fn recovery_segment_record_budget(record_limit: usize) -> (budget: usize)
    ensures
        budget == MAX_RECOVERY_SEGMENT_BYTES - RECOVERY_SEGMENT_FIXED_BYTES - 4 * (if record_limit
            < MAX_RECOVERY_SEGMENT_RECORDS {
            record_limit
        } else {
            MAX_RECOVERY_SEGMENT_RECORDS
        }),
{
    let rows: usize = if record_limit < MAX_RECOVERY_SEGMENT_RECORDS {
        record_limit
    } else {
        MAX_RECOVERY_SEGMENT_RECORDS
    };
    MAX_RECOVERY_SEGMENT_BYTES - RECOVERY_SEGMENT_FIXED_BYTES - 4 * rows
}

fn recovery_segment_digest(
    shard: LogicalShardId,
    records: &Vec<RecoveryOutboxRecord>,
    encoded: &Vec<Vec<u8>>,
) -> (digest: [u8; 32])
    requires
        records@.len() > 0,
        encoded@.len() == records@.len(),
        forall|k: int|
            0 <= k < records@.len() ==> #[trigger] encoded@[k]@ == record_bytes(
                record_views(records@)[k],
            ),
    ensures
        digest@ == segment_digest_of(shard, record_views(records@)),
{
    let ghost views = record_views(records@);
    let first: &RecoveryOutboxRecord = &records[0];
    let last: &RecoveryOutboxRecord = &records[records.len() - 1];
    assert(views.first() == first@ && views.last() == last@);
    let mut input: Vec<u8> = Vec::new();
    put_slice(&mut input, "nokv.metadata.recovery.segment.v1\0".as_bytes());
    assert(input@ =~= utf8("nokv.metadata.recovery.segment.v1\0"@));
    put_be(&mut input, shard.bits, 16);
    put_be(&mut input, first.recovery_lsn as u128, 8);
    put_be(&mut input, last.recovery_lsn as u128, 8);
    put_slice(&mut input, first.previous_chain_digest.as_slice());
    put_slice(&mut input, last.chain_digest.as_slice());
    put_be(&mut input, encoded.len() as u128, 8);
    let ghost head = input@;
    let mut i: usize = 0;
    assert(head + hashed_rows(views.take(0)) =~= head);
    while i < encoded.len()
        invariant
            i <= views.len(),
            encoded@.len() == views.len(),
            forall|k: int|
                0 <= k < views.len() ==> #[trigger] encoded@[k]@ == record_bytes(views[k]),
            input@ == head + hashed_rows(views.take(i as int)),
        decreases views.len() - i,
    {
        proof {
            let part = views.take(i + 1);
            assert(part.drop_last() =~= views.take(i as int));
            assert(part.last() == views[i as int]);
            lemma_concat_assoc(
                head,
                hashed_rows(views.take(i as int)),
                long_sized(record_bytes(views[i as int])),
            );
        }
        put_long_sized(&mut input, encoded[i].as_slice());
        i = i + 1;
    }
    assert(views.take(i as int) =~= views);
    sha256(input.as_slice())
}

/// What sealing computes besides the rows themselves.
struct SegmentSeal {
    encoded: Vec<Vec<u8>>,
    segment_digest: [u8; 32],
}

fn seal_records(shard: LogicalShardId, records: &Vec<RecoveryOutboxRecord>) -> (result: Result<
    SegmentSeal,
    RecoveryCodecError,
>)
    ensures
        match result {
            Ok(seal) => {
                let views = record_views(records@);
                &&& seal_fault(shard, views) is None
                &&& seal.segment_digest@ == segment_digest_of(shard, views)
                &&& seal.encoded@.len() == views.len()
                &&& forall|k: int|
                    0 <= k < views.len() ==> #[trigger] seal.encoded@[k]@ == record_bytes(views[k])
            },
            Err(error) => seal_fault(shard, record_views(records@)) == Some(error),
        },
{
    let ghost views = record_views(records@);
    let encoded: Vec<Vec<u8>> = validate_segment_records(shard, records)?;
    let length: usize = recovery_segment_encoded_length(&encoded, Ghost(views))?;
    if length > MAX_RECOVERY_SEGMENT_BYTES {
        return Err(
            RecoveryCodecError::LengthBound {
                field: "recovery_segment",
                length,
                max: MAX_RECOVERY_SEGMENT_BYTES,
            },
        );
    }
    let segment_digest: [u8; 32] = recovery_segment_digest(shard, records, &encoded);
    Ok(SegmentSeal { encoded, segment_digest })
}

impl RecoveryOutboxSegment {
    /// Seals consecutive rows of one shard.
    pub fn seal(logical_shard_id: LogicalShardId, records: Vec<RecoveryOutboxRecord>) -> (result:
        Result<RecoveryOutboxSegment, RecoveryCodecError>)
        ensures
            match result {
                Ok(segment) => {
                    &&& seal_fault(logical_shard_id, record_views(records@)) is None
                    &&& segment@ == sealed(logical_shard_id, record_views(records@))
                    &&& segment.records == records
                },
                Err(error) => seal_fault(logical_shard_id, record_views(records@)) == Some(error),
            },
    {
        let seal: SegmentSeal = seal_records(logical_shard_id, &records)?;
        let last: usize = records.len() - 1;
        let ghost views = record_views(records@);
        assert(views.first() == records@[0]@ && views.last() == records@[last as int]@);
        Ok(
            RecoveryOutboxSegment {
                format_version: RECOVERY_SEGMENT_FORMAT_VERSION,
                logical_shard_id,
                first_lsn: records[0].recovery_lsn,
                last_lsn: records[last].recovery_lsn,
                previous_chain_digest: records[0].previous_chain_digest,
                last_chain_digest: records[last].chain_digest,
                records,
                segment_digest: seal.segment_digest,
            },
        )
    }

    /// Checks the rows, and that header and digest are those of the rows.
    pub fn verify(&self) -> (result: Result<(), RecoveryCodecError>)
        ensures
            match result {
                Ok(_) => segment_fault(self@) is None,
                Err(error) => segment_fault(self@) == Some(error),
            },
    {
        let encoded: Vec<Vec<u8>> = self.verified_rows()?;
        Ok(())
    }

    /// Checks the segment and gives its rows in their stored form.
    fn verified_rows(&self) -> (result: Result<Vec<Vec<u8>>, RecoveryCodecError>)
        ensures
            match result {
                Ok(encoded) => {
                    let views = record_views(self.records@);
                    &&& segment_fault(self@) is None
                    &&& encoded@.len() == views.len()
                    &&& forall|k: int|
                        0 <= k < views.len() ==> #[trigger] encoded@[k]@ == record_bytes(views[k])
                },
                Err(error) => segment_fault(self@) == Some(error),
            },
    {
        if self.format_version != RECOVERY_SEGMENT_FORMAT_VERSION {
            return Err(
                RecoveryCodecError::UnsupportedVersion {
                    actual: self.format_version,
                    expected: RECOVERY_SEGMENT_FORMAT_VERSION,
                },
            );
        }
        let seal: SegmentSeal = seal_records(self.logical_shard_id, &self.records)?;
        let first: &RecoveryOutboxRecord = &self.records[0];
        let last: &RecoveryOutboxRecord = &self.records[self.records.len() - 1];
        let ghost views = record_views(self.records@);
        assert(views.first() == first@ && views.last() == last@);
        if self.first_lsn != first.recovery_lsn || self.last_lsn != last.recovery_lsn
            || !same_bytes(
            self.previous_chain_digest.as_slice(),
            first.previous_chain_digest.as_slice(),
        ) || !same_bytes(self.last_chain_digest.as_slice(), last.chain_digest.as_slice()) {
            return Err(RecoveryCodecError::SegmentHeaderMismatch);
        }
        if !same_bytes(self.segment_digest.as_slice(), seal.segment_digest.as_slice()) {
            return Err(RecoveryCodecError::SegmentDigestMismatch);
        }
        Ok(seal.encoded)
    }

    /// Checks that the segment extends the chain at `boundary`, and gives the
    /// chain's tail after it.
    pub fn verify_follows(&self, boundary: RecoveryState) -> (result: Result<
        RecoveryState,
        RecoveryCodecError,
    >)
        ensures
            match result {
                Ok(state) => follows(
                    self@,
                    boundary.applied_recovery_lsn,
                    boundary.chain_digest@,
                ) == Ok::<_, RecoveryCodecError>(
                    (state.applied_recovery_lsn, state.chain_digest@),
                ),
                Err(error) => follows(
                    self@,
                    boundary.applied_recovery_lsn,
                    boundary.chain_digest@,
                ) == Err::<(u64, Seq<u8>), _>(error),
            },
    {
        self.verify()?;
        if boundary.applied_recovery_lsn == u64::MAX {
            return Err(
                RecoveryCodecError::InvalidValue { field: "recovery_segment_boundary_lsn" },
            );
        }
        validate_lsn(boundary.applied_recovery_lsn, self.first_lsn)?;
        if !same_bytes(self.previous_chain_digest.as_slice(), boundary.chain_digest.as_slice()) {
            return Err(RecoveryCodecError::ChainDigestMismatch);
        }
        Ok(
            RecoveryState {
                applied_recovery_lsn: self.last_lsn,
                chain_digest: self.last_chain_digest,
            },
        )
    }

    /// The stored form of a segment that verifies.
    pub fn encode(&self) -> (result: Result<Vec<u8>, RecoveryCodecError>)
        ensures
            match result {
                Ok(bytes) => segment_fault(self@) is None && bytes@ == segment_bytes(self@),
                Err(error) => segment_fault(self@) == Some(error),
            },
    {
        let encoded: Vec<Vec<u8>> = self.verified_rows()?;
        let ghost views = record_views(self.records@);
        let mut bytes: Vec<u8> = Vec::new();
        put_slice(&mut bytes, "NOKVRSG1".as_bytes());
        assert(bytes@ =~= utf8("NOKVRSG1"@));
        crate::wire::put_byte(&mut bytes, self.format_version);
        put_be(&mut bytes, self.logical_shard_id.bits, 16);
        put_be(&mut bytes, self.first_lsn as u128, 8);
        put_be(&mut bytes, self.last_lsn as u128, 8);
        put_slice(&mut bytes, self.previous_chain_digest.as_slice());
        put_slice(&mut bytes, self.last_chain_digest.as_slice());
        put_slice(&mut bytes, self.segment_digest.as_slice());
        put_be(&mut bytes, encoded.len() as u128, 4);
        let ghost head = bytes@;
        let mut i: usize = 0;
        assert(head + rows_bytes(views.take(0)) =~= head);
        while i < encoded.len()
            invariant
                i <= views.len(),
                encoded@.len() == views.len(),
                forall|k: int|
                    0 <= k < views.len() ==> #[trigger] encoded@[k]@ == record_bytes(views[k]),
                segment_length(views) <= MAX_RECOVERY_SEGMENT_BYTES,
                bytes@ == head + rows_bytes(views.take(i as int)),
            decreases views.len() - i,
        {
            proof {
                let part = views.take(i + 1);
                assert(part.drop_last() =~= views.take(i as int));
                assert(part.last() == views[i as int]);
                lemma_segment_length_grows(views, i + 1);
                lemma_concat_assoc(
                    head,
                    rows_bytes(views.take(i as int)),
                    sized(record_bytes(views[i as int])),
                );
            }
            put_sized(&mut bytes, encoded[i].as_slice());
            i = i + 1;
        }
        assert(views.take(i as int) =~= views);
        Ok(bytes)
    }
}

/// The fields of a segment in front of its rows.
#[verifier::ext_equal]
pub struct SegmentHeadView {
    pub logical_shard_id: LogicalShardId,
    pub first_lsn: u64,
    pub last_lsn: u64,
    pub previous_chain_digest: Seq<u8>,
    pub last_chain_digest: Seq<u8>,
    pub segment_digest: Seq<u8>,
    pub count: u32,
}

/// The fields of a segment in front of its rows.
#[verifier::opaque]
pub open spec fn step_segment_head(st: RecoveryParse) -> (SegmentHeadView, RecoveryParse) {
    let (magic, s1) = step_take(st, "recovery_segment_magic", 8);
    let s2 = check(
        s1,
        magic == utf8("NOKVRSG1"@),
        RecoveryCodecError::InvalidValue { field: "recovery_segment_magic" },
    );
    let (version, s3) = step_u8(s2, "recovery_segment_format_version");
    let s4 = check(
        s3,
        version == RECOVERY_SEGMENT_FORMAT_VERSION,
        RecoveryCodecError::UnsupportedVersion {
            actual: version,
            expected: RECOVERY_SEGMENT_FORMAT_VERSION,
        },
    );
    let (shard, s5) = step_id(s4, "logical_shard_id");
    let (first_lsn, s6) = step_u64(s5, "first_lsn");
    let (last_lsn, s7) = step_u64(s6, "last_lsn");
    let (previous_chain_digest, s8) = step_digest(s7, "previous_chain_digest");
    let (last_chain_digest, s9) = step_digest(s8, "last_chain_digest");
    let (segment_digest, s10) = step_digest(s9, "segment_digest");
    let (count, s11) = step_u32(s10, "recovery_segment_records");
    let s12 = check(s11, count != 0, RecoveryCodecError::EmptySegment);
    let s13 = check(
        s12,
        count <= MAX_RECOVERY_SEGMENT_RECORDS,
        RecoveryCodecError::LengthBound {
            field: "recovery_segment_records",
            length: count as usize,
            max: MAX_RECOVERY_SEGMENT_RECORDS,
        },
    );
    (
        SegmentHeadView {
            logical_shard_id: LogicalShardId { bits: shard },
            first_lsn,
            last_lsn,
            previous_chain_digest,
            last_chain_digest,
            segment_digest,
            count,
        },
        s13,
    )
}

/// The canonical digest that is given for row `i`, or nothing.
pub open spec fn digest_at(digests: Seq<Seq<u8>>, i: nat) -> Seq<u8> {
    if i < digests.len() {
        digests[i as int]
    } else {
        Seq::empty()
    }
}

/// One row of a segment.
#[verifier::opaque]
pub open spec fn step_row(st: RecoveryParse, canonical_digest: Seq<u8>) -> (
    RecordView,
    RecoveryParse,
) {
    let (bytes, s1) = step_bytes(st, "recovery_segment_record", MAX_RECOVERY_BYTES);
    if s1.err is Some {
        (arbitrary(), s1)
    } else {
        match parse_record(bytes, canonical_digest) {
            Ok(record) => (record, s1),
            Err(error) => (arbitrary(), fail(s1, error)),
        }
    }
}

/// `count` rows, the first of them being row `from` of the segment.
pub open spec fn step_rows(st: RecoveryParse, digests: Seq<Seq<u8>>, from: nat, count: nat) -> (
    Seq<RecordView>,
    RecoveryParse,
)
    decreases count,
{
    if count == 0 || st.err is Some {
        (Seq::empty(), st)
    } else {
        let (record, s1) = step_row(st, digest_at(digests, from));
        let (rest, s2) = step_rows(s1, digests, from + 1, (count - 1) as nat);
        (seq![record] + rest, s2)
    }
}

/// The segment that bytes hold, or why they hold none. A command in row `i`
/// must be sealed by digest `i`.
pub open spec fn parse_segment(bytes: Seq<u8>, digests: Seq<Seq<u8>>) -> Result<
    SegmentView,
    RecoveryCodecError,
> {
    if bytes.len() > MAX_RECOVERY_SEGMENT_BYTES {
        Err(
            RecoveryCodecError::LengthBound {
                field: "recovery_segment",
                length: bytes.len() as usize,
                max: MAX_RECOVERY_SEGMENT_BYTES,
            },
        )
    } else {
        let (head, s1) = step_segment_head(start(bytes));
        let (records, s2) = step_rows(s1, digests, 0, head.count as nat);
        let segment = segment_from(head, records);
        match step_end(s2).err {
            Some(error) => Err(error),
            None => match segment_fault(segment) {
                Some(error) => Err(error),
                None => Ok(segment),
            },
        }
    }
}

/// A segment from its leading fields and its rows.
pub open spec fn segment_from(head: SegmentHeadView, records: Seq<RecordView>) -> SegmentView {
    SegmentView {
        format_version: RECOVERY_SEGMENT_FORMAT_VERSION,
        logical_shard_id: head.logical_shard_id,
        first_lsn: head.first_lsn,
        last_lsn: head.last_lsn,
        previous_chain_digest: head.previous_chain_digest,
        last_chain_digest: head.last_chain_digest,
        records,
        segment_digest: head.segment_digest,
    }
}

/// The byte strings of the rows of a segment, as far as they are framed.
pub open spec fn framed_rows(st: RecoveryParse, count: nat) -> Seq<Seq<u8>>
    decreases count,
{
    if count == 0 {
        Seq::empty()
    } else {
        let (bytes, s1) = step_bytes(st, "recovery_segment_record", MAX_RECOVERY_BYTES);
        if s1.err is Some {
            Seq::empty()
        } else {
            seq![bytes] + framed_rows(s1, (count - 1) as nat)
        }
    }
}

/// The byte strings of the rows of an encoded segment, as far as they are
/// framed.
pub open spec fn segment_rows(bytes: Seq<u8>) -> Seq<Seq<u8>> {
    let (head, s1) = step_segment_head(start(bytes));
    if bytes.len() > MAX_RECOVERY_SEGMENT_BYTES || s1.err is Some {
        Seq::empty()
    } else {
        framed_rows(s1, head.count as nat)
    }
}

broadcast proof fn lemma_row_after_failure(st: RecoveryParse, canonical_digest: Seq<u8>)
    requires
        st.err is Some,
    ensures
        (#[trigger] step_row(st, canonical_digest)).1 == st,
{
    reveal(step_row);
}

/// The leading fields of a segment, as read.
struct SegmentHead {
    logical_shard_id: LogicalShardId,
    first_lsn: u64,
    last_lsn: u64,
    previous_chain_digest: [u8; 32],
    last_chain_digest: [u8; 32],
    segment_digest: [u8; 32],
    count: u32,
}

impl View for SegmentHead {
    type V = SegmentHeadView;

    closed spec fn view(&self) -> SegmentHeadView {
        SegmentHeadView {
            logical_shard_id: self.logical_shard_id,
            first_lsn: self.first_lsn,
            last_lsn: self.last_lsn,
            previous_chain_digest: self.previous_chain_digest@,
            last_chain_digest: self.last_chain_digest@,
            segment_digest: self.segment_digest@,
            count: self.count,
        }
    }
}

fn read_segment_head(reader: &mut Reader) -> (result: Result<SegmentHead, RecoveryCodecError>)
    requires
        old(reader).wf(),
    ensures
        final(reader).wf(),
        match result {
            Ok(value) => {
                &&& step_segment_head(start(old(reader).rest())).0 == value@
                &&& stepped(step_segment_head(start(old(reader).rest())).1, *final(reader))
            },
            Err(error) => step_segment_head(start(old(reader).rest())).1.err == Some(error),
        },
{
    proof {
        reveal(step_segment_head);
    }
    let magic: &[u8] = reader.take("recovery_segment_magic", 8)?;
    if !same_bytes(magic, "NOKVRSG1".as_bytes()) {
        return Err(RecoveryCodecError::InvalidValue { field: "recovery_segment_magic" });
    }
    let version: u8 = reader.u8("recovery_segment_format_version")?;
    if version != RECOVERY_SEGMENT_FORMAT_VERSION {
        return Err(
            RecoveryCodecError::UnsupportedVersion {
                actual: version,
                expected: RECOVERY_SEGMENT_FORMAT_VERSION,
            },
        );
    }
    let shard: u128 = reader.id("logical_shard_id")?;
    let first_lsn: u64 = reader.u64("first_lsn")?;
    let last_lsn: u64 = reader.u64("last_lsn")?;
    let previous_chain_digest: [u8; 32] = reader.digest("previous_chain_digest")?;
    let last_chain_digest: [u8; 32] = reader.digest("last_chain_digest")?;
    let segment_digest: [u8; 32] = reader.digest("segment_digest")?;
    let count: u32 = reader.u32("recovery_segment_records")?;
    if count == 0 {
        return Err(RecoveryCodecError::EmptySegment);
    }
    if count as usize > MAX_RECOVERY_SEGMENT_RECORDS {
        return Err(
            RecoveryCodecError::LengthBound {
                field: "recovery_segment_records",
                length: count as usize,
                max: MAX_RECOVERY_SEGMENT_RECORDS,
            },
        );
    }
    Ok(
        SegmentHead {
            logical_shard_id: LogicalShardId { bits: shard },
            first_lsn,
            last_lsn,
            previous_chain_digest,
            last_chain_digest,
            segment_digest,
            count,
        },
    )
}

fn read_row(reader: &mut Reader, canonical_digest: &[u8]) -> (result: Result<
    RecoveryOutboxRecord,
    RecoveryCodecError,
>)
    requires
        old(reader).wf(),
    ensures
        final(reader).wf(),
        match result {
            Ok(value) => {
                &&& step_row(start(old(reader).rest()), canonical_digest@).0 == value@
                &&& stepped(step_row(start(old(reader).rest()), canonical_digest@).1, *final(reader))
            },
            Err(error) => step_row(start(old(reader).rest()), canonical_digest@).1.err == Some(
                error,
            ),
        },
{
    proof {
        reveal(step_row);
    }
    let bytes: &[u8] = reader.bytes("recovery_segment_record", MAX_RECOVERY_BYTES)?;
    RecoveryOutboxRecord::decode(bytes, canonical_digest)
}

fn read_rows(reader: &mut Reader, digests: &Vec<Vec<u8>>, count: u32) -> (result: Result<
    Vec<RecoveryOutboxRecord>,
    RecoveryCodecError,
>)
    requires
        old(reader).wf(),
    ensures
        final(reader).wf(),
        ({
            let (records, s1) = step_rows(
                start(old(reader).rest()),
                byte_rows(digests@),
                0,
                count as nat,
            );
            match result {
                Ok(value) => records == record_views(value@) && stepped(s1, *final(reader)),
                Err(error) => s1.err == Some(error),
            }
        }),
{
    broadcast use lemma_row_after_failure;

    let ghost given = byte_rows(digests@);
    let ghost all = step_rows(start(reader.rest()), given, 0, count as nat);
    let mut records: Vec<RecoveryOutboxRecord> = Vec::new();
    let mut i: u32 = 0;
    assert(record_views(records@) + all.0 =~= all.0);
    while i < count
        invariant
            i <= count,
            reader.wf(),
            records@.len() == i,
            given == byte_rows(digests@),
            all.0 == record_views(records@) + step_rows(
                start(reader.rest()),
                given,
                i as nat,
                (count - i) as nat,
            ).0,
            all.1 == step_rows(start(reader.rest()), given, i as nat, (count - i) as nat).1,
            all == step_rows(start(old(reader).rest()), given, 0, count as nat),
        decreases count - i,
    {
        let ghost here = start::<RecoveryCodecError>(reader.rest());
        let ghost had = records@;
        proof {
            reveal_with_fuel(step_rows, 2);
        }
        let none: Vec<u8> = Vec::new();
        let digest: &[u8] = if (i as usize) < digests.len() {
            digests[i as usize].as_slice()
        } else {
            none.as_slice()
        };
        assert(digest@ =~= digest_at(given, i as nat));
        let record: RecoveryOutboxRecord = read_row(reader, digest)?;
        let ghost view = record@;
        records.push(record);
        proof {
            let rest = step_rows(
                start(reader.rest()),
                given,
                (i + 1) as nat,
                (count - i - 1) as nat,
            );
            assert(record_views(records@) =~= record_views(had).push(view));
            assert(record_views(had) + (seq![view] + rest.0) =~= record_views(records@) + rest.0);
        }
        i = i + 1;
    }
    assert(record_views(records@) + Seq::<RecordView>::empty() =~= record_views(records@));
    Ok(records)
}

impl RecoveryOutboxSegment {
    /// The segment that bytes hold.
    ///
    /// Digest `i` is what the command engine computes for the command that
    /// [`RecoveryOutboxRecord::held_command`] finds in row `i` of
    /// [`RecoveryOutboxSegment::rows`]; it is not looked at where that row
    /// carries no command.
    pub fn decode(encoded: &[u8], canonical_digests: &Vec<Vec<u8>>) -> (result: Result<
        RecoveryOutboxSegment,
        RecoveryCodecError,
    >)
        ensures
            viewed(result) == parse_segment(encoded@, byte_rows(canonical_digests@)),
    {
        if encoded.len() > MAX_RECOVERY_SEGMENT_BYTES {
            return Err(
                RecoveryCodecError::LengthBound {
                    field: "recovery_segment",
                    length: encoded.len(),
                    max: MAX_RECOVERY_SEGMENT_BYTES,
                },
            );
        }
        let mut reader = Reader::new(encoded);
        let head: SegmentHead = read_segment_head(&mut reader)?;
        let records: Vec<RecoveryOutboxRecord> = read_rows(
            &mut reader,
            canonical_digests,
            head.count,
        )?;
        reader.end()?;
        let segment = RecoveryOutboxSegment {
            format_version: RECOVERY_SEGMENT_FORMAT_VERSION,
            logical_shard_id: head.logical_shard_id,
            first_lsn: head.first_lsn,
            last_lsn: head.last_lsn,
            previous_chain_digest: head.previous_chain_digest,
            last_chain_digest: head.last_chain_digest,
            records,
            segment_digest: head.segment_digest,
        };
        segment.verify()?;
        Ok(segment)
    }

    /// The byte strings of the rows of an encoded segment, as far as they are
    /// framed.
    pub fn rows(encoded: &[u8]) -> (rows: Vec<Vec<u8>>)
        ensures
            byte_rows(rows@) == segment_rows(encoded@),
    {
        let mut rows: Vec<Vec<u8>> = Vec::new();
        assert(byte_rows(rows@) =~= Seq::<Seq<u8>>::empty());
        if encoded.len() > MAX_RECOVERY_SEGMENT_BYTES {
            return rows;
        }
        let mut reader = Reader::new(encoded);
        let count: u32 = match read_segment_head(&mut reader) {
            Err(_) => {
                return rows;
            },
            Ok(head) => head.count,
        };
        let ghost all = framed_rows(start(reader.rest()), count as nat);
        assert(byte_rows(rows@) + all =~= all);
        let mut i: u32 = 0;
        while i < count
            invariant
                i <= count,
                reader.wf(),
                all == byte_rows(rows@) + framed_rows(start(reader.rest()), (count - i) as nat),
                all == segment_rows(encoded@),
            decreases count - i,
        {
            let ghost had = rows@;
            let part: Result<&[u8], RecoveryCodecError> = reader.bytes(
                "recovery_segment_record",
                MAX_RECOVERY_BYTES,
            );
            match part {
                Err(_) => {
                    assert(byte_rows(rows@) + Seq::<Seq<u8>>::empty() =~= byte_rows(rows@));
                    return rows;
                },
                Ok(part) => {
                    rows.push(copy_bytes(part));
                    proof {
                        let rest = framed_rows(start(reader.rest()), (count - i - 1) as nat);
                        assert(byte_rows(rows@) =~= byte_rows(had).push(part@));
                        assert(byte_rows(had) + (seq![part@] + rest) =~= byte_rows(rows@) + rest);
                    }
                },
            }
            i = i + 1;
        }
        assert(byte_rows(rows@) + Seq::<Seq<u8>>::empty() =~= byte_rows(rows@));
        rows
    }
}

/// A sealed segment verifies.
pub proof fn sealed_segments_verify(shard: LogicalShardId, records: Seq<RecordView>)
    requires
        seal_fault(shard, records) is None,
    ensures
        segment_fault(sealed(shard, records)) is None,
{
}

/// A segment that verifies is its rows sealed, and nothing else.
pub proof fn verified_segments_are_sealed(segment: SegmentView)
    requires
        segment_fault(segment) is None,
    ensures
        segment == sealed(segment.logical_shard_id, segment.records),
{
}

proof fn lemma_row_is_sound(shard: LogicalShardId, records: Seq<RecordView>, n: nat, i: int)
    requires
        rows_fault(shard, records, n) is None,
        0 <= i < n,
    ensures
        row_fault(shard, records, i) is None,
    decreases n,
{
    if i < n - 1 {
        lemma_row_is_sound(shard, records, (n - 1) as nat, i);
    }
}

/// The rows of a segment that can be sealed are numbered without a gap, each
/// continues the chain digest of the one before, and every command among them
/// targets the segment's shard.
pub proof fn sealed_rows_are_chained(shard: LogicalShardId, records: Seq<RecordView>, i: int)
    requires
        seal_fault(shard, records) is None,
        0 <= i < records.len(),
    ensures
        records[i].recovery_lsn == records[0].recovery_lsn + i,
        record_fault(records[i]) is None,
        records[i].mutation is MetadataCommand ==> records[i].mutation->command.logical_shard_id
            == shard,
        i > 0 ==> records[i].previous_chain_digest == records[i - 1].chain_digest,
    decreases i,
{
    lemma_row_is_sound(shard, records, records.len(), i);
    if i > 0 {
        sealed_rows_are_chained(shard, records, i - 1);
    }
}

/// A segment that extends a tail advances it by exactly its rows.
pub proof fn following_advances_the_tail(segment: SegmentView, applied: u64, chain: Seq<u8>)
    requires
        follows(segment, applied, chain) is Ok,
    ensures
        follows(segment, applied, chain).unwrap().0 == applied + segment.records.len(),
        follows(segment, applied, chain).unwrap().1 == segment.records.last().chain_digest,
        segment.records.first().previous_chain_digest == chain,
        segment.records.first().recovery_lsn == applied + 1,
{
    sealed_rows_are_chained(
        segment.logical_shard_id,
        segment.records,
        segment.records.len() - 1,
    );
}

/// Of two segments that extend a tail one after the other, the second starts
/// where the first ends.
pub proof fn segments_follow_each_other(
    first: SegmentView,
    second: SegmentView,
    applied: u64,
    chain: Seq<u8>,
)
    requires
        follows(first, applied, chain) is Ok,
        ({
            let (next, digest) = follows(first, applied, chain).unwrap();
            follows(second, next, digest) is Ok
        }),
    ensures
        second.first_lsn == first.last_lsn + 1,
        second.previous_chain_digest == first.last_chain_digest,
        ({
            let (next, digest) = follows(first, applied, chain).unwrap();
            follows(second, next, digest).unwrap().0 == applied + first.records.len()
                + second.records.len()
        }),
{
    let (next, digest) = follows(first, applied, chain).unwrap();
    following_advances_the_tail(first, applied, chain);
    following_advances_the_tail(second, next, digest);
}

/// Nothing extends the tail it produced: a segment is never applied twice.
pub proof fn segments_never_repeat(segment: SegmentView, applied: u64, chain: Seq<u8>)
    requires
        follows(segment, applied, chain) is Ok,
    ensures
        ({
            let (next, digest) = follows(segment, applied, chain).unwrap();
            follows(segment, next, digest) is Err
        }),
{
    following_advances_the_tail(segment, applied, chain);
}

proof fn lemma_rows_bytes_front(records: Seq<RecordView>)
    requires
        records.len() > 0,
    ensures
        rows_bytes(records) == sized(record_bytes(records[0])) + rows_bytes(records.skip(1)),
    decreases records.len(),
{
    let rest = records.skip(1);
    if records.len() == 1 {
        let one = sized(record_bytes(records[0]));
        assert(rows_bytes(records.drop_last()) == Seq::<u8>::empty());
        assert(rows_bytes(rest) == Seq::<u8>::empty());
        assert(Seq::<u8>::empty() + one =~= one + Seq::<u8>::empty());
    } else {
        lemma_rows_bytes_front(records.drop_last());
        assert(records.drop_last().skip(1) =~= rest.drop_last());
        assert(rest.last() == records.last());
        assert(records.drop_last()[0] == records[0]);
        lemma_concat_assoc(
            sized(record_bytes(records[0])),
            rows_bytes(rest.drop_last()),
            sized(record_bytes(records.last())),
        );
    }
}

/// Every row of a segment can be stored, is short enough, and its command, if
/// it carries one, is sealed by the digest given for it.
pub open spec fn rows_valid(records: Seq<RecordView>, digests: Seq<Seq<u8>>, from: nat) -> bool {
    forall|i: int|
        0 <= i < records.len() ==> row_valid(
            #[trigger] records[i],
            digest_at(digests, (from + i) as nat),
        )
}

/// A row that can be stored in a segment.
pub open spec fn row_valid(record: RecordView, canonical_digest: Seq<u8>) -> bool {
    &&& record_valid(record)
    &&& record_fault(record) is None
    &&& record_bytes(record).len() <= MAX_RECOVERY_BYTES
    &&& sealed_by(record.mutation, canonical_digest)
}

proof fn lemma_row_back(record: RecordView, canonical_digest: Seq<u8>, tail: Seq<u8>)
    requires
        row_valid(record, canonical_digest),
    ensures
        step_row(start(sized(record_bytes(record)) + tail), canonical_digest) == (
            record,
            start::<RecoveryCodecError>(tail),
        ),
{
    reveal(step_row);
    crate::recovery::record_round_trip(record, canonical_digest);
    crate::wire::lemma_bytes_back::<RecoveryCodecError>(
        record_bytes(record),
        tail,
        "recovery_segment_record",
        MAX_RECOVERY_BYTES,
    );
}

proof fn lemma_rows_back(
    records: Seq<RecordView>,
    digests: Seq<Seq<u8>>,
    from: nat,
    tail: Seq<u8>,
)
    requires
        rows_valid(records, digests, from),
    ensures
        step_rows(start(rows_bytes(records) + tail), digests, from, records.len()) == (
            records,
            start::<RecoveryCodecError>(tail),
        ),
    decreases records.len(),
{
    if records.len() == 0 {
        assert(Seq::<u8>::empty() + tail =~= tail);
        assert(records =~= Seq::empty());
    } else {
        let rest = records.skip(1);
        lemma_rows_bytes_front(records);
        lemma_concat_assoc(sized(record_bytes(records[0])), rows_bytes(rest), tail);
        assert(row_valid(records[0], digest_at(digests, from)));
        lemma_row_back(records[0], digest_at(digests, from), rows_bytes(rest) + tail);
        assert forall|i: int| 0 <= i < rest.len() implies row_valid(
            #[trigger] rest[i],
            digest_at(digests, (from + 1 + i) as nat),
        ) by {
            assert(rest[i] == records[i + 1]);
            assert(row_valid(records[i + 1], digest_at(digests, (from + (i + 1)) as nat)));
        }
        lemma_rows_back(rest, digests, from + 1, tail);
        assert(seq![records[0]] + rest =~= records);
    }
}

/// The leading fields of a segment.
pub open spec fn segment_head_of(segment: SegmentView) -> SegmentHeadView {
    SegmentHeadView {
        logical_shard_id: segment.logical_shard_id,
        first_lsn: segment.first_lsn,
        last_lsn: segment.last_lsn,
        previous_chain_digest: segment.previous_chain_digest,
        last_chain_digest: segment.last_chain_digest,
        segment_digest: segment.segment_digest,
        count: segment.records.len() as u32,
    }
}

/// The stored form of a segment's leading fields.
pub open spec fn segment_head_bytes(head: SegmentHeadView) -> Seq<u8> {
    utf8("NOKVRSG1"@) + seq![RECOVERY_SEGMENT_FORMAT_VERSION] + id_bytes(
        head.logical_shard_id.bits,
    ) + be_bytes(head.first_lsn as nat, 8) + be_bytes(head.last_lsn as nat, 8)
        + head.previous_chain_digest + head.last_chain_digest + head.segment_digest + be_bytes(
        head.count as nat,
        4,
    )
}

pub proof fn lemma_magic_length()
    ensures
        utf8("NOKVRSG1"@).len() == 8,
{
    reveal_strlit("NOKVRSG1");
    assert(vstd::utf8::is_ascii_chars("NOKVRSG1"@));
    vstd::utf8::is_ascii_chars_encode_utf8("NOKVRSG1"@);
}

proof fn lemma_segment_head_back(head: SegmentHeadView, tail: Seq<u8>)
    requires
        head.previous_chain_digest.len() == 32,
        head.last_chain_digest.len() == 32,
        head.segment_digest.len() == 32,
        0 < head.count <= MAX_RECOVERY_SEGMENT_RECORDS,
    ensures
        step_segment_head(start(segment_head_bytes(head) + tail)) == (
            head,
            start::<RecoveryCodecError>(tail),
        ),
{
    reveal(step_segment_head);
    lemma_magic_length();
    let f0 = utf8("NOKVRSG1"@);
    let f1 = seq![RECOVERY_SEGMENT_FORMAT_VERSION];
    let f2 = id_bytes(head.logical_shard_id.bits);
    let f3 = be_bytes(head.first_lsn as nat, 8);
    let f4 = be_bytes(head.last_lsn as nat, 8);
    let f5 = head.previous_chain_digest;
    let f6 = head.last_chain_digest;
    let f7 = head.segment_digest;
    let f8 = be_bytes(head.count as nat, 4);
    let t8 = f8 + tail;
    let t7 = f7 + t8;
    let t6 = f6 + t7;
    let t5 = f5 + t6;
    let t4 = f4 + t5;
    let t3 = f3 + t4;
    let t2 = f2 + t3;
    let t1 = f1 + t2;
    lemma_concat_assoc(f0 + f1 + f2 + f3 + f4 + f5 + f6 + f7, f8, tail);
    lemma_concat_assoc(f0 + f1 + f2 + f3 + f4 + f5 + f6, f7, t8);
    lemma_concat_assoc(f0 + f1 + f2 + f3 + f4 + f5, f6, t7);
    lemma_concat_assoc(f0 + f1 + f2 + f3 + f4, f5, t6);
    lemma_concat_assoc(f0 + f1 + f2 + f3, f4, t5);
    lemma_concat_assoc(f0 + f1 + f2, f3, t4);
    lemma_concat_assoc(f0 + f1, f2, t3);
    lemma_concat_assoc(f0, f1, t2);
    assert(segment_head_bytes(head) + tail == f0 + t1);
    crate::wire::lemma_take_back::<RecoveryCodecError>(f0, t1, "recovery_segment_magic", 8);
    crate::wire::lemma_u8_back::<RecoveryCodecError>(
        RECOVERY_SEGMENT_FORMAT_VERSION,
        t2,
        "recovery_segment_format_version",
    );
    crate::wire::lemma_id_back::<RecoveryCodecError>(
        head.logical_shard_id.bits,
        t3,
        "logical_shard_id",
    );
    crate::wire::lemma_u64_back::<RecoveryCodecError>(head.first_lsn, t4, "first_lsn");
    crate::wire::lemma_u64_back::<RecoveryCodecError>(head.last_lsn, t5, "last_lsn");
    crate::wire::lemma_digest_back::<RecoveryCodecError>(f5, t6, "previous_chain_digest");
    crate::wire::lemma_digest_back::<RecoveryCodecError>(f6, t7, "last_chain_digest");
    crate::wire::lemma_digest_back::<RecoveryCodecError>(f7, t8, "segment_digest");
    crate::wire::lemma_u32_back::<RecoveryCodecError>(
        head.count,
        tail,
        "recovery_segment_records",
    );
}

proof fn lemma_segment_head_split(st: RecoveryParse)
    ensures
        step_segment_head(st).1.err is None ==> {
            let (head, next) = step_segment_head(st);
            &&& st.err is None
            &&& head.previous_chain_digest.len() == 32
            &&& head.last_chain_digest.len() == 32
            &&& head.segment_digest.len() == 32
            &&& 0 < head.count <= MAX_RECOVERY_SEGMENT_RECORDS
            &&& st.rest == segment_head_bytes(head) + next.rest
        },
        st.err is Some ==> step_segment_head(st).1 == st,
{
    reveal(step_segment_head);
    let (magic, s1) = step_take(st, "recovery_segment_magic", 8);
    let s2 = check(
        s1,
        magic == utf8("NOKVRSG1"@),
        RecoveryCodecError::InvalidValue { field: "recovery_segment_magic" },
    );
    let (version, s3) = step_u8(s2, "recovery_segment_format_version");
    let s4 = check(
        s3,
        version == RECOVERY_SEGMENT_FORMAT_VERSION,
        RecoveryCodecError::UnsupportedVersion {
            actual: version,
            expected: RECOVERY_SEGMENT_FORMAT_VERSION,
        },
    );
    let (shard, s5) = step_id(s4, "logical_shard_id");
    let (first_lsn, s6) = step_u64(s5, "first_lsn");
    let (last_lsn, s7) = step_u64(s6, "last_lsn");
    let (previous, s8) = step_digest(s7, "previous_chain_digest");
    let (last, s9) = step_digest(s8, "last_chain_digest");
    let (digest, s10) = step_digest(s9, "segment_digest");
    let (count, s11) = step_u32(s10, "recovery_segment_records");
    if step_segment_head(st).1.err is None {
        crate::wire::lemma_u32_split(s10, "recovery_segment_records");
        crate::wire::lemma_digest_split(s9, "segment_digest");
        crate::wire::lemma_digest_split(s8, "last_chain_digest");
        crate::wire::lemma_digest_split(s7, "previous_chain_digest");
        crate::wire::lemma_u64_split(s6, "last_lsn");
        crate::wire::lemma_u64_split(s5, "first_lsn");
        crate::wire::lemma_id_split(s4, "logical_shard_id");
        crate::wire::lemma_u8_split(s2, "recovery_segment_format_version");
        crate::wire::lemma_take_split(st, "recovery_segment_magic", 8);
        let f1 = seq![version];
        let f2 = id_bytes(shard);
        let f3 = be_bytes(first_lsn as nat, 8);
        let f4 = be_bytes(last_lsn as nat, 8);
        let f8 = be_bytes(count as nat, 4);
        lemma_concat_assoc(magic, f1, s3.rest);
        lemma_concat_assoc(magic + f1, f2, s5.rest);
        lemma_concat_assoc(magic + f1 + f2, f3, s6.rest);
        lemma_concat_assoc(magic + f1 + f2 + f3, f4, s7.rest);
        lemma_concat_assoc(magic + f1 + f2 + f3 + f4, previous, s8.rest);
        lemma_concat_assoc(magic + f1 + f2 + f3 + f4 + previous, last, s9.rest);
        lemma_concat_assoc(magic + f1 + f2 + f3 + f4 + previous + last, digest, s10.rest);
        lemma_concat_assoc(magic + f1 + f2 + f3 + f4 + previous + last + digest, f8, s11.rest);
    }
}

proof fn lemma_row_split(st: RecoveryParse, canonical_digest: Seq<u8>)
    ensures
        step_row(st, canonical_digest).1.err is None ==> {
            let (record, next) = step_row(st, canonical_digest);
            &&& st.err is None
            &&& row_valid(record, canonical_digest)
            &&& st.rest == sized(record_bytes(record)) + next.rest
        },
{
    reveal(step_row);
    let (bytes, s1) = step_bytes(st, "recovery_segment_record", MAX_RECOVERY_BYTES);
    crate::wire::lemma_bytes_split(st, "recovery_segment_record", MAX_RECOVERY_BYTES);
    if s1.err is None && parse_record(bytes, canonical_digest) is Ok {
        crate::recovery::record_canonical(bytes, canonical_digest);
    }
}

proof fn lemma_rows_split(st: RecoveryParse, digests: Seq<Seq<u8>>, from: nat, count: nat)
    ensures
        step_rows(st, digests, from, count).1.err is None ==> {
            let (records, next) = step_rows(st, digests, from, count);
            &&& st.err is None
            &&& records.len() == count
            &&& rows_valid(records, digests, from)
            &&& st.rest == rows_bytes(records) + next.rest
        },
    decreases count,
{
    let (records, next) = step_rows(st, digests, from, count);
    if count == 0 {
        assert(Seq::<u8>::empty() + next.rest =~= next.rest);
    } else if st.err is None {
        let (first, s1) = step_row(st, digest_at(digests, from));
        let (rest, s2) = step_rows(s1, digests, from + 1, (count - 1) as nat);
        lemma_rows_split(s1, digests, from + 1, (count - 1) as nat);
        lemma_row_split(st, digest_at(digests, from));
        if next.err is None {
            assert(records =~= seq![first] + rest);
            assert(records.skip(1) =~= rest);
            lemma_rows_bytes_front(records);
            lemma_concat_assoc(sized(record_bytes(first)), rows_bytes(rest), next.rest);
            assert forall|i: int| 0 <= i < records.len() implies row_valid(
                #[trigger] records[i],
                digest_at(digests, (from + i) as nat),
            ) by {
                if i > 0 {
                    assert(records[i] == rest[i - 1]);
                    assert(row_valid(rest[i - 1], digest_at(digests, (from + 1 + (i - 1)) as nat)));
                }
            }
        }
    }
}

proof fn lemma_segment_bytes(segment: SegmentView)
    requires
        segment.format_version == RECOVERY_SEGMENT_FORMAT_VERSION,
        segment.records.len() <= u32::MAX,
    ensures
        segment_bytes(segment) == segment_head_bytes(segment_head_of(segment)) + rows_bytes(
            segment.records,
        ),
{
}

proof fn lemma_segment_bytes_length(segment: SegmentView)
    requires
        segment.format_version == RECOVERY_SEGMENT_FORMAT_VERSION,
        segment.records.len() <= u32::MAX,
        segment.previous_chain_digest.len() == 32,
        segment.last_chain_digest.len() == 32,
        segment.segment_digest.len() == 32,
    ensures
        segment_bytes(segment).len() == segment_length(segment.records),
{
    broadcast use crate::be::lemma_be_bytes_len;

    lemma_magic_length();
    lemma_rows_bytes_length(segment.records);
}

proof fn lemma_rows_bytes_length(records: Seq<RecordView>)
    ensures
        segment_length(records) == RECOVERY_SEGMENT_FIXED_BYTES + rows_bytes(records).len(),
    decreases records.len(),
{
    broadcast use crate::be::lemma_be_bytes_len;

    if records.len() > 0 {
        lemma_rows_bytes_length(records.drop_last());
    }
}

proof fn lemma_row_fits(records: Seq<RecordView>, i: int)
    requires
        0 <= i < records.len(),
    ensures
        record_bytes(records[i]).len() <= segment_length(records),
{
    lemma_segment_length_grows(records, i + 1);
    assert(records.take(i + 1).last() == records[i]);
}

/// A segment that verifies is read back as it was written, given the digests
/// of its commands.
pub proof fn segment_round_trip(segment: SegmentView, digests: Seq<Seq<u8>>)
    requires
        segment_fault(segment) is None,
        forall|i: int|
            0 <= i < segment.records.len() ==> record_valid(#[trigger] segment.records[i])
                && sealed_by(segment.records[i].mutation, digest_at(digests, i as nat)),
    ensures
        parse_segment(segment_bytes(segment), digests) == Ok::<_, RecoveryCodecError>(segment),
{
    let records = segment.records;
    let empty = Seq::<u8>::empty();
    let head = segment_head_of(segment);
    assert forall|i: int| 0 <= i < records.len() implies row_valid(
        #[trigger] records[i],
        digest_at(digests, (0 + i) as nat),
    ) by {
        lemma_row_is_sound(segment.logical_shard_id, records, records.len(), i);
        lemma_row_fits(records, i);
    }
    assert(record_valid(records[0]) && record_valid(records[records.len() - 1]));
    crate::digest::lemma_sha256_len(
        utf8("nokv.metadata.recovery.segment.v1\0"@) + id_bytes(segment.logical_shard_id.bits)
            + be_bytes(records.first().recovery_lsn as nat, 8) + be_bytes(
            records.last().recovery_lsn as nat,
            8,
        ) + records.first().previous_chain_digest + records.last().chain_digest + be_bytes(
            records.len(),
            8,
        ) + hashed_rows(records),
    );
    assert(segment.segment_digest.len() == 32);
    lemma_segment_bytes(segment);
    lemma_segment_bytes_length(segment);
    lemma_concat_empty(rows_bytes(records));
    lemma_segment_head_back(head, rows_bytes(records));
    lemma_rows_back(records, digests, 0, empty);
    assert(segment_from(head, records) =~= segment);
}

/// Every accepted segment is the one stored form of what was read, and it
/// verifies.
pub proof fn segment_canonical(bytes: Seq<u8>, digests: Seq<Seq<u8>>)
    requires
        parse_segment(bytes, digests) is Ok,
    ensures
        ({
            let segment = parse_segment(bytes, digests).unwrap();
            &&& bytes == segment_bytes(segment)
            &&& segment_fault(segment) is None
        }),
{
    let st = start::<RecoveryCodecError>(bytes);
    let (head, s1) = step_segment_head(st);
    let (records, s2) = step_rows(s1, digests, 0, head.count as nat);
    let segment = segment_from(head, records);
    assert(s2.err is None && s2.rest =~= Seq::<u8>::empty());
    lemma_rows_split(s1, digests, 0, head.count as nat);
    lemma_segment_head_split(st);
    assert(segment_head_of(segment) =~= head);
    lemma_segment_bytes(segment);
    lemma_concat_empty(rows_bytes(records));
}

} // verus!
