//! The recovery outbox: a hash chain of replayable writes, and bounded slices
//! of it.

use crate::be::{be_bytes, put_be, put_slice, same_bytes};
use crate::command::{MetadataCommand, RecoveryCodecError, RecoveryParse, MAX_RECOVERY_BYTES};
use crate::digest::{sha256, sha256_of};
use crate::ids::{id_bytes, LogicalShardId};
use crate::publication_records::first_fault;
use crate::recovery_mutation::{command_held, mutation_bytes, mutation_fault, mutation_valid,
    parse_mutation, parse_result, result_bytes, result_fault, result_valid, step_positive,
    RecoveryMutationV1, RecoveryMutationView, RecoveryResultV1, RecoveryResultView,
    LEGACY_RECOVERY_OUTBOX_VALUE_FORMAT_VERSION, RECOVERY_OUTBOX_VALUE_FORMAT_VERSION};
use crate::text::utf8;
use crate::wire::{check, fail, lemma_concat_assoc, lemma_concat_empty, put_sized, sized, start,
    step_bytes, step_digest, step_end, step_u8, stepped, viewed, Reader};
use vstd::prelude::*;

verus! {

/// Width of a chain digest.
pub const RECOVERY_CHAIN_DIGEST_BYTES: usize = 32;

/// One hash-chained recovery row.
#[derive(Clone, Debug, PartialEq, Eq)]
pub struct RecoveryOutboxRecord {
    pub format_version: u8,
    pub recovery_lsn: u64,
    pub previous_chain_digest: [u8; 32],
    pub chain_digest: [u8; 32],
    pub mutation: RecoveryMutationV1,
    pub result: RecoveryResultV1,
}

/// A recovery row with its bytes as sequences.
#[verifier::ext_equal]
pub struct RecordView {
    pub format_version: u8,
    pub recovery_lsn: u64,
    pub previous_chain_digest: Seq<u8>,
    pub chain_digest: Seq<u8>,
    pub mutation: RecoveryMutationView,
    pub result: RecoveryResultView,
}

impl View for RecoveryOutboxRecord {
    type V = RecordView;

    open spec fn view(&self) -> RecordView {
        RecordView {
            format_version: self.format_version,
            recovery_lsn: self.recovery_lsn,
            previous_chain_digest: self.previous_chain_digest@,
            chain_digest: self.chain_digest@,
            mutation: self.mutation@,
            result: self.result@,
        }
    }
}

/// Durable tail of the outbox, advanced with every row.
#[derive(Clone, Copy, Debug, PartialEq, Eq)]
pub struct RecoveryState {
    pub applied_recovery_lsn: u64,
    pub chain_digest: [u8; 32],
}

/// A byte string behind its eight-byte length.
pub open spec fn long_sized(bytes: Seq<u8>) -> Seq<u8> {
    be_bytes(bytes.len(), 8) + bytes
}

/// The digest from which the chain of a shard starts.
pub open spec fn genesis_digest_of(shard: LogicalShardId) -> Seq<u8> {
    sha256_of(utf8("nokv.metadata.recovery.genesis.v1\0"@) + id_bytes(shard.bits))
}

/// The digest of a row: over the previous row's digest, the row's number, and
/// what the row carries.
pub open spec fn chain_digest_of(
    previous: Seq<u8>,
    lsn: u64,
    mutation: Seq<u8>,
    result: Seq<u8>,
) -> Seq<u8> {
    sha256_of(
        utf8("nokv.metadata.recovery.chain.v1\0"@) + previous + be_bytes(lsn as nat, 8)
            + long_sized(mutation) + long_sized(result),
    )
}

/// The digest from which the chain of a shard starts.
pub fn recovery_genesis_digest(logical_shard_id: LogicalShardId) -> (digest: [u8; 32])
    ensures
        digest@ == genesis_digest_of(logical_shard_id),
{
    let mut input: Vec<u8> = Vec::new();
    put_slice(&mut input, "nokv.metadata.recovery.genesis.v1\0".as_bytes());
    assert(input@ =~= utf8("nokv.metadata.recovery.genesis.v1\0"@));
    put_be(&mut input, logical_shard_id.bits, 16);
    sha256(input.as_slice())
}

/// Appends a byte string behind its eight-byte length.
pub fn put_long_sized(out: &mut Vec<u8>, bytes: &[u8])
    ensures
        final(out)@ == old(out)@ + long_sized(bytes@),
{
    put_be(out, bytes.len() as u128, 8);
    put_slice(out, bytes);
    proof {
        lemma_concat_assoc(old(out)@, be_bytes(bytes@.len(), 8), bytes@);
    }
}

fn recovery_chain_digest(previous: &[u8; 32], lsn: u64, mutation: &[u8], result: &[u8]) -> (digest:
    [u8; 32])
    ensures
        digest@ == chain_digest_of(previous@, lsn, mutation@, result@),
{
    let mut input: Vec<u8> = Vec::new();
    put_slice(&mut input, "nokv.metadata.recovery.chain.v1\0".as_bytes());
    assert(input@ =~= utf8("nokv.metadata.recovery.chain.v1\0"@));
    put_slice(&mut input, previous.as_slice());
    put_be(&mut input, lsn as u128, 8);
    put_long_sized(&mut input, mutation);
    put_long_sized(&mut input, result);
    sha256(input.as_slice())
}

/// Whether a result is evidence of its mutation: a command returns its own
/// result at the next version, a clock reports what was observed, an owner
/// advance applies the next epoch.
pub open spec fn pair_fits(mutation: RecoveryMutationView, result: RecoveryResultView) -> bool {
    match (mutation, result) {
        (
            RecoveryMutationView::MetadataCommand { command, .. },
            RecoveryResultView::MetadataCommand { commit_version, deterministic_result },
        ) => deterministic_result == command.deterministic_result && command.read_version.value + 1
            == commit_version.value,
        (
            RecoveryMutationView::ObserveLeaseClock { observed_ms, .. },
            RecoveryResultView::LeaseClock { effective_high_water_ms },
        ) => observed_ms != 0 && observed_ms == effective_high_water_ms,
        (
            RecoveryMutationView::AdvanceOwnerEpoch { expected, next },
            RecoveryResultView::OwnerEpoch { applied_owner_epoch },
        ) => next == applied_owner_epoch && (expected is Some ==> expected.unwrap().value
            < next.value),
        _ => false,
    }
}

/// A result that is no evidence of its mutation.
pub open spec fn pair_fault(mutation: RecoveryMutationView, result: RecoveryResultView) -> Option<
    RecoveryCodecError,
> {
    if pair_fits(mutation, result) {
        None
    } else {
        Some(RecoveryCodecError::InvalidValue { field: "mutation_result_pair" })
    }
}

fn validate_pair(mutation: &RecoveryMutationV1, result: &RecoveryResultV1) -> (outcome: Result<
    (),
    RecoveryCodecError,
>)
    ensures
        match outcome {
            Ok(_) => pair_fault(mutation@, result@) is None,
            Err(error) => pair_fault(mutation@, result@) == Some(error),
        },
{
    let fits: bool = match mutation {
        RecoveryMutationV1::MetadataCommand { command, .. } => match result {
            RecoveryResultV1::MetadataCommand { commit_version, deterministic_result } => same_bytes(
                deterministic_result.as_slice(),
                command.deterministic_result.as_slice(),
            ) && command.read_version.value < u64::MAX && command.read_version.value + 1
                == commit_version.value,
            _ => false,
        },
        RecoveryMutationV1::ObserveLeaseClock { observed_ms, .. } => match result {
            RecoveryResultV1::LeaseClock { effective_high_water_ms } => *observed_ms != 0
                && *observed_ms == *effective_high_water_ms,
            _ => false,
        },
        RecoveryMutationV1::AdvanceOwnerEpoch { expected, next } => match result {
            RecoveryResultV1::OwnerEpoch { applied_owner_epoch } => {
                let advances: bool = match expected {
                    None => true,
                    Some(epoch) => epoch.value < next.value,
                };
                next.value == applied_owner_epoch.value && advances
            },
            _ => false,
        },
    };
    if fits {
        Ok(())
    } else {
        Err(RecoveryCodecError::InvalidValue { field: "mutation_result_pair" })
    }
}

/// The chain digest that a row must have.
pub open spec fn expected_chain_digest(record: RecordView) -> Seq<u8> {
    chain_digest_of(
        record.previous_chain_digest,
        record.recovery_lsn,
        mutation_bytes(record.mutation),
        result_bytes(record.result),
    )
}

/// Why a row cannot be stored, if it cannot.
pub open spec fn record_fault(record: RecordView) -> Option<RecoveryCodecError> {
    first_fault(
        pair_fault(record.mutation, record.result),
        first_fault(
            mutation_fault(record.mutation, record.format_version),
            first_fault(
                result_fault(record.result),
                if record.recovery_lsn == 0 {
                    Some(RecoveryCodecError::ZeroScalar { field: "recovery_lsn" })
                } else if record.chain_digest != expected_chain_digest(record) {
                    Some(RecoveryCodecError::ChainDigestMismatch)
                } else {
                    None
                },
            ),
        ),
    )
}

/// The stored form of a row.
pub open spec fn record_bytes(record: RecordView) -> Seq<u8> {
    seq![record.format_version] + be_bytes(record.recovery_lsn as nat, 8)
        + record.previous_chain_digest + record.chain_digest + sized(
        mutation_bytes(record.mutation),
    ) + sized(result_bytes(record.result))
}

/// The format byte of a row.
pub open spec fn step_recovery_version(st: RecoveryParse) -> (u8, RecoveryParse) {
    let (version, s1) = step_u8(st, "value_format_version");
    (
        version,
        check(
            s1,
            version == LEGACY_RECOVERY_OUTBOX_VALUE_FORMAT_VERSION || version
                == RECOVERY_OUTBOX_VALUE_FORMAT_VERSION,
            RecoveryCodecError::UnsupportedVersion {
                actual: version,
                expected: RECOVERY_OUTBOX_VALUE_FORMAT_VERSION,
            },
        ),
    )
}

/// An embedded mutation.
#[verifier::opaque]
pub open spec fn step_mutation_field(st: RecoveryParse, version: u8, canonical_digest: Seq<u8>) -> (
    RecoveryMutationView,
    RecoveryParse,
) {
    let (bytes, s1) = step_bytes(st, "mutation", MAX_RECOVERY_BYTES);
    if s1.err is Some {
        (arbitrary(), s1)
    } else {
        match parse_mutation(bytes, version, canonical_digest) {
            Ok(mutation) => (mutation, s1),
            Err(error) => (arbitrary(), fail(s1, error)),
        }
    }
}

/// An embedded result.
#[verifier::opaque]
pub open spec fn step_result_field(st: RecoveryParse) -> (RecoveryResultView, RecoveryParse) {
    let (bytes, s1) = step_bytes(st, "result", MAX_RECOVERY_BYTES);
    if s1.err is Some {
        (arbitrary(), s1)
    } else {
        match parse_result(bytes) {
            Ok(result) => (result, s1),
            Err(error) => (arbitrary(), fail(s1, error)),
        }
    }
}

broadcast proof fn lemma_mutation_field_after_failure(
    st: RecoveryParse,
    version: u8,
    canonical_digest: Seq<u8>,
)
    requires
        st.err is Some,
    ensures
        (#[trigger] step_mutation_field(st, version, canonical_digest)).1 == st,
{
    reveal(step_mutation_field);
}

broadcast proof fn lemma_result_field_after_failure(st: RecoveryParse)
    requires
        st.err is Some,
    ensures
        (#[trigger] step_result_field(st)).1 == st,
{
    reveal(step_result_field);
}

/// The fields in front of what a row carries: format, number and digests.
pub open spec fn step_record_head(st: RecoveryParse) -> (
    (u8, u64, Seq<u8>, Seq<u8>),
    RecoveryParse,
) {
    let (version, s1) = step_recovery_version(st);
    let (lsn, s2) = step_positive(s1, "recovery_lsn");
    let (previous, s3) = step_digest(s2, "previous_chain_digest");
    let (chain, s4) = step_digest(s3, "chain_digest");
    ((version, lsn, previous, chain), s4)
}

/// The row that bytes hold, or why they hold none. A command in it must be
/// sealed by `canonical_digest`.
pub open spec fn parse_record(bytes: Seq<u8>, canonical_digest: Seq<u8>) -> Result<
    RecordView,
    RecoveryCodecError,
> {
    let ((version, lsn, previous, chain), s1) = step_record_head(start(bytes));
    let (mutation, s2) = step_mutation_field(s1, version, canonical_digest);
    let (result, s3) = step_result_field(s2);
    let record = RecordView {
        format_version: version,
        recovery_lsn: lsn,
        previous_chain_digest: previous,
        chain_digest: chain,
        mutation,
        result,
    };
    match step_end(s3).err {
        Some(error) => Err(error),
        None => match record_fault(record) {
            Some(error) => Err(error),
            None => Ok(record),
        },
    }
}

/// The command that the bytes of a row hold, if they hold one.
pub open spec fn record_command_held(bytes: Seq<u8>) -> Option<crate::command::CommandView> {
    let ((version, lsn, previous, chain), s1) = step_record_head(start(bytes));
    let (mutation, s2) = step_bytes(s1, "mutation", MAX_RECOVERY_BYTES);
    if s2.err is Some {
        None
    } else {
        command_held(mutation, version)
    }
}

/// Every number that must be positive is, and digests have their width.
pub open spec fn record_valid(record: RecordView) -> bool {
    &&& record.format_version == LEGACY_RECOVERY_OUTBOX_VALUE_FORMAT_VERSION
        || record.format_version == RECOVERY_OUTBOX_VALUE_FORMAT_VERSION
    &&& record.previous_chain_digest.len() == 32
    &&& record.chain_digest.len() == 32
    &&& mutation_valid(record.mutation)
    &&& result_valid(record.result)
}

/// Whether a command in the mutation, if there is one, is sealed by the given
/// digest.
pub open spec fn sealed_by(mutation: RecoveryMutationView, canonical_digest: Seq<u8>) -> bool {
    mutation is MetadataCommand ==> mutation->canonical_digest == canonical_digest
}

fn read_recovery_version(reader: &mut Reader) -> (result: Result<u8, RecoveryCodecError>)
    requires
        old(reader).wf(),
    ensures
        final(reader).wf(),
        match result {
            Ok(value) => {
                &&& step_recovery_version(start(old(reader).rest())).0 == value
                &&& stepped(step_recovery_version(start(old(reader).rest())).1, *final(reader))
            },
            Err(error) => step_recovery_version(start(old(reader).rest())).1.err == Some(error),
        },
{
    let version: u8 = reader.u8("value_format_version")?;
    if version != LEGACY_RECOVERY_OUTBOX_VALUE_FORMAT_VERSION && version
        != RECOVERY_OUTBOX_VALUE_FORMAT_VERSION {
        return Err(
            RecoveryCodecError::UnsupportedVersion {
                actual: version,
                expected: RECOVERY_OUTBOX_VALUE_FORMAT_VERSION,
            },
        );
    }
    Ok(version)
}

fn read_record_head(reader: &mut Reader) -> (result: Result<
    (u8, u64, [u8; 32], [u8; 32]),
    RecoveryCodecError,
>)
    requires
        old(reader).wf(),
    ensures
        final(reader).wf(),
        match result {
            Ok(value) => {
                &&& step_record_head(start(old(reader).rest())).0 == (
                    value.0,
                    value.1,
                    value.2@,
                    value.3@,
                )
                &&& stepped(step_record_head(start(old(reader).rest())).1, *final(reader))
            },
            Err(error) => step_record_head(start(old(reader).rest())).1.err == Some(error),
        },
{
    let version: u8 = read_recovery_version(reader)?;
    let lsn: u64 = reader.u64("recovery_lsn")?;
    if lsn == 0 {
        return Err(RecoveryCodecError::ZeroScalar { field: "recovery_lsn" });
    }
    let previous: [u8; 32] = reader.digest("previous_chain_digest")?;
    let chain: [u8; 32] = reader.digest("chain_digest")?;
    Ok((version, lsn, previous, chain))
}

impl RecoveryOutboxRecord {
    /// A row of the current format that continues the chain from
    /// `previous_chain_digest`.
    pub fn new(
        recovery_lsn: u64,
        previous_chain_digest: [u8; 32],
        mutation: RecoveryMutationV1,
        result: RecoveryResultV1,
    ) -> (record: Result<RecoveryOutboxRecord, RecoveryCodecError>)
        ensures
            match record {
                Ok(record) => {
                    &&& record.format_version == RECOVERY_OUTBOX_VALUE_FORMAT_VERSION
                    &&& record.recovery_lsn == recovery_lsn
                    &&& record.previous_chain_digest == previous_chain_digest
                    &&& record.mutation == mutation
                    &&& record.result == result
                    &&& record_fault(record@) is None
                },
                Err(error) => Some(error) == if recovery_lsn == 0 {
                    Some(RecoveryCodecError::ZeroScalar { field: "recovery_lsn" })
                } else {
                    first_fault(
                        pair_fault(mutation@, result@),
                        first_fault(
                            mutation_fault(mutation@, RECOVERY_OUTBOX_VALUE_FORMAT_VERSION),
                            result_fault(result@),
                        ),
                    )
                },
            },
    {
        if recovery_lsn == 0 {
            return Err(RecoveryCodecError::ZeroScalar { field: "recovery_lsn" });
        }
        validate_pair(&mutation, &result)?;
        let mutation_part: Vec<u8> = mutation.encode_canonical()?;
        let result_part: Vec<u8> = result.encode_canonical()?;
        let chain_digest: [u8; 32] = recovery_chain_digest(
            &previous_chain_digest,
            recovery_lsn,
            mutation_part.as_slice(),
            result_part.as_slice(),
        );
        Ok(
            RecoveryOutboxRecord {
                format_version: RECOVERY_OUTBOX_VALUE_FORMAT_VERSION,
                recovery_lsn,
                previous_chain_digest,
                chain_digest,
                mutation,
                result,
            },
        )
    }

    /// The stored form of a row whose chain digest is right.
    pub fn encode(&self) -> (result: Result<Vec<u8>, RecoveryCodecError>)
        ensures
            match result {
                Ok(bytes) => record_fault(self@) is None && bytes@ == record_bytes(self@),
                Err(error) => record_fault(self@) == Some(error),
            },
    {
        validate_pair(&self.mutation, &self.result)?;
        let mutation: Vec<u8> = self.mutation.encode_canonical_for_version(self.format_version)?;
        let result: Vec<u8> = self.result.encode_canonical()?;
        let expected: [u8; 32] = recovery_chain_digest(
            &self.previous_chain_digest,
            self.recovery_lsn,
            mutation.as_slice(),
            result.as_slice(),
        );
        if self.recovery_lsn == 0 {
            return Err(RecoveryCodecError::ZeroScalar { field: "recovery_lsn" });
        }
        if !same_bytes(expected.as_slice(), self.chain_digest.as_slice()) {
            return Err(RecoveryCodecError::ChainDigestMismatch);
        }
        proof {
            lemma_carried_lengths(self@);
        }
        let mut bytes: Vec<u8> = vec![self.format_version];
        assert(bytes@ =~= seq![self.format_version]);
        put_be(&mut bytes, self.recovery_lsn as u128, 8);
        put_slice(&mut bytes, self.previous_chain_digest.as_slice());
        put_slice(&mut bytes, self.chain_digest.as_slice());
        put_sized(&mut bytes, mutation.as_slice());
        put_sized(&mut bytes, result.as_slice());
        Ok(bytes)
    }

    /// The row that bytes hold.
    ///
    /// `canonical_digest` is what the command engine computes for the command
    /// that [`RecoveryOutboxRecord::held_command`] finds in the bytes; it is
    /// not looked at where the row carries no command.
    pub fn decode(encoded: &[u8], canonical_digest: &[u8]) -> (result: Result<
        RecoveryOutboxRecord,
        RecoveryCodecError,
    >)
        ensures
            viewed(result) == parse_record(encoded@, canonical_digest@),
    {
        broadcast use {lemma_mutation_field_after_failure, lemma_result_field_after_failure};

        let mut reader = Reader::new(encoded);
        let (format_version, recovery_lsn, previous_chain_digest, chain_digest) =
            read_record_head(&mut reader)?;
        proof {
            reveal(step_mutation_field);
            reveal(step_result_field);
        }
        let mutation_part: &[u8] = reader.bytes("mutation", MAX_RECOVERY_BYTES)?;
        let mutation: RecoveryMutationV1 = RecoveryMutationV1::decode_canonical_for_version(
            mutation_part,
            format_version,
            canonical_digest,
        )?;
        let result_part: &[u8] = reader.bytes("result", MAX_RECOVERY_BYTES)?;
        let result: RecoveryResultV1 = RecoveryResultV1::decode_canonical(result_part)?;
        reader.end()?;
        let record = RecoveryOutboxRecord {
            format_version,
            recovery_lsn,
            previous_chain_digest,
            chain_digest,
            mutation,
            result,
        };
        record.verify()?;
        Ok(record)
    }

    /// Whether the row can be stored as it is.
    pub fn verify(&self) -> (result: Result<(), RecoveryCodecError>)
        ensures
            match result {
                Ok(_) => record_fault(self@) is None,
                Err(error) => record_fault(self@) == Some(error),
            },
    {
        let bytes: Vec<u8> = self.encode()?;
        Ok(())
    }

    /// The command that the bytes of a row hold, if they hold one.
    pub fn held_command(encoded: &[u8]) -> (command: Option<MetadataCommand>)
        ensures
            match command {
                Some(command) => record_command_held(encoded@) == Some(command@),
                None => record_command_held(encoded@) is None,
            },
    {
        let mut reader = Reader::new(encoded);
        let version: u8 = match read_record_head(&mut reader) {
            Err(_) => {
                return None;
            },
            Ok(head) => head.0,
        };
        let part: Result<&[u8], RecoveryCodecError> = reader.bytes("mutation", MAX_RECOVERY_BYTES);
        match part {
            Err(_) => None,
            Ok(part) => RecoveryMutationV1::held_command(part, version),
        }
    }
}

proof fn lemma_carried_lengths(record: RecordView)
    requires
        mutation_fault(record.mutation, record.format_version) is None,
        result_fault(record.result) is None,
    ensures
        mutation_bytes(record.mutation).len() <= MAX_RECOVERY_BYTES,
        result_bytes(record.result).len() <= MAX_RECOVERY_BYTES,
{
    broadcast use crate::be::lemma_be_bytes_len;

}

/// A storable row is read back as it was written, given its command's digest.
pub proof fn record_round_trip(record: RecordView, canonical_digest: Seq<u8>)
    requires
        record_valid(record),
        record_fault(record) is None,
        sealed_by(record.mutation, canonical_digest),
    ensures
        parse_record(record_bytes(record), canonical_digest) == Ok::<_, RecoveryCodecError>(record),
{
    lemma_carried_lengths(record);
    crate::recovery_mutation::mutation_round_trip(
        record.mutation,
        record.format_version,
        canonical_digest,
    );
    crate::recovery_mutation::result_round_trip(record.result);
    reveal(step_mutation_field);
    reveal(step_result_field);
    let empty = Seq::<u8>::empty();
    let f0 = seq![record.format_version];
    let f1 = be_bytes(record.recovery_lsn as nat, 8);
    let f2 = record.previous_chain_digest;
    let f3 = record.chain_digest;
    let f4 = sized(mutation_bytes(record.mutation));
    let f5 = sized(result_bytes(record.result));
    let t5 = f5 + empty;
    let t4 = f4 + t5;
    let t3 = f3 + t4;
    let t2 = f2 + t3;
    let t1 = f1 + t2;
    lemma_concat_empty(record_bytes(record));
    lemma_concat_assoc(f0 + f1 + f2 + f3 + f4, f5, empty);
    lemma_concat_assoc(f0 + f1 + f2 + f3, f4, t5);
    lemma_concat_assoc(f0 + f1 + f2, f3, t4);
    lemma_concat_assoc(f0 + f1, f2, t3);
    lemma_concat_assoc(f0, f1, t2);
    assert(record_bytes(record) == f0 + t1);
    crate::wire::lemma_u8_back::<RecoveryCodecError>(
        record.format_version,
        t1,
        "value_format_version",
    );
    crate::wire::lemma_u64_back::<RecoveryCodecError>(record.recovery_lsn, t2, "recovery_lsn");
    crate::wire::lemma_digest_back::<RecoveryCodecError>(f2, t3, "previous_chain_digest");
    crate::wire::lemma_digest_back::<RecoveryCodecError>(f3, t4, "chain_digest");
    crate::wire::lemma_bytes_back::<RecoveryCodecError>(
        mutation_bytes(record.mutation),
        t5,
        "mutation",
        MAX_RECOVERY_BYTES,
    );
    crate::wire::lemma_bytes_back::<RecoveryCodecError>(
        result_bytes(record.result),
        empty,
        "result",
        MAX_RECOVERY_BYTES,
    );
}

proof fn lemma_mutation_field_split(st: RecoveryParse, version: u8, canonical_digest: Seq<u8>)
    ensures
        step_mutation_field(st, version, canonical_digest).1.err is None ==> {
            let (mutation, next) = step_mutation_field(st, version, canonical_digest);
            &&& st.err is None
            &&& mutation_valid(mutation)
            &&& sealed_by(mutation, canonical_digest)
            &&& st.rest == sized(mutation_bytes(mutation)) + next.rest
        },
{
    reveal(step_mutation_field);
    let (bytes, s1) = step_bytes(st, "mutation", MAX_RECOVERY_BYTES);
    crate::wire::lemma_bytes_split(st, "mutation", MAX_RECOVERY_BYTES);
    if s1.err is None && parse_mutation(bytes, version, canonical_digest) is Ok {
        crate::recovery_mutation::mutation_canonical(bytes, version, canonical_digest);
    }
}

proof fn lemma_result_field_split(st: RecoveryParse)
    ensures
        step_result_field(st).1.err is None ==> {
            let (result, next) = step_result_field(st);
            &&& st.err is None
            &&& result_valid(result)
            &&& st.rest == sized(result_bytes(result)) + next.rest
        },
{
    reveal(step_result_field);
    let (bytes, s1) = step_bytes(st, "result", MAX_RECOVERY_BYTES);
    crate::wire::lemma_bytes_split(st, "result", MAX_RECOVERY_BYTES);
    if s1.err is None && parse_result(bytes) is Ok {
        crate::recovery_mutation::result_canonical(bytes);
    }
}

proof fn lemma_record_head_split(st: RecoveryParse)
    ensures
        step_record_head(st).1.err is None ==> {
            let ((version, lsn, previous, chain), next) = step_record_head(st);
            &&& st.err is None
            &&& version == LEGACY_RECOVERY_OUTBOX_VALUE_FORMAT_VERSION || version
                == RECOVERY_OUTBOX_VALUE_FORMAT_VERSION
            &&& previous.len() == 32
            &&& chain.len() == 32
            &&& st.rest == seq![version] + (be_bytes(lsn as nat, 8) + (previous + (chain
                + next.rest)))
        },
{
    let (version, s1) = step_recovery_version(st);
    let (lsn, s2) = step_positive(s1, "recovery_lsn");
    let (previous, s3) = step_digest(s2, "previous_chain_digest");
    crate::wire::lemma_digest_split(s3, "chain_digest");
    crate::wire::lemma_digest_split(s2, "previous_chain_digest");
    crate::wire::lemma_u64_split(s1, "recovery_lsn");
    crate::wire::lemma_u8_split(st, "value_format_version");
}

/// Every accepted row is the one stored form of what was read.
pub proof fn record_canonical(bytes: Seq<u8>, canonical_digest: Seq<u8>)
    requires
        parse_record(bytes, canonical_digest) is Ok,
    ensures
        ({
            let record = parse_record(bytes, canonical_digest).unwrap();
            &&& bytes == record_bytes(record)
            &&& record_fault(record) is None
            &&& record_valid(record)
            &&& sealed_by(record.mutation, canonical_digest)
        }),
{
    let st = start::<RecoveryCodecError>(bytes);
    let ((version, lsn, previous, chain), s1) = step_record_head(st);
    let (mutation, s2) = step_mutation_field(s1, version, canonical_digest);
    let (result, s3) = step_result_field(s2);
    assert(s3.err is None && s3.rest =~= Seq::<u8>::empty());
    lemma_result_field_split(s2);
    lemma_mutation_field_split(s1, version, canonical_digest);
    lemma_record_head_split(st);
    let f0 = seq![version];
    let f1 = be_bytes(lsn as nat, 8);
    let f4 = sized(mutation_bytes(mutation));
    let f5 = sized(result_bytes(result));
    lemma_concat_assoc(f0, f1, previous + (chain + s1.rest));
    lemma_concat_assoc(f0 + f1, previous, chain + s1.rest);
    lemma_concat_assoc(f0 + f1 + previous, chain, s1.rest);
    lemma_concat_assoc(f0 + f1 + previous + chain, f4, s2.rest);
    lemma_concat_assoc(f0 + f1 + previous + chain + f4, f5, s3.rest);
    lemma_concat_empty(f0 + f1 + previous + chain + f4 + f5);
}

} // verus!
