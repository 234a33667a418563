use nokv_meta::command::{
    CommandMutation, CommandPredicate, EventProjection, HistoryProjection, MetadataCommand,
    RecoveryCodecError, RootFenceAction, SCHEMA_ID,
};
use nokv_meta::ids::{
    CommandDigest, CommitVersion, LogicalShardId, MetadataFamily, ObjectNamespaceId, OwnerEpoch,
    PlacementGeneration, ReadVersion, RequestId, RootActivationState, RootId,
};
use nokv_meta::publication_plan::{
    command_frame, CommandPlan, PlannedCommand, PublicationContext,
};
use nokv_meta::recovery::{
    recovery_genesis_digest, RecoveryOutboxRecord, RecoveryState, RECOVERY_CHAIN_DIGEST_BYTES,
};
use nokv_meta::recovery_mutation::{
    encode_optional_u64, RecoveryMutationV1, RecoveryResultV1,
    LEGACY_RECOVERY_OUTBOX_VALUE_FORMAT_VERSION, RECOVERY_OUTBOX_VALUE_FORMAT_VERSION,
};
use nokv_meta::recovery_segment::{
    recovery_segment_record_budget, RecoveryOutboxSegment, MAX_RECOVERY_SEGMENT_BYTES,
    MAX_RECOVERY_SEGMENT_RECORDS,
};
use nokv_meta::recovery_storage::{
    assemble_recovery_storage, decode_recovery_outbox_key, legacy_recovery_outbox_key,
    recovery_chunk_key, recovery_chunk_key_for_layout, recovery_outbox_key,
    recovery_outbox_scan_start, recovery_storage_chunk_count, recovery_storage_logical_length,
    split_recovery_storage, DecodedRecoveryOutboxKey, RecoveryKeyLayout,
    MAX_STORAGE_CHUNK_DATA_BYTES, RECOVERY_OUTBOX_KEY_BYTES, STORAGE_CHUNK_VERSION,
    STORAGE_HEADER_KEY_TAG, STORAGE_HEADER_VERSION,
};

fn hex_encode(bytes: &[u8]) -> String {
    let mut encoded = String::with_capacity(bytes.len() * 2);
    for byte in bytes {
        encoded.push_str(&format!("{byte:02x}"));
    }
    encoded
}

fn hex_decode(encoded: &str) -> Vec<u8> {
    let digit = |byte: u8| match byte {
        b'0'..=b'9' => byte - b'0',
        b'a'..=b'f' => byte - b'a' + 10,
        _ => panic!("test fixture contains non-hex input"),
    };
    encoded
        .as_bytes()
        .chunks(2)
        .map(|pair| (digit(pair[0]) << 4) | digit(pair[1]))
        .collect()
}

const GOLDEN: &str = "030000000000000008111111111111111111111111111111111111111111111111111111111111111167bcc73b77c67e87b06fe9b72e888d6ee6ed531065032bd8a36567af7648db8800000116010000000e6e6f6b765f776f726b73706163650101010101010101010101010101010102020202020202020202020202020202080808080808080808080808080808080000000000000003000000000000000405050505050505050505050505050505a5a3252ff9a303877dbcc8ca4a4bff31d0e14b1e19982ed20a06419d80b9a08700000000000000060200000001011100000013010101010101010101010101010101016b657901000000066265666f726500000001011100000013010101010101010101010101010101016b6579000000056166746572000000011100000013010101010101010101010101010101016b657900000001000000056576656e7400000006726573756c740100000000000000630000001301000000000000000700000006726573756c74";

const LEGACY: &str = "0200000000000000081111111111111111111111111111111111111111111111111111111111111111f5e3ab61f72ceba583774bcd1e8d98c4f38621f8c5682c7586ac004c35d25d4200000106010000000e6e6f6b765f776f726b737061636501010101010101010101010101010101020202020202020202020202020202020000000000000003000000000000000405050505050505050505050505050505caf0269cc277bd5e16dbed022e7a3fdb4d49948b467ed050725cd6fdbcfc72df00000000000000060200000001011100000013010101010101010101010101010101016b657901000000066265666f726500000001011100000013010101010101010101010101010101016b6579000000056166746572000000011100000013010101010101010101010101010101016b657900000001000000056576656e7400000006726573756c740100000000000000630000001301000000000000000700000006726573756c74";

const COMMAND_DIGEST: &str = "a5a3252ff9a303877dbcc8ca4a4bff31d0e14b1e19982ed20a06419d80b9a087";

fn command_digest() -> [u8; 32] {
    let mut digest = [0; 32];
    digest.copy_from_slice(&hex_decode(COMMAND_DIGEST));
    digest
}

fn command() -> MetadataCommand {
    let root = RootId::from_bytes([1; 16]);
    MetadataCommand {
        schema_id: SCHEMA_ID.to_owned(),
        root_id: root,
        logical_shard_id: LogicalShardId::from_bytes([2; 16]),
        object_namespace_id: Some(ObjectNamespaceId::from_bytes([8; 16])),
        placement_generation: PlacementGeneration::new(3).unwrap(),
        owner_epoch: OwnerEpoch::new(4).unwrap(),
        request_id: RequestId::from_bytes([5; 16]),
        command_digest: CommandDigest::from_bytes(command_digest()),
        read_version: ReadVersion::new(6).unwrap(),
        root_fence_action: RootFenceAction::RequireActive,
        predicates: vec![CommandPredicate::Value {
            family: MetadataFamily::Operation,
            key: [root.as_bytes().as_slice(), b"key"].concat(),
            expected: Some(b"before".to_vec()),
        }],
        mutations: vec![CommandMutation::Put {
            family: MetadataFamily::Operation,
            key: [root.as_bytes().as_slice(), b"key"].concat(),
            value: b"after".to_vec(),
        }],
        history_projection: vec![HistoryProjection {
            family: MetadataFamily::Operation,
            key: [root.as_bytes().as_slice(), b"key"].concat(),
        }],
        event_projection: vec![EventProjection {
            payload: b"event".to_vec(),
        }],
        deterministic_result: b"result".to_vec(),
    }
}

fn command_mutation(lease_deadline_ms: Option<u64>) -> RecoveryMutationV1 {
    RecoveryMutationV1::MetadataCommand {
        command: command(),
        canonical_digest: command_digest(),
        lease_deadline_ms,
    }
}

#[test]
fn recovery_record_has_frozen_golden_and_strict_codec() {
    let mutation = command_mutation(Some(99));
    let result = RecoveryResultV1::MetadataCommand {
        commit_version: CommitVersion::new(7).unwrap(),
        deterministic_result: b"result".to_vec(),
    };
    let record = RecoveryOutboxRecord::new(8, [0x11; 32], mutation, result).unwrap();
    let encoded = record.encode().unwrap();
    assert_eq!(hex_encode(&encoded), GOLDEN);
    assert_eq!(
        RecoveryOutboxRecord::decode(&encoded, &command_digest()).unwrap(),
        record
    );

    let mut unknown = encoded.clone();
    unknown[0] = 1;
    assert!(matches!(
        RecoveryOutboxRecord::decode(&unknown, &command_digest()),
        Err(RecoveryCodecError::UnsupportedVersion { .. })
    ));
    let mut corrupted = encoded;
    corrupted[1 + 8 + 32] ^= 1;
    assert_eq!(
        RecoveryOutboxRecord::decode(&corrupted, &command_digest()),
        Err(RecoveryCodecError::ChainDigestMismatch)
    );
}

#[test]
fn recovery_record_decodes_and_preserves_v2_without_namespace_bytes() {
    let legacy = hex_decode(LEGACY);
    let held = RecoveryOutboxRecord::held_command(&legacy).unwrap();
    let digest = held.command_digest.bytes;
    let decoded = RecoveryOutboxRecord::decode(&legacy, &digest).unwrap();
    let RecoveryMutationV1::MetadataCommand { command, .. } = &decoded.mutation else {
        panic!("legacy fixture must contain a metadata command");
    };
    assert_eq!(command.object_namespace_id, None);
    assert_eq!(decoded.encode().unwrap(), legacy);
}

#[test]
fn canonical_mutation_round_trips_complete_replay_material() {
    let mutation = command_mutation(Some(123));
    let encoded = mutation.encode_canonical().unwrap();
    assert_eq!(
        RecoveryMutationV1::decode_canonical(&encoded, &command_digest()).unwrap(),
        mutation
    );
    for length in 0..encoded.len() {
        assert!(RecoveryMutationV1::decode_canonical(&encoded[..length], &command_digest()).is_err());
    }
}

#[test]
fn canonical_mutation_decoder_enforces_encoder_invariants_directly() {
    let mut zero_deadline = command_mutation(Some(123)).encode_canonical().unwrap();
    let deadline_start = zero_deadline.len() - std::mem::size_of::<u64>();
    zero_deadline[deadline_start..].fill(0);
    assert!(matches!(
        RecoveryMutationV1::decode_canonical(&zero_deadline, &command_digest()),
        Err(RecoveryCodecError::InvalidValue {
            field: "metadata_command"
        })
    ));

    let mut zero_clock = RecoveryMutationV1::ObserveLeaseClock {
        root_id: RootId::from_bytes([1; 16]),
        placement_generation: PlacementGeneration::new(2).unwrap(),
        owner_epoch: OwnerEpoch::new(3).unwrap(),
        observed_ms: 4,
    }
    .encode_canonical()
    .unwrap();
    let observed_start = zero_clock.len() - std::mem::size_of::<u64>();
    zero_clock[observed_start..].fill(0);
    assert!(matches!(
        RecoveryMutationV1::decode_canonical(&zero_clock, &[]),
        Err(RecoveryCodecError::ZeroScalar {
            field: "observed_ms"
        })
    ));

    let mut nonmonotonic_owner = Vec::new();
    nonmonotonic_owner.push(3);
    encode_optional_u64(&mut nonmonotonic_owner, Some(5));
    nonmonotonic_owner.extend_from_slice(&OwnerEpoch::new(4).unwrap().get().to_be_bytes());
    assert!(matches!(
        RecoveryMutationV1::decode_canonical(&nonmonotonic_owner, &[]),
        Err(RecoveryCodecError::InvalidValue {
            field: "owner_epoch_transition"
        })
    ));
}

#[test]
fn recovery_storage_keys_use_fixed_width_decimal_lsns() {
    assert_eq!(
        recovery_outbox_key(42).as_slice(),
        b"\x0200000000000000000042"
    );
    assert_eq!(
        recovery_chunk_key(42, 7).as_slice(),
        b"\x0300000000000000000042\x00\x00\x00\x07"
    );
    assert_eq!(
        decode_recovery_outbox_key(b"\x0218446744073709551615").unwrap(),
        DecodedRecoveryOutboxKey {
            recovery_lsn: u64::MAX,
            layout: RecoveryKeyLayout::Format9,
        }
    );

    let ordered = [0, 1, 9, 10, 99, 100, u64::MAX - 1, u64::MAX];
    for pair in ordered.windows(2) {
        assert!(recovery_outbox_key(pair[0]) < recovery_outbox_key(pair[1]));
    }
}

#[test]
fn recovery_outbox_key_decoder_accepts_format8_binary_lsns() {
    assert_eq!(
        decode_recovery_outbox_key(&legacy_recovery_outbox_key(42)).unwrap(),
        DecodedRecoveryOutboxKey {
            recovery_lsn: 42,
            layout: RecoveryKeyLayout::Format8,
        }
    );
}

#[test]
fn recovery_outbox_key_decoder_rejects_malformed_decimal_lsns() {
    assert!(decode_recovery_outbox_key(b"\x0200000000000000000000").is_err());
    assert!(decode_recovery_outbox_key(b"\x020000000000000000001").is_err());

    let mut non_digit = recovery_outbox_key(1);
    non_digit[10] = b'x';
    assert!(decode_recovery_outbox_key(&non_digit).is_err());

    let mut overflow = [b'9'; RECOVERY_OUTBOX_KEY_BYTES];
    overflow[0] = STORAGE_HEADER_KEY_TAG;
    assert!(decode_recovery_outbox_key(&overflow).is_err());

    let mut wrong_tag = recovery_outbox_key(1);
    wrong_tag[0] = 0xff;
    assert!(decode_recovery_outbox_key(&wrong_tag).is_err());
}

#[test]
fn recovery_storage_fragments_large_rows_and_rejects_missing_chunks() {
    let logical = vec![0x5a; MAX_STORAGE_CHUNK_DATA_BYTES * 2 + 7];
    let (header, chunks) = split_recovery_storage(&logical).unwrap();
    assert_eq!(chunks.len(), 3);
    assert!(chunks.iter().all(|chunk| chunk.len() < u16::MAX as usize));
    assert_eq!(
        assemble_recovery_storage(&header, chunks.clone()).unwrap(),
        logical
    );
    assert!(assemble_recovery_storage(&header, chunks.into_iter().take(2).collect()).is_err());

    let mut unknown_header = header.clone();
    unknown_header[0] = STORAGE_HEADER_VERSION + 1;
    assert!(matches!(
        assemble_recovery_storage(&unknown_header, Vec::new()),
        Err(RecoveryCodecError::UnsupportedVersion { .. })
    ));

    let (_, mut chunks) = split_recovery_storage(&logical).unwrap();
    chunks[0][0] = STORAGE_CHUNK_VERSION + 1;
    assert!(matches!(
        assemble_recovery_storage(&header, chunks),
        Err(RecoveryCodecError::UnsupportedVersion { .. })
    ));
}

fn owner_record(
    recovery_lsn: u64,
    previous_chain_digest: [u8; RECOVERY_CHAIN_DIGEST_BYTES],
    expected: Option<u64>,
    next: u64,
) -> RecoveryOutboxRecord {
    let expected = expected.map(|value| OwnerEpoch::new(value).unwrap());
    let next = OwnerEpoch::new(next).unwrap();
    RecoveryOutboxRecord::new(
        recovery_lsn,
        previous_chain_digest,
        RecoveryMutationV1::AdvanceOwnerEpoch { expected, next },
        RecoveryResultV1::OwnerEpoch {
            applied_owner_epoch: next,
        },
    )
    .unwrap()
}

#[test]
fn recovery_segment_codec_round_trips_one_canonical_chain() {
    let logical_shard_id = LogicalShardId::from_bytes([9; 16]);
    let first = owner_record(1, recovery_genesis_digest(logical_shard_id), None, 1);
    let second = owner_record(2, first.chain_digest, Some(1), 2);
    let segment =
        RecoveryOutboxSegment::seal(logical_shard_id, vec![first.clone(), second.clone()]).unwrap();

    assert_eq!(segment.first_lsn, 1);
    assert_eq!(segment.last_lsn, 2);
    assert_eq!(segment.previous_chain_digest, first.previous_chain_digest);
    assert_eq!(segment.last_chain_digest, second.chain_digest);
    assert_eq!(segment.records, vec![first, second]);
    assert_eq!(
        segment
            .verify_follows(RecoveryState {
                applied_recovery_lsn: 0,
                chain_digest: recovery_genesis_digest(logical_shard_id),
            })
            .unwrap(),
        RecoveryState {
            applied_recovery_lsn: 2,
            chain_digest: segment.last_chain_digest,
        }
    );

    let encoded = segment.encode().unwrap();
    assert_eq!(
        RecoveryOutboxSegment::decode(&encoded, &Vec::new()).unwrap(),
        segment
    );
}

#[test]
fn recovery_segment_rejects_duplicate_gap_tamper_and_oversize() {
    let logical_shard_id = LogicalShardId::from_bytes([9; 16]);
    let first = owner_record(1, recovery_genesis_digest(logical_shard_id), None, 1);
    let duplicate = owner_record(1, first.chain_digest, Some(1), 2);
    assert!(matches!(
        RecoveryOutboxSegment::seal(logical_shard_id, vec![first.clone(), duplicate]),
        Err(RecoveryCodecError::DuplicateRecoveryLsn { lsn: 1 })
    ));

    let gap = owner_record(3, first.chain_digest, Some(1), 2);
    assert!(matches!(
        RecoveryOutboxSegment::seal(logical_shard_id, vec![first.clone(), gap]),
        Err(RecoveryCodecError::RecoveryLsnGap {
            expected: 2,
            actual: 3
        })
    ));

    let segment = RecoveryOutboxSegment::seal(logical_shard_id, vec![first]).unwrap();
    assert_eq!(
        segment.verify_follows(RecoveryState {
            applied_recovery_lsn: 0,
            chain_digest: [0xff; RECOVERY_CHAIN_DIGEST_BYTES],
        }),
        Err(RecoveryCodecError::ChainDigestMismatch)
    );
    let mut tampered = segment.encode().unwrap();
    let last = tampered.len() - 1;
    tampered[last] ^= 0x40;
    assert!(RecoveryOutboxSegment::decode(&tampered, &Vec::new()).is_err());

    let oversized = vec![0; MAX_RECOVERY_SEGMENT_BYTES + 1];
    assert!(matches!(
        RecoveryOutboxSegment::decode(&oversized, &Vec::new()),
        Err(RecoveryCodecError::LengthBound {
            field: "recovery_segment",
            ..
        })
    ));
}

#[test]
fn digests_decide_which_commands_are_accepted() {
    let encoded = hex_decode(GOLDEN);
    assert_eq!(
        RecoveryOutboxRecord::decode(&encoded, &[0; 32]),
        Err(RecoveryCodecError::InvalidValue {
            field: "command_digest"
        })
    );
    assert_eq!(
        RecoveryOutboxRecord::decode(&encoded, &[]),
        Err(RecoveryCodecError::InvalidValue {
            field: "command_digest"
        })
    );
    assert_eq!(RecoveryOutboxRecord::held_command(&encoded), Some(command()));
    let mutation = command_mutation(None).encode_canonical().unwrap();
    assert_eq!(
        RecoveryMutationV1::held_command(&mutation, RECOVERY_OUTBOX_VALUE_FORMAT_VERSION),
        Some(command())
    );
    let unsealed = RecoveryMutationV1::MetadataCommand {
        command: command(),
        canonical_digest: [0; 32],
        lease_deadline_ms: None,
    };
    assert_eq!(
        unsealed.encode_canonical(),
        Err(RecoveryCodecError::InvalidValue {
            field: "metadata_command"
        })
    );
}

#[test]
fn formats_and_object_namespaces_go_together() {
    let mutation = command_mutation(None);
    assert_eq!(
        mutation.encode_canonical_for_version(LEGACY_RECOVERY_OUTBOX_VALUE_FORMAT_VERSION),
        Err(RecoveryCodecError::InvalidValue {
            field: "object_namespace_id"
        })
    );
    let encoded = mutation.encode_canonical().unwrap();
    assert_eq!(
        RecoveryMutationV1::decode_canonical_for_version(&encoded, 4, &command_digest()),
        Err(RecoveryCodecError::UnsupportedVersion {
            actual: 4,
            expected: 3
        })
    );
}

#[test]
fn mutations_reject_what_they_cannot_hold() {
    let mut long = command();
    long.event_projection = vec![EventProjection { payload: Vec::new() }; 257];
    let mutation = RecoveryMutationV1::MetadataCommand {
        command: long,
        canonical_digest: command_digest(),
        lease_deadline_ms: None,
    };
    assert_eq!(
        mutation.encode_canonical(),
        Err(RecoveryCodecError::LengthBound {
            field: "event_projection",
            length: 257,
            max: 256
        })
    );
    assert_eq!(
        RecoveryMutationV1::decode_canonical(&[9], &[]),
        Err(RecoveryCodecError::UnknownDiscriminant {
            type_label: "RecoveryMutationV1",
            value: 9
        })
    );
    assert_eq!(
        RecoveryMutationV1::decode_canonical(&[], &[]),
        Err(RecoveryCodecError::Truncated {
            field: "mutation_kind",
            needed: 1,
            remaining: 0
        })
    );
    assert_eq!(
        RecoveryResultV1::decode_canonical(&[2, 0, 0, 0, 0, 0, 0, 0, 5, 1]),
        Err(RecoveryCodecError::TrailingBytes { count: 1 })
    );
    assert_eq!(
        RecoveryResultV1::decode_canonical(&[2, 0, 0, 0, 0, 0, 0, 0, 5]),
        Ok(RecoveryResultV1::LeaseClock {
            effective_high_water_ms: 5
        })
    );
    assert_eq!(
        RecoveryResultV1::decode_canonical(&[3, 0, 0, 0, 0, 0, 0, 0, 0]),
        Err(RecoveryCodecError::ZeroScalar {
            field: "applied_owner_epoch"
        })
    );
}

#[test]
fn fence_actions_survive_the_mutation_codec() {
    for action in [
        RootFenceAction::Install,
        RootFenceAction::RequireActive,
        RootFenceAction::Transition {
            expected: RootActivationState::Installing,
            next: RootActivationState::Active,
        },
        RootFenceAction::BindObjectNamespace {
            expected: RootActivationState::Active,
        },
    ] {
        let mut command = command();
        command.root_fence_action = action;
        command.predicates.push(CommandPredicate::PrefixEmpty {
            family: MetadataFamily::Operation,
            prefix: b"prefix".to_vec(),
        });
        command.mutations.push(CommandMutation::Delete {
            family: MetadataFamily::Operation,
            key: b"gone".to_vec(),
        });
        let mutation = RecoveryMutationV1::MetadataCommand {
            command,
            canonical_digest: command_digest(),
            lease_deadline_ms: None,
        };
        let encoded = mutation.encode_canonical().unwrap();
        assert_eq!(
            RecoveryMutationV1::decode_canonical(&encoded, &command_digest()),
            Ok(mutation)
        );
    }
}

#[test]
fn rows_pair_a_mutation_with_its_own_result() {
    let next = OwnerEpoch::new(2).unwrap();
    let mismatch = RecoveryOutboxRecord::new(
        1,
        [0; 32],
        RecoveryMutationV1::AdvanceOwnerEpoch { expected: None, next },
        RecoveryResultV1::LeaseClock {
            effective_high_water_ms: 2,
        },
    );
    assert_eq!(
        mismatch,
        Err(RecoveryCodecError::InvalidValue {
            field: "mutation_result_pair"
        })
    );
    let zero = RecoveryOutboxRecord::new(
        0,
        [0; 32],
        RecoveryMutationV1::AdvanceOwnerEpoch { expected: None, next },
        RecoveryResultV1::OwnerEpoch {
            applied_owner_epoch: next,
        },
    );
    assert_eq!(
        zero,
        Err(RecoveryCodecError::ZeroScalar {
            field: "recovery_lsn"
        })
    );
    let clock = RecoveryOutboxRecord::new(
        1,
        [0; 32],
        RecoveryMutationV1::ObserveLeaseClock {
            root_id: RootId::from_bytes([1; 16]),
            placement_generation: PlacementGeneration::new(2).unwrap(),
            owner_epoch: OwnerEpoch::new(3).unwrap(),
            observed_ms: 4,
        },
        RecoveryResultV1::LeaseClock {
            effective_high_water_ms: 4,
        },
    )
    .unwrap();
    assert_eq!(clock.verify(), Ok(()));
    let encoded = clock.encode().unwrap();
    assert_eq!(RecoveryOutboxRecord::decode(&encoded, &[]), Ok(clock));
}

#[test]
fn segments_reject_regressions_foreign_shards_and_wrong_headers() {
    let logical_shard_id = LogicalShardId::from_bytes([9; 16]);
    assert_eq!(
        RecoveryOutboxSegment::seal(logical_shard_id, Vec::new()),
        Err(RecoveryCodecError::EmptySegment)
    );
    let first = owner_record(5, [1; 32], None, 1);
    let back = owner_record(4, first.chain_digest, Some(1), 2);
    assert_eq!(
        RecoveryOutboxSegment::seal(logical_shard_id, vec![first.clone(), back]),
        Err(RecoveryCodecError::RecoveryLsnRegression {
            previous: 5,
            actual: 4
        })
    );
    let unlinked = owner_record(6, [2; 32], Some(1), 2);
    assert_eq!(
        RecoveryOutboxSegment::seal(logical_shard_id, vec![first.clone(), unlinked]),
        Err(RecoveryCodecError::ChainDigestMismatch)
    );
    let foreign = RecoveryOutboxRecord::decode(&hex_decode(GOLDEN), &command_digest()).unwrap();
    assert_eq!(
        RecoveryOutboxSegment::seal(logical_shard_id, vec![foreign.clone()]),
        Err(RecoveryCodecError::UnexpectedLogicalShard {
            expected: logical_shard_id,
            actual: LogicalShardId::from_bytes([2; 16]),
        })
    );
    let own = RecoveryOutboxSegment::seal(LogicalShardId::from_bytes([2; 16]), vec![foreign]).unwrap();
    let encoded = own.encode().unwrap();
    assert_eq!(
        RecoveryOutboxSegment::decode(&encoded, &vec![command_digest().to_vec()]),
        Ok(own)
    );
    let rows = RecoveryOutboxSegment::rows(&encoded);
    assert_eq!(rows, vec![hex_decode(GOLDEN)]);

    let segment = RecoveryOutboxSegment::seal(logical_shard_id, vec![first]).unwrap();
    let mut wrong = segment.clone();
    wrong.last_lsn = 9;
    assert_eq!(wrong.verify(), Err(RecoveryCodecError::SegmentHeaderMismatch));
    let mut wrong = segment.clone();
    wrong.segment_digest = [0; 32];
    assert_eq!(wrong.encode(), Err(RecoveryCodecError::SegmentDigestMismatch));
    let mut wrong = segment.clone();
    wrong.format_version = 2;
    assert_eq!(
        wrong.verify(),
        Err(RecoveryCodecError::UnsupportedVersion {
            actual: 2,
            expected: 1
        })
    );
    let tail = |applied_recovery_lsn| RecoveryState {
        applied_recovery_lsn,
        chain_digest: [1; 32],
    };
    assert_eq!(
        segment.verify_follows(tail(5)),
        Err(RecoveryCodecError::DuplicateRecoveryLsn { lsn: 5 })
    );
    assert_eq!(
        segment.verify_follows(tail(7)),
        Err(RecoveryCodecError::RecoveryLsnRegression {
            previous: 7,
            actual: 5
        })
    );
    assert_eq!(
        segment.verify_follows(tail(2)),
        Err(RecoveryCodecError::RecoveryLsnGap {
            expected: 3,
            actual: 5
        })
    );
    assert_eq!(
        segment.verify_follows(tail(u64::MAX)),
        Err(RecoveryCodecError::InvalidValue {
            field: "recovery_segment_boundary_lsn"
        })
    );
    let state = segment.verify_follows(tail(4)).unwrap();
    assert_eq!(
        segment.verify_follows(state),
        Err(RecoveryCodecError::DuplicateRecoveryLsn { lsn: 5 })
    );
}

#[test]
fn storage_layouts_and_budgets_have_exact_values() {
    assert_eq!(
        recovery_chunk_key_for_layout(RecoveryKeyLayout::Format8, 42, 7),
        b"\x01\x00\x00\x00\x00\x00\x00\x00\x2a\x00\x00\x00\x07"
    );
    assert_eq!(
        recovery_chunk_key_for_layout(RecoveryKeyLayout::Format9, 42, 7),
        recovery_chunk_key(42, 7)
    );
    assert_eq!(
        recovery_outbox_scan_start(RecoveryKeyLayout::Format8, 42),
        legacy_recovery_outbox_key(42)
    );
    for layout in [RecoveryKeyLayout::Format8, RecoveryKeyLayout::Format9] {
        assert_eq!(
            RecoveryKeyLayout::from_header_tag(layout.header_tag()),
            Some(layout)
        );
    }
    assert_eq!(RecoveryKeyLayout::from_chunk_tag(3), Some(RecoveryKeyLayout::Format9));
    assert_eq!(RecoveryKeyLayout::from_chunk_tag(2), None);
    let logical = vec![7; MAX_STORAGE_CHUNK_DATA_BYTES + 1];
    let (header, chunks) = split_recovery_storage(&logical).unwrap();
    assert_eq!(recovery_storage_chunk_count(&header), Ok(2));
    assert_eq!(
        recovery_storage_logical_length(&header),
        Ok(MAX_STORAGE_CHUNK_DATA_BYTES + 1)
    );
    let swapped = vec![chunks[1].clone(), chunks[0].clone()];
    assert_eq!(
        assemble_recovery_storage(&header, swapped),
        Err(RecoveryCodecError::InvalidValue {
            field: "recovery_storage_chunk"
        })
    );
    let mut changed = chunks.clone();
    let at = changed[1].len() - 1;
    changed[1][at] ^= 1;
    assert_eq!(
        assemble_recovery_storage(&header, changed),
        Err(RecoveryCodecError::InvalidValue {
            field: "recovery_storage_digest"
        })
    );
    assert_eq!(
        recovery_segment_record_budget(2),
        MAX_RECOVERY_SEGMENT_BYTES - 141 - 8
    );
    assert_eq!(
        recovery_segment_record_budget(usize::MAX),
        recovery_segment_record_budget(MAX_RECOVERY_SEGMENT_RECORDS)
    );
}

#[test]
fn every_proper_prefix_of_a_mutation_is_truncated() {
    let mutations = [
        command_mutation(Some(99)),
        command_mutation(None),
        RecoveryMutationV1::ObserveLeaseClock {
            root_id: RootId::from_bytes([1; 16]),
            placement_generation: PlacementGeneration::new(3).unwrap(),
            owner_epoch: OwnerEpoch::new(4).unwrap(),
            observed_ms: 55,
        },
        RecoveryMutationV1::AdvanceOwnerEpoch {
            expected: Some(OwnerEpoch::new(4).unwrap()),
            next: OwnerEpoch::new(5).unwrap(),
        },
    ];
    for mutation in mutations {
        let encoded = mutation.encode_canonical().unwrap();
        assert_eq!(
            RecoveryMutationV1::decode_canonical(&encoded, &command_digest()),
            Ok(mutation)
        );
        for end in 0..encoded.len() {
            for digest in [command_digest(), [7; 32]] {
                assert!(matches!(
                    RecoveryMutationV1::decode_canonical(&encoded[..end], &digest),
                    Err(RecoveryCodecError::Truncated { .. })
                ));
            }
        }
        let mut trailing = encoded;
        trailing.extend([0, 0, 0]);
        assert_eq!(
            RecoveryMutationV1::decode_canonical(&trailing, &command_digest()),
            Err(RecoveryCodecError::TrailingBytes { count: 3 })
        );
    }
}

#[test]
fn planned_commands_are_framed_by_their_context() {
    let rows = command();
    let planned = PlannedCommand {
        context: PublicationContext {
            root_id: RootId::from_bytes([1; 16]),
            logical_shard_id: LogicalShardId::from_bytes([2; 16]),
            object_namespace_id: ObjectNamespaceId::from_bytes([8; 16]),
            placement_generation: PlacementGeneration::new(3).unwrap(),
            owner_epoch: OwnerEpoch::new(4).unwrap(),
            request_id: RequestId::from_bytes([5; 16]),
            read_version: ReadVersion::new(6).unwrap(),
        },
        plan: CommandPlan::new(),
        deterministic_result: b"result".to_vec(),
        lease_deadline_ms: Some(99),
    };
    let framed = command_frame(
        &planned,
        rows.predicates.clone(),
        rows.mutations.clone(),
        rows.history_projection.clone(),
        rows.event_projection.clone(),
    );
    let mut expected = rows;
    expected.command_digest = CommandDigest::from_bytes([0; 32]);
    assert_eq!(framed, expected);
}
