use nokv_meta::ids::{
    ArtifactRevisionId, CommitVersion, GcClaimState, Generation, OperationId,
    PathIndexGenerationId, ReferenceEpoch, RevisionState, WorkspaceIncarnationId,
    WorkspaceRevision, WorkspaceState, FIXED_ID_BYTES,
};
use nokv_meta::publication_records::{
    ArtifactRevisionClaimRecord, ArtifactRevisionRecord, GcCandidateRecord, PathEntry,
    PublicationRecordCodecError, RevisionRefRecord, WorkspaceIncarnationClaimRecord,
    WorkspaceRecord, MAX_CONTENT_TYPE_BYTES, MAX_DEPENDENCY_COUNT, MAX_DEPENDENCY_DEPTH,
    MAX_DIGEST_URI_BYTES, MAX_INDEX_PROJECTION_BYTES, MAX_MANIFEST_ID_BYTES, MAX_PRODUCER_BYTES,
    MAX_QUARANTINE_EVIDENCE_BYTES, PUBLICATION_VALUE_FORMAT_VERSION,
};
use nokv_meta::text::WorkbenchId;

const SHA256_BYTES: usize = 32;


fn generation(value: u64) -> Generation {
    Generation::new(value).unwrap()
}

fn commit_version(value: u64) -> CommitVersion {
    CommitVersion::new(value).unwrap()
}

fn workspace_record() -> WorkspaceRecord {
    WorkspaceRecord {
        incarnation_id: WorkspaceIncarnationId::from_bytes([0x11; FIXED_ID_BYTES]),
        workspace_revision: WorkspaceRevision::new(0x0102_0304_0506_0708),
        state: WorkspaceState::Visible,
        owning_operation_id: Some(OperationId::from_bytes([0x22; FIXED_ID_BYTES])),
    }
}

fn path_entry() -> PathEntry {
    PathEntry {
        generation: generation(0x0102_0304_0506_0708),
        index_generation: PathIndexGenerationId::from_bytes([0x22; FIXED_ID_BYTES]),
        path_digest: [0x24; SHA256_BYTES],
        artifact_revision_id: ArtifactRevisionId::from_bytes([0x33; FIXED_ID_BYTES]),
        body_digest_uri: "sha256:body".to_owned(),
        manifest_digest_uri: "sha256:manifest".to_owned(),
        logical_size: 0x1112_1314_1516_1718,
        dependency_count: 2,
        dependency_depth: 2,
        content_type: "text/plain".to_owned(),
        producer: Some("agent".to_owned()),
        manifest_id: None,
        typed_index_projection: vec![1, 2, 3],
    }
}

fn artifact_revision_record() -> ArtifactRevisionRecord {
    ArtifactRevisionRecord {
        logical_size: 0x0102_0304_0506_0708,
        body_digest_uri: "sha256:body".to_owned(),
        manifest_digest_uri: "sha256:manifest".to_owned(),
        block_count: 0x1112_1314_1516_1718,
        dependency_count: 2,
        dependency_depth: 2,
        dependency_digest: [0x44; SHA256_BYTES],
        content_type: "application/octet-stream".to_owned(),
        state: RevisionState::Available,
        reference_epoch: ReferenceEpoch::new(7),
        strong_reference_count: 3,
        last_zero_ref_version: Some(commit_version(9)),
    }
}

fn gc_candidate_record() -> GcCandidateRecord {
    GcCandidateRecord {
        last_zero_ref_version: commit_version(0x0102_0304_0506_0708),
        claim_state: GcClaimState::Quarantined,
        retry_count: 0x1112_1314,
        quarantine_evidence: Some(vec![0xaa, 0xbb]),
    }
}

fn assert_every_proper_prefix_is_truncated<T>(
    encoded: &[u8],
    decode: impl Fn(&[u8]) -> Result<T, PublicationRecordCodecError>,
) {
    for length in 0..encoded.len() {
        assert!(
            matches!(
                decode(&encoded[..length]),
                Err(PublicationRecordCodecError::Truncated { .. })
            ),
            "prefix length {length} was not rejected as truncated"
        );
    }
}

fn assert_trailing_byte_is_rejected<T: std::fmt::Debug>(
    mut encoded: Vec<u8>,
    decode: impl Fn(&[u8]) -> Result<T, PublicationRecordCodecError>,
) {
    encoded.push(0);
    assert_eq!(
        decode(&encoded).unwrap_err(),
        PublicationRecordCodecError::TrailingBytes { count: 1 }
    );
}

#[test]
fn workspace_record_codec_has_frozen_golden_bytes() {
    let record = workspace_record();
    let expected = [
        &[PUBLICATION_VALUE_FORMAT_VERSION][..],
        &[0x11; FIXED_ID_BYTES],
        &0x0102_0304_0506_0708_u64.to_be_bytes(),
        &[2, 1],
        &[0x22; FIXED_ID_BYTES],
    ]
    .concat();

    assert_eq!(record.encode().unwrap(), expected);
    assert_eq!(WorkspaceRecord::decode(&expected).unwrap(), record);
    assert_every_proper_prefix_is_truncated(&expected, WorkspaceRecord::decode);
    assert_trailing_byte_is_rejected(expected, WorkspaceRecord::decode);
}

#[test]
fn workspace_incarnation_claim_has_frozen_golden_bytes() {
    let record = WorkspaceIncarnationClaimRecord {
        workbench_id: WorkbenchId::new("run-42").unwrap(),
    };
    let expected = [
        &[PUBLICATION_VALUE_FORMAT_VERSION][..],
        &6_u32.to_be_bytes(),
        b"run-42",
    ]
    .concat();

    assert_eq!(record.encode().unwrap(), expected);
    assert_eq!(
        WorkspaceIncarnationClaimRecord::decode(&expected).unwrap(),
        record
    );
    assert_every_proper_prefix_is_truncated(&expected, WorkspaceIncarnationClaimRecord::decode);
    assert_trailing_byte_is_rejected(expected, WorkspaceIncarnationClaimRecord::decode);

    let invalid = [
        &[PUBLICATION_VALUE_FORMAT_VERSION][..],
        &4_u32.to_be_bytes(),
        b"bad!",
    ]
    .concat();
    assert!(matches!(
        WorkspaceIncarnationClaimRecord::decode(&invalid),
        Err(PublicationRecordCodecError::InvalidWorkbenchId { .. })
    ));
}

#[test]
fn artifact_revision_claim_has_frozen_golden_bytes() {
    let record = ArtifactRevisionClaimRecord {
        operation_id: OperationId::from_bytes([0x44; FIXED_ID_BYTES]),
    };
    let expected = [
        &[PUBLICATION_VALUE_FORMAT_VERSION][..],
        &[0x44; FIXED_ID_BYTES],
    ]
    .concat();

    assert_eq!(record.encode().unwrap(), expected);
    assert_eq!(
        ArtifactRevisionClaimRecord::decode(&expected).unwrap(),
        record
    );
    assert_every_proper_prefix_is_truncated(&expected, ArtifactRevisionClaimRecord::decode);
    assert_trailing_byte_is_rejected(expected, ArtifactRevisionClaimRecord::decode);
}

#[test]
fn path_entry_codec_has_frozen_golden_bytes() {
    let record = path_entry();
    let expected = [
        &[PUBLICATION_VALUE_FORMAT_VERSION][..],
        &0x0102_0304_0506_0708_u64.to_be_bytes(),
        &[0x22; FIXED_ID_BYTES],
        &[0x24; SHA256_BYTES],
        &[0x33; FIXED_ID_BYTES],
        &11_u32.to_be_bytes(),
        b"sha256:body",
        &15_u32.to_be_bytes(),
        b"sha256:manifest",
        &0x1112_1314_1516_1718_u64.to_be_bytes(),
        &2_u32.to_be_bytes(),
        &[2],
        &10_u32.to_be_bytes(),
        b"text/plain",
        &[1],
        &5_u32.to_be_bytes(),
        b"agent",
        &[0],
        &3_u32.to_be_bytes(),
        &[1, 2, 3],
    ]
    .concat();

    assert_eq!(record.encode().unwrap(), expected);
    assert_eq!(PathEntry::decode(&expected).unwrap(), record);
    assert_every_proper_prefix_is_truncated(&expected, PathEntry::decode);
    assert_trailing_byte_is_rejected(expected, PathEntry::decode);
}

#[test]
fn artifact_revision_codec_has_frozen_golden_bytes() {
    let record = artifact_revision_record();
    let expected = [
        &[PUBLICATION_VALUE_FORMAT_VERSION][..],
        &0x0102_0304_0506_0708_u64.to_be_bytes(),
        &11_u32.to_be_bytes(),
        b"sha256:body",
        &15_u32.to_be_bytes(),
        b"sha256:manifest",
        &0x1112_1314_1516_1718_u64.to_be_bytes(),
        &2_u32.to_be_bytes(),
        &[2],
        &[0x44; SHA256_BYTES],
        &24_u32.to_be_bytes(),
        b"application/octet-stream",
        &[1],
        &7_u64.to_be_bytes(),
        &3_u64.to_be_bytes(),
        &[1],
        &9_u64.to_be_bytes(),
    ]
    .concat();

    assert_eq!(record.encode().unwrap(), expected);
    assert_eq!(ArtifactRevisionRecord::decode(&expected).unwrap(), record);
    assert_every_proper_prefix_is_truncated(&expected, ArtifactRevisionRecord::decode);
    assert_trailing_byte_is_rejected(expected, ArtifactRevisionRecord::decode);
}

#[test]
fn revision_ref_codec_has_frozen_golden_bytes() {
    let record = RevisionRefRecord {
        reference_epoch_at_add: ReferenceEpoch::new(0x0102_0304_0506_0708),
    };
    let expected = [
        &[PUBLICATION_VALUE_FORMAT_VERSION][..],
        &0x0102_0304_0506_0708_u64.to_be_bytes(),
    ]
    .concat();

    assert_eq!(record.encode().unwrap(), expected);
    assert_eq!(RevisionRefRecord::decode(&expected).unwrap(), record);
    assert_every_proper_prefix_is_truncated(&expected, RevisionRefRecord::decode);
    assert_trailing_byte_is_rejected(expected, RevisionRefRecord::decode);
}

#[test]
fn gc_candidate_codec_has_frozen_golden_bytes() {
    let record = gc_candidate_record();
    let expected = [
        &[PUBLICATION_VALUE_FORMAT_VERSION][..],
        &0x0102_0304_0506_0708_u64.to_be_bytes(),
        &[4],
        &0x1112_1314_u32.to_be_bytes(),
        &[1],
        &2_u32.to_be_bytes(),
        &[0xaa, 0xbb],
    ]
    .concat();

    assert_eq!(record.encode().unwrap(), expected);
    assert_eq!(GcCandidateRecord::decode(&expected).unwrap(), record);
    assert_every_proper_prefix_is_truncated(&expected, GcCandidateRecord::decode);
    assert_trailing_byte_is_rejected(expected, GcCandidateRecord::decode);
}

#[test]
fn every_codec_rejects_unknown_value_version() {
    let revision_ref = RevisionRefRecord {
        reference_epoch_at_add: ReferenceEpoch::new(1),
    };
    let claim = WorkspaceIncarnationClaimRecord {
        workbench_id: WorkbenchId::new("claim").unwrap(),
    };
    let mut encoded = [
        workspace_record().encode().unwrap(),
        claim.encode().unwrap(),
        path_entry().encode().unwrap(),
        artifact_revision_record().encode().unwrap(),
        revision_ref.encode().unwrap(),
        gc_candidate_record().encode().unwrap(),
    ];
    for value in &mut encoded {
        value[0] = PUBLICATION_VALUE_FORMAT_VERSION + 1;
    }

    assert!(matches!(
        WorkspaceRecord::decode(&encoded[0]),
        Err(PublicationRecordCodecError::UnsupportedValueVersion { .. })
    ));
    assert!(matches!(
        WorkspaceIncarnationClaimRecord::decode(&encoded[1]),
        Err(PublicationRecordCodecError::UnsupportedValueVersion { .. })
    ));
    assert!(matches!(
        PathEntry::decode(&encoded[2]),
        Err(PublicationRecordCodecError::UnsupportedValueVersion { .. })
    ));
    assert!(matches!(
        ArtifactRevisionRecord::decode(&encoded[3]),
        Err(PublicationRecordCodecError::UnsupportedValueVersion { .. })
    ));
    assert!(matches!(
        RevisionRefRecord::decode(&encoded[4]),
        Err(PublicationRecordCodecError::UnsupportedValueVersion { .. })
    ));
    assert!(matches!(
        GcCandidateRecord::decode(&encoded[5]),
        Err(PublicationRecordCodecError::UnsupportedValueVersion { .. })
    ));

    let mut previous_path_layout = path_entry().encode().unwrap();
    previous_path_layout[0] = PUBLICATION_VALUE_FORMAT_VERSION - 1;
    assert_eq!(
        PathEntry::decode(&previous_path_layout),
        Err(PublicationRecordCodecError::UnsupportedValueVersion {
            actual: PUBLICATION_VALUE_FORMAT_VERSION - 1,
            expected: PUBLICATION_VALUE_FORMAT_VERSION,
        })
    );
}

#[test]
fn durable_enum_decoding_fails_closed() {
    let mut workspace = workspace_record().encode().unwrap();
    workspace[1 + FIXED_ID_BYTES + 8] = 0xff;
    assert_eq!(
        WorkspaceRecord::decode(&workspace),
        Err(PublicationRecordCodecError::UnknownDiscriminant {
            type_label: "WorkspaceState",
            value: 0xff,
        })
    );

    let mut revision = artifact_revision_record().encode().unwrap();
    let revision_state_offset = revision.len() - (1 + 8 + 8 + 1 + 8);
    revision[revision_state_offset] = 0xff;
    assert_eq!(
        ArtifactRevisionRecord::decode(&revision),
        Err(PublicationRecordCodecError::UnknownDiscriminant {
            type_label: "RevisionState",
            value: 0xff,
        })
    );

    let mut candidate = gc_candidate_record().encode().unwrap();
    candidate[1 + 8] = 0xff;
    assert_eq!(
        GcCandidateRecord::decode(&candidate),
        Err(PublicationRecordCodecError::UnknownDiscriminant {
            type_label: "GcClaimState",
            value: 0xff,
        })
    );
}

#[test]
fn optional_tags_and_nonzero_scalars_fail_closed() {
    let mut workspace = WorkspaceRecord {
        owning_operation_id: None,
        ..workspace_record()
    }
    .encode()
    .unwrap();
    *workspace.last_mut().unwrap() = 2;
    assert_eq!(
        WorkspaceRecord::decode(&workspace),
        Err(PublicationRecordCodecError::InvalidOptionalTag {
            field: "owning_operation_id",
            value: 2,
        })
    );

    let mut path = path_entry().encode().unwrap();
    path[1..9].fill(0);
    assert_eq!(
        PathEntry::decode(&path),
        Err(PublicationRecordCodecError::ZeroScalar {
            field: "generation",
        })
    );

    let mut revision = ArtifactRevisionRecord {
        last_zero_ref_version: None,
        ..artifact_revision_record()
    }
    .encode()
    .unwrap();
    *revision.last_mut().unwrap() = 2;
    assert_eq!(
        ArtifactRevisionRecord::decode(&revision),
        Err(PublicationRecordCodecError::InvalidOptionalTag {
            field: "last_zero_ref_version",
            value: 2,
        })
    );

    let mut candidate = gc_candidate_record().encode().unwrap();
    candidate[1..9].fill(0);
    assert_eq!(
        GcCandidateRecord::decode(&candidate),
        Err(PublicationRecordCodecError::ZeroScalar {
            field: "last_zero_ref_version",
        })
    );
}

#[test]
fn exact_string_and_byte_limits_roundtrip() {
    let path = PathEntry {
        body_digest_uri: "d".repeat(MAX_DIGEST_URI_BYTES),
        content_type: "c".repeat(MAX_CONTENT_TYPE_BYTES),
        producer: Some("p".repeat(MAX_PRODUCER_BYTES)),
        manifest_id: Some("m".repeat(MAX_MANIFEST_ID_BYTES)),
        typed_index_projection: vec![0xaa; MAX_INDEX_PROJECTION_BYTES],
        ..path_entry()
    };
    let path_encoded = path.encode().unwrap();
    assert_eq!(PathEntry::decode(&path_encoded).unwrap(), path);

    let candidate = GcCandidateRecord {
        quarantine_evidence: Some(vec![0xbb; MAX_QUARANTINE_EVIDENCE_BYTES]),
        ..gc_candidate_record()
    };
    let candidate_encoded = candidate.encode().unwrap();
    assert_eq!(
        GcCandidateRecord::decode(&candidate_encoded).unwrap(),
        candidate
    );
}

#[test]
fn oversized_strings_and_bytes_are_rejected() {
    let cases = [
        (
            PathEntry {
                body_digest_uri: "d".repeat(MAX_DIGEST_URI_BYTES + 1),
                ..path_entry()
            }
            .encode(),
            "body_digest_uri",
            MAX_DIGEST_URI_BYTES + 1,
            MAX_DIGEST_URI_BYTES,
        ),
        (
            PathEntry {
                manifest_digest_uri: "d".repeat(MAX_DIGEST_URI_BYTES + 1),
                ..path_entry()
            }
            .encode(),
            "manifest_digest_uri",
            MAX_DIGEST_URI_BYTES + 1,
            MAX_DIGEST_URI_BYTES,
        ),
        (
            PathEntry {
                content_type: "c".repeat(MAX_CONTENT_TYPE_BYTES + 1),
                ..path_entry()
            }
            .encode(),
            "content_type",
            MAX_CONTENT_TYPE_BYTES + 1,
            MAX_CONTENT_TYPE_BYTES,
        ),
        (
            PathEntry {
                producer: Some("p".repeat(MAX_PRODUCER_BYTES + 1)),
                ..path_entry()
            }
            .encode(),
            "producer",
            MAX_PRODUCER_BYTES + 1,
            MAX_PRODUCER_BYTES,
        ),
        (
            PathEntry {
                manifest_id: Some("m".repeat(MAX_MANIFEST_ID_BYTES + 1)),
                ..path_entry()
            }
            .encode(),
            "manifest_id",
            MAX_MANIFEST_ID_BYTES + 1,
            MAX_MANIFEST_ID_BYTES,
        ),
        (
            PathEntry {
                typed_index_projection: vec![0; MAX_INDEX_PROJECTION_BYTES + 1],
                ..path_entry()
            }
            .encode(),
            "typed_index_projection",
            MAX_INDEX_PROJECTION_BYTES + 1,
            MAX_INDEX_PROJECTION_BYTES,
        ),
    ];

    for (actual, field, length, max) in cases {
        assert_eq!(
            actual,
            Err(PublicationRecordCodecError::LengthLimit { field, length, max })
        );
    }

    let candidate = GcCandidateRecord {
        quarantine_evidence: Some(vec![0; MAX_QUARANTINE_EVIDENCE_BYTES + 1]),
        ..gc_candidate_record()
    };
    assert_eq!(
        candidate.encode(),
        Err(PublicationRecordCodecError::LengthLimit {
            field: "quarantine_evidence",
            length: MAX_QUARANTINE_EVIDENCE_BYTES + 1,
            max: MAX_QUARANTINE_EVIDENCE_BYTES,
        })
    );
}

#[test]
fn decode_rejects_oversized_declared_length_before_allocation() {
    let mut encoded = path_entry().encode().unwrap();
    let body_length_offset = 1 + 8 + FIXED_ID_BYTES + SHA256_BYTES + FIXED_ID_BYTES;
    encoded[body_length_offset..body_length_offset + 4]
        .copy_from_slice(&((MAX_DIGEST_URI_BYTES + 1) as u32).to_be_bytes());
    assert_eq!(
        PathEntry::decode(&encoded),
        Err(PublicationRecordCodecError::LengthLimit {
            field: "body_digest_uri",
            length: MAX_DIGEST_URI_BYTES + 1,
            max: MAX_DIGEST_URI_BYTES,
        })
    );
}

#[test]
fn invalid_strings_fail_closed() {
    let mut invalid_utf8 = path_entry().encode().unwrap();
    let body_start = 1 + 8 + FIXED_ID_BYTES + SHA256_BYTES + FIXED_ID_BYTES + 4;
    invalid_utf8[body_start] = 0xff;
    assert_eq!(
        PathEntry::decode(&invalid_utf8),
        Err(PublicationRecordCodecError::InvalidUtf8 {
            field: "body_digest_uri",
        })
    );

    let mut nul = path_entry();
    nul.content_type = "text/\0plain".to_owned();
    assert_eq!(
        nul.encode(),
        Err(PublicationRecordCodecError::ContainsNul {
            field: "content_type",
            index: 5,
        })
    );

    let mut empty_optional = path_entry();
    empty_optional.producer = Some(String::new());
    assert_eq!(
        empty_optional.encode(),
        Err(PublicationRecordCodecError::EmptyString { field: "producer" })
    );
}

#[test]
fn dependency_bounds_are_enforced_on_encode_and_decode() {
    let over_count = ArtifactRevisionRecord {
        dependency_count: MAX_DEPENDENCY_COUNT + 1,
        ..artifact_revision_record()
    };
    assert_eq!(
        over_count.encode(),
        Err(PublicationRecordCodecError::DependencyCountLimit {
            count: MAX_DEPENDENCY_COUNT + 1,
            max: MAX_DEPENDENCY_COUNT,
        })
    );

    let over_depth = ArtifactRevisionRecord {
        dependency_depth: MAX_DEPENDENCY_DEPTH + 1,
        ..artifact_revision_record()
    };
    assert_eq!(
        over_depth.encode(),
        Err(PublicationRecordCodecError::DependencyDepthLimit {
            depth: MAX_DEPENDENCY_DEPTH + 1,
            max: MAX_DEPENDENCY_DEPTH,
        })
    );

    let mut encoded = artifact_revision_record().encode().unwrap();
    let dependency_count_offset =
        1 + 8 + 4 + "sha256:body".len() + 4 + "sha256:manifest".len() + 8;
    encoded[dependency_count_offset..dependency_count_offset + 4]
        .copy_from_slice(&(MAX_DEPENDENCY_COUNT + 1).to_be_bytes());
    assert_eq!(
        ArtifactRevisionRecord::decode(&encoded),
        Err(PublicationRecordCodecError::DependencyCountLimit {
            count: MAX_DEPENDENCY_COUNT + 1,
            max: MAX_DEPENDENCY_COUNT,
        })
    );
}

#[test]
fn dependency_shape_must_agree_in_count_and_depth() {
    let lonely_depth = ArtifactRevisionRecord {
        dependency_count: 0,
        dependency_depth: 1,
        ..artifact_revision_record()
    };
    assert_eq!(
        lonely_depth.encode(),
        Err(PublicationRecordCodecError::InvalidDependencyShape)
    );
    let lonely_count = PathEntry {
        dependency_count: 1,
        dependency_depth: 0,
        ..path_entry()
    };
    assert_eq!(
        lonely_count.encode(),
        Err(PublicationRecordCodecError::InvalidDependencyShape)
    );
    let none = ArtifactRevisionRecord {
        dependency_count: 0,
        dependency_depth: 0,
        ..artifact_revision_record()
    };
    let encoded = none.encode().unwrap();
    assert_eq!(ArtifactRevisionRecord::decode(&encoded).unwrap(), none);
}

#[test]
fn bytes_belong_to_one_record_only() {
    let workspace = workspace_record();
    let bytes = workspace.encode().unwrap();
    let mut other_state = bytes.clone();
    other_state[1 + FIXED_ID_BYTES + 8] = 3;
    let other = WorkspaceRecord::decode(&other_state).unwrap();
    assert_ne!(other, workspace);
    assert_eq!(other.encode().unwrap(), other_state);
    assert_eq!(
        WorkspaceRecord::decode(&bytes).unwrap().encode().unwrap(),
        bytes
    );
}

#[test]
fn record_codec_errors_say_what_is_wrong() {
    let cases = [
        (
            PublicationRecordCodecError::UnsupportedValueVersion {
                actual: 7,
                expected: 3,
            },
            "unsupported publication value format version 7, expected 3",
        ),
        (
            PublicationRecordCodecError::UnknownDiscriminant {
                type_label: "RevisionState",
                value: 255,
            },
            "unknown RevisionState discriminant 255",
        ),
        (
            PublicationRecordCodecError::InvalidOptionalTag {
                field: "producer",
                value: 2,
            },
            "invalid optional tag 2 for producer",
        ),
        (
            PublicationRecordCodecError::LengthLimit {
                field: "producer",
                length: 513,
                max: 512,
            },
            "producer length 513 exceeds maximum 512",
        ),
        (
            PublicationRecordCodecError::ContainsNul {
                field: "content_type",
                index: 10,
            },
            "content_type contains NUL at byte offset 10",
        ),
        (
            PublicationRecordCodecError::Truncated {
                field: "generation",
                needed: 8,
                remaining: 0,
            },
            "truncated generation: need 8 bytes, have 0",
        ),
        (
            PublicationRecordCodecError::TrailingBytes { count: 1 },
            "publication value has 1 trailing bytes",
        ),
    ];
    for (error, text) in cases {
        assert_eq!(error.message(), text);
    }
}
