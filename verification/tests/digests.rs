use nokv_meta::ids::{
    ArtifactRevisionId, Generation, LogicalShardId, ObjectNamespaceId, OperationId, OwnerEpoch,
    PlacementGeneration, ReadVersion, RequestId, RootId, WorkspaceIncarnationId,
};
use nokv_meta::publication_digests::{
    advance_manifest_rolling_digest, advance_staged_object_rolling_digest, check_operation_seals,
    dependency_owner_digest, finalization_takeover_absence_proof, publish_identity_digest,
    publish_initialization_digest, reconcile_evidence_digest, reconcile_terminal_message,
    seal_publish_operation, ManifestRowInput,
};
use nokv_meta::publication_error::{PublicationError, QuarantineReconcileResolution};
use nokv_meta::publication_index_stage::{
    encode_secondary_index_stage_result, secondary_index_stage_intent_digest,
    secondary_index_stage_request_id, IndexRow,
};
use nokv_meta::publication_plan::PublicationContext;
use nokv_meta::publish_records::{
    ArtifactManifestRow, Coded, ObjectKey, PublishAuthority, PublishClaim, PublishOperationRecord,
    PublishPhase, PublishRecordError, StagedCleanupState, StagedObjectRecord, StagedProviderState,
};
use nokv_meta::text::{NormalizedRelativePath, WorkbenchId};

fn hex(bytes: &[u8]) -> String {
    let mut text = String::new();
    for byte in bytes {
        text.push_str(&format!("{byte:02x}"));
    }
    text
}

fn root() -> RootId {
    RootId::from_bytes([2; 16])
}

fn revision(value: u128) -> ArtifactRevisionId {
    ArtifactRevisionId::from_bytes(value.to_be_bytes())
}

fn operation_id(value: u128) -> OperationId {
    OperationId::from_bytes(value.to_be_bytes())
}

fn context() -> PublicationContext {
    PublicationContext {
        root_id: root(),
        logical_shard_id: LogicalShardId::from_bytes([1; 16]),
        object_namespace_id: ObjectNamespaceId::from_bytes([10; 16]),
        placement_generation: PlacementGeneration::new(7).unwrap(),
        owner_epoch: OwnerEpoch::new(2).unwrap(),
        request_id: RequestId::from_bytes(12_u128.to_be_bytes()),
        read_version: ReadVersion::new(30).unwrap(),
    }
}

fn operation() -> PublishOperationRecord {
    PublishOperationRecord {
        operation_id: operation_id(650),
        identity_digest: [0; 32],
        initialization_digest: [0; 32],
        initiating_owner_epoch: OwnerEpoch::new(1).unwrap(),
        activity_deadline_ms: 1_000_000,
        authority: PublishAuthority::Visible,
        workbench_id: WorkbenchId::new("workbench").unwrap(),
        workspace_incarnation_id: WorkspaceIncarnationId::from_bytes(9_u128.to_be_bytes()),
        path: NormalizedRelativePath::new("outputs/a.bin").unwrap(),
        artifact_revision_id: revision(651),
        claim: PublishClaim::CreateOnly,
        phase: PublishPhase::Uploading,
        staged_object_count: 3,
        staged_object_seal: [0x31; 32],
        staged_object_cursor: 0,
        staged_object_rolling_digest: [0; 32],
        uploaded_object_cursor: 0,
        uploaded_object_rolling_digest: [0; 32],
        manifest_row_count: 4,
        manifest_seal: [0x41; 32],
        manifest_cursor: 0,
        manifest_rolling_digest: [0; 32],
        manifest_last_position: None,
        dependency_count: 0,
        dependency_depth: 0,
        dependency_digest: dependency_owner_digest(&Vec::new()).unwrap(),
        cleanup_staged_object_cursor: 0,
        cleanup_manifest_cursor: 0,
        publication_absence_proof: None,
        result: None,
        terminal_error: None,
    }
}

fn staged() -> Coded<StagedObjectRecord> {
    Coded {
        record: StagedObjectRecord {
            artifact_revision_id: revision(651),
            object_sequence: 0,
            object_key: ObjectKey {
                text: "objects/0".to_owned(),
                coordinates: None,
            },
            multipart_upload_id: None,
            expected_length: 10,
            expected_digest_uri: "sha256:aa".to_owned(),
            provider_state: StagedProviderState::Planned,
            cleanup_state: StagedCleanupState::Owned,
        },
        validity: None,
        payload: Ok(Vec::new()),
    }
}

fn manifest_row(payload: &[u8]) -> ManifestRowInput {
    ManifestRowInput {
        object_index: 0,
        row: Coded {
            record: ArtifactManifestRow {
                physical_owner_revision_id: revision(651),
                physical_object_index: 0,
                object_key: ObjectKey {
                    text: "objects/0".to_owned(),
                    coordinates: None,
                },
                logical_offset: 0,
                offset: 0,
                length: 10,
                digest_uri: "sha256:aa".to_owned(),
                append_segment: None,
            },
            validity: None,
            payload: Ok(payload.to_vec()),
        },
    }
}

#[test]
fn identity_digests_cover_what_names_a_publication() {
    let mut operation = operation();
    assert_eq!(
        hex(&publish_identity_digest(&operation)),
        "3626bc5d42ab634496c0b9b39ceb79b713b05484cb717f0a67898d2ddaafdb5e"
    );
    operation.authority = PublishAuthority::RestoreStaging {
        restore_operation_id: operation_id(77),
    };
    operation.claim = PublishClaim::Append {
        expected_generation: Generation::new(5).unwrap(),
        base_revision_id: revision(6),
        append_offset: 7,
    };
    assert_eq!(
        hex(&publish_identity_digest(&operation)),
        "51732e786797fc80407557f21fa45d608bcd075a1c672b2c675574dc70d11f91"
    );
}

#[test]
fn initialization_digests_cover_what_is_planned() {
    let mut operation = operation();
    assert_eq!(
        hex(&publish_initialization_digest(&operation)),
        "9b35c4285a26bd675dea5234ab1d51a82969d3fa2cf2f7cd800f1635564364c1"
    );
    assert!(check_operation_seals(&operation).is_err());
    seal_publish_operation(&mut operation);
    assert_eq!(check_operation_seals(&operation), Ok(()));
    assert_eq!(
        hex(&operation.initialization_digest),
        "9b35c4285a26bd675dea5234ab1d51a82969d3fa2cf2f7cd800f1635564364c1"
    );
    operation.staged_object_count = 4;
    assert!(matches!(
        check_operation_seals(&operation),
        Err(PublicationError::InvalidOperationSeal { .. })
    ));
}

#[test]
fn row_digests_chain_one_row_at_a_time() {
    assert_eq!(
        hex(&advance_staged_object_rolling_digest([0; 32], &staged()).unwrap()),
        "1a877941bb24f56324be32291e72d025b3e682887104ab6b8150370976d613ed"
    );
    assert_eq!(
        hex(&advance_manifest_rolling_digest([0; 32], &manifest_row(b"row payload")).unwrap()),
        "e5e72bfb74beae3afc0660bef6d0d3f81fb8a00abe674892a22829d3d35724f5"
    );
    let invalid = Coded {
        validity: Some(PublishRecordError { ticket: 5 }),
        ..staged()
    };
    assert_eq!(
        advance_staged_object_rolling_digest([0; 32], &invalid),
        Err(PublicationError::OperationCodec(PublishRecordError {
            ticket: 5
        }))
    );
}

#[test]
fn dependency_digests_cover_the_owners_in_order() {
    assert_eq!(
        hex(&dependency_owner_digest(&Vec::new()).unwrap()),
        "5405f8ac03add2ca4959021573cfc1ab3a68e0f71e6c4342dd43807f08f4ab98"
    );
    assert_eq!(
        hex(&dependency_owner_digest(&vec![revision(1), revision(2)]).unwrap()),
        "987fea628fe03a5b8654fe81e7c024432c595c1fa4309a3811ca8d597639b43c"
    );
}

#[test]
fn takeover_proofs_bind_the_fence_and_the_payload() {
    assert_eq!(
        hex(&finalization_takeover_absence_proof(context(), b"payload").unwrap()),
        "9270f160b6c99e996de0fcfe8e2674788c091c3e5a83dcde4eb737ebbfec28b8"
    );
}

#[test]
fn reconciliation_leaves_an_audit_trail() {
    assert_eq!(
        hex(&reconcile_evidence_digest(
            QuarantineReconcileResolution::RevisionUnpublished,
            None,
            [7; 32],
        )),
        "19c9f86eb9159ae7b571cc17caf75bc1ce34efecf116bc4f9daf368a745a0484"
    );
    assert_eq!(
        hex(&reconcile_evidence_digest(
            QuarantineReconcileResolution::RevisionPublished,
            Some([5; 32]),
            [7; 32],
        )),
        "6139762c80e8cb56d2b561a8dd2cd025759f31a8a4260d894d31068526284322"
    );
    assert_eq!(
        reconcile_terminal_message(
            QuarantineReconcileResolution::RevisionPublished,
            "checked by hand"
        ),
        "operator reconciliation (revision-published): checked by hand"
    );
}

#[test]
fn index_stages_are_named_and_digested() {
    assert_eq!(
        hex(
            &secondary_index_stage_request_id(root(), context().request_id, operation_id(650))
                .as_bytes()
        ),
        "33a15f07b7477e9080bf52dc3610cd33"
    );
    let rows = vec![IndexRow {
        key: b"key".to_vec(),
        value: b"value".to_vec(),
    }];
    let intent = secondary_index_stage_intent_digest(
        root(),
        operation_id(650),
        b"operation",
        b"workspace",
        b"path",
        b"locator",
        b"payload",
        &rows,
    );
    assert_eq!(
        hex(&intent),
        "037a105a2eb8cdf4967b6948826ad8d909e8503e3f5d0bdaa50b3f5b699bb07d"
    );
    assert_eq!(
        encode_secondary_index_stage_result(intent),
        [&[2][..], &intent].concat()
    );
}
