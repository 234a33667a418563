use nokv_meta::change_events::{
    ChangeEventKind, ChangeEventRecord, PathIndexLocatorRecord, PathIndexLocatorState,
    SecondaryIndexRecord,
};
use nokv_meta::ids::{
    ArtifactRevisionId, OperationId, PathIndexGenerationId, RequestId, RootId,
    WorkspaceIncarnationId, FIXED_ID_BYTES,
};
use nokv_meta::index_keys::{
    decode_ordered_index_scalar, decode_path_index_locator_key, decode_secondary_index_key,
    decode_secondary_index_row_key, encode_ordered_index_scalar, path_index_digest,
    path_index_generation, path_index_locator_key, secondary_index_field_prefix,
    secondary_index_key, secondary_index_value_prefix,
};
use nokv_meta::query_records::{
    FiniteFloat, QueryFieldId, QueryFields, QueryRecordError, QueryScalar, QueryScalarType,
    TypedProjection, CHANGE_EVENT_VALUE_FORMAT_VERSION, QUERY_RECORD_VALUE_FORMAT_VERSION,
};
use nokv_meta::text::{NormalizedRelativePath, WorkbenchId};

const SHA256_BYTES: usize = 32;

fn query_fields<const N: usize>(entries: [(QueryFieldId, QueryScalar); N]) -> QueryFields {
    let mut fields = QueryFields::new();
    for (field, value) in entries {
        fields.insert(field, value);
    }
    fields
}


fn field(value: &str) -> QueryFieldId {
    QueryFieldId::new(value).unwrap()
}

#[test]
fn typed_projection_has_one_canonical_order_and_golden_bytes() {
    let projection = TypedProjection::new(query_fields([
        (field("alpha"), QueryScalar::Boolean(true)),
        (field("zeta"), QueryScalar::Unsigned(9)),
    ]))
    .unwrap();
    let encoded = projection.encode().unwrap();
    assert_eq!(
        encoded,
        [
            &[1, 0, 2][..],
            &[0, 5][..],
            b"alpha",
            &[2, 1][..],
            &[0, 4][..],
            b"zeta",
            &[4][..],
            &9_u64.to_be_bytes(),
        ]
        .concat()
    );
    assert_eq!(TypedProjection::decode(&encoded).unwrap(), projection);
}

#[test]
fn stored_projection_accepts_the_zero_byte_empty_convention() {
    assert_eq!(
        TypedProjection::decode_stored(&[]).unwrap(),
        TypedProjection::empty()
    );

    let projection =
        TypedProjection::new(query_fields([(field("alpha"), QueryScalar::Unsigned(1))]))
            .unwrap();
    let encoded = projection.encode().unwrap();
    assert_eq!(
        TypedProjection::decode_stored(&encoded).unwrap(),
        projection
    );

    assert!(matches!(
        TypedProjection::decode_stored(&[0xff]),
        Err(QueryRecordError::UnsupportedValueVersion { .. })
    ));
}

#[test]
fn typed_projection_rejects_unknown_noncanonical_and_reserved_data() {
    let mut unknown = TypedProjection::empty().encode().unwrap();
    unknown[0] = 2;
    assert!(matches!(
        TypedProjection::decode(&unknown),
        Err(QueryRecordError::UnsupportedValueVersion { actual: 2, .. })
    ));

    let out_of_order = [
        &[1, 0, 2][..],
        &[0, 1][..],
        b"z",
        &[1][..],
        &[0, 1][..],
        b"a",
        &[1][..],
    ]
    .concat();
    assert_eq!(
        TypedProjection::decode(&out_of_order),
        Err(QueryRecordError::NonCanonicalFieldOrder)
    );
    assert!(matches!(
        TypedProjection::new(query_fields([(
            field("path"),
            QueryScalar::String("shadow".to_owned())
        )])),
        Err(QueryRecordError::ReservedFieldId { .. })
    ));
    assert_eq!(
        FiniteFloat::new(f64::NAN.to_bits()),
        Err(QueryRecordError::NonFiniteFloat)
    );
    assert_eq!(
        FiniteFloat::from_canonical_bits((-0.0_f64).to_bits()),
        Err(QueryRecordError::NonCanonicalFloatZero)
    );
}

#[test]
fn ordered_scalar_encoding_preserves_numeric_and_prefix_order() {
    let signed =
        [-5, -1, 0, 1, 9].map(|value| encode_ordered_index_scalar(&QueryScalar::Signed(value)));
    assert!(signed.windows(2).all(|pair| pair[0] < pair[1]));

    let values = ["a", "a\0", "aa", "ab"]
        .map(|value| encode_ordered_index_scalar(&QueryScalar::String(value.to_owned())));
    assert!(values.windows(2).all(|pair| pair[0] < pair[1]));
    assert_ne!(values[0], values[1]);

    let root = RootId::from_bytes([1; FIXED_ID_BYTES]);
    let workspace = WorkspaceIncarnationId::from_bytes([2; FIXED_ID_BYTES]);
    let field = field("run.label");
    let prefix = secondary_index_field_prefix(root, &field);
    let scalar = QueryScalar::String("same".to_owned());
    let digest_a = path_index_digest(&NormalizedRelativePath::new("a").unwrap());
    let generation_a = PathIndexGenerationId::from_bytes([3; FIXED_ID_BYTES]);
    let key_a = secondary_index_key(root, &field, &scalar, workspace, digest_a, generation_a);
    let scalar_control = QueryScalar::String("same\0".to_owned());
    let key_a_control = secondary_index_key(
        root,
        &field,
        &scalar_control,
        workspace,
        digest_a,
        generation_a,
    );
    let digest_ab = path_index_digest(&NormalizedRelativePath::new("ab").unwrap());
    let key_ab = secondary_index_key(root, &field, &scalar, workspace, digest_ab, generation_a);
    assert!(key_a.starts_with(&prefix));
    assert!(key_a_control.starts_with(&prefix));
    assert!(key_ab.starts_with(&prefix));
    assert_ne!(key_a, key_ab);
    assert!(key_a < key_a_control);
    assert_eq!(
        decode_secondary_index_key(root, &field, &scalar, &key_a),
        Some((workspace, digest_a, generation_a))
    );
    assert_eq!(
        decode_secondary_index_row_key(root, &key_a),
        Some((
            field.clone(),
            scalar.duplicate(),
            workspace,
            digest_a,
            generation_a,
        ))
    );
    assert_eq!(
        decode_secondary_index_key(root, &field, &scalar_control, &key_a),
        None
    );

    let locator_key = path_index_locator_key(root, workspace, digest_a, generation_a);
    assert_eq!(
        decode_path_index_locator_key(root, &locator_key),
        Some((workspace, digest_a, generation_a))
    );
}

#[test]
fn secondary_index_and_change_event_round_trip_strictly() {
    let projection = TypedProjection::new(query_fields([(
        field("run.step"),
        QueryScalar::Unsigned(42),
    )]))
    .unwrap();
    let index = SecondaryIndexRecord {
        path_digest: [3; SHA256_BYTES],
        index_generation: PathIndexGenerationId::from_bytes([4; FIXED_ID_BYTES]),
    };
    let index_bytes = index.encode().unwrap();
    assert_eq!(SecondaryIndexRecord::decode(&index_bytes).unwrap(), index);

    let locator = PathIndexLocatorRecord {
        state: PathIndexLocatorState::Published,
        path: NormalizedRelativePath::new("outputs/result.json").unwrap(),
    };
    let locator_bytes = locator.encode().unwrap();
    assert_eq!(
        PathIndexLocatorRecord::decode(&locator_bytes).unwrap(),
        locator
    );
    let mut unknown_locator_state = locator_bytes;
    unknown_locator_state[1] = 3;
    assert_eq!(
        PathIndexLocatorRecord::decode(&unknown_locator_state),
        Err(QueryRecordError::UnknownDiscriminant {
            type_label: "PathIndexLocatorState",
            value: 3,
        })
    );

    let golden_event = ChangeEventRecord {
        workbench_id: WorkbenchId::new("wb").unwrap(),
        workspace_incarnation_id: WorkspaceIncarnationId::from_bytes([7; FIXED_ID_BYTES]),
        kind: ChangeEventKind::WorkspaceCreated,
        artifact_revision_id: None,
        commit_id: None,
        operation_id: None,
        path: None,
        before: TypedProjection::empty(),
        after: TypedProjection::empty(),
    };
    let golden = [
        &[CHANGE_EVENT_VALUE_FORMAT_VERSION][..],
        &2_u32.to_be_bytes(),
        b"wb",
        &[7; FIXED_ID_BYTES],
        &[1, 0, 0, 0, 0],
        &3_u32.to_be_bytes(),
        &[QUERY_RECORD_VALUE_FORMAT_VERSION, 0, 0],
        &3_u32.to_be_bytes(),
        &[QUERY_RECORD_VALUE_FORMAT_VERSION, 0, 0],
    ]
    .concat();
    assert_eq!(golden_event.encode().unwrap(), golden);
    assert_eq!(ChangeEventRecord::decode(&golden).unwrap(), golden_event);

    let mut invalid_utf8 = golden.clone();
    invalid_utf8[5] = 0xff;
    assert!(matches!(
        ChangeEventRecord::decode(&invalid_utf8),
        Err(QueryRecordError::InvalidUtf8 {
            field: "workbench_id"
        })
    ));
    let mut invalid_id = golden;
    invalid_id[5] = b'!';
    assert!(matches!(
        ChangeEventRecord::decode(&invalid_id),
        Err(QueryRecordError::InvalidWorkbenchId { .. })
    ));

    let event = ChangeEventRecord {
        workbench_id: WorkbenchId::new("agent-run").unwrap(),
        workspace_incarnation_id: WorkspaceIncarnationId::from_bytes([7; FIXED_ID_BYTES]),
        kind: ChangeEventKind::ArtifactPublished,
        artifact_revision_id: Some(ArtifactRevisionId::from_bytes([8; FIXED_ID_BYTES])),
        commit_id: None,
        operation_id: Some(OperationId::from_bytes([9; FIXED_ID_BYTES])),
        path: Some(NormalizedRelativePath::new("a/file").unwrap()),
        before: TypedProjection::empty(),
        after: projection,
    };
    let event_bytes = event.encode().unwrap();
    assert_eq!(ChangeEventRecord::decode(&event_bytes).unwrap(), event);

    let mut legacy = event_bytes.clone();
    legacy[0] = QUERY_RECORD_VALUE_FORMAT_VERSION;
    assert_eq!(
        ChangeEventRecord::decode(&legacy),
        Err(QueryRecordError::UnsupportedValueVersion {
            actual: QUERY_RECORD_VALUE_FORMAT_VERSION,
            expected: CHANGE_EVENT_VALUE_FORMAT_VERSION,
        })
    );

    let mut trailing = event_bytes;
    trailing.push(0);
    assert!(matches!(
        ChangeEventRecord::decode(&trailing),
        Err(QueryRecordError::TrailingBytes { count: 1 })
    ));
}

#[test]
fn field_ids_are_short_ascii_names() {
    assert_eq!(
        QueryFieldId::new(""),
        Err(QueryRecordError::EmptyFieldId)
    );
    assert_eq!(
        QueryFieldId::new("run label"),
        Err(QueryRecordError::InvalidFieldId {
            index: 3,
            byte: b' ',
        })
    );
    assert!(matches!(
        QueryFieldId::new(&"f".repeat(129)),
        Err(QueryRecordError::LengthLimit {
            length: 129,
            max: 128,
            ..
        })
    ));
    assert_eq!(field("path").as_str(), "path");
    assert!(field("path").is_builtin());
    assert!(!field("run.label").is_builtin());
}

#[test]
fn projections_are_limited_and_look_their_fields_up() {
    let mut many = QueryFields::new();
    for index in 0..61_u64 {
        many.insert(
            field(&format!("field{index:02}")),
            QueryScalar::Unsigned(index),
        );
    }
    assert_eq!(many.len(), 61);
    assert_eq!(
        TypedProjection::new(many),
        Err(QueryRecordError::FieldCountLimit { count: 61, max: 60 })
    );

    let mut fields = QueryFields::new();
    fields.insert(field("b"), QueryScalar::Null);
    fields.insert(field("a"), QueryScalar::Signed(-1));
    fields.insert(field("b"), QueryScalar::Timestamp(7));
    assert_eq!(fields.len(), 2);
    let projection = TypedProjection::new(fields).unwrap();
    assert_eq!(
        projection.get(&field("b")),
        Some(&QueryScalar::Timestamp(7))
    );
    assert_eq!(projection.get(&field("c")), None);
    assert!(!projection.fields().is_empty());
    assert!(TypedProjection::empty().fields().is_empty());
    let bytes = projection.encode().unwrap();
    assert_eq!(TypedProjection::decode(&bytes).unwrap(), projection);
}

#[test]
fn projection_values_are_read_strictly() {
    let bad_boolean = [&[1, 0, 1][..], &[0, 1][..], b"a", &[2, 7][..]].concat();
    assert_eq!(
        TypedProjection::decode(&bad_boolean),
        Err(QueryRecordError::InvalidBoolean { value: 7 })
    );
    let bad_kind = [&[1, 0, 1][..], &[0, 1][..], b"a", &[99][..]].concat();
    assert_eq!(
        TypedProjection::decode(&bad_kind),
        Err(QueryRecordError::UnknownDiscriminant {
            type_label: "QueryScalarType",
            value: 99,
        })
    );
    let negative_zero = [
        &[1, 0, 1][..],
        &[0, 1][..],
        b"a",
        &[5][..],
        &(-0.0_f64).to_bits().to_be_bytes(),
    ]
    .concat();
    assert_eq!(
        TypedProjection::decode(&negative_zero),
        Err(QueryRecordError::NonCanonicalFloatZero)
    );
    assert!(matches!(
        TypedProjection::decode(&[1, 0]),
        Err(QueryRecordError::Truncated { .. })
    ));
}

#[test]
fn scalar_kinds_keep_their_tags() {
    let scalars = [
        (QueryScalar::Null, QueryScalarType::Null, 1),
        (QueryScalar::Boolean(true), QueryScalarType::Boolean, 2),
        (QueryScalar::Signed(-4), QueryScalarType::Signed, 3),
        (QueryScalar::Unsigned(4), QueryScalarType::Unsigned, 4),
        (
            QueryScalar::Float(FiniteFloat::new(1.5_f64.to_bits()).unwrap()),
            QueryScalarType::Float,
            5,
        ),
        (QueryScalar::Timestamp(9), QueryScalarType::Timestamp, 6),
        (QueryScalar::Bytes(vec![0, 1]), QueryScalarType::Bytes, 7),
        (
            QueryScalar::String("text".to_owned()),
            QueryScalarType::String,
            8,
        ),
    ];
    for (scalar, kind, tag) in &scalars {
        assert_eq!(scalar.scalar_type(), *kind);
        assert_eq!(scalar.discriminant(), *tag);
        assert_eq!(QueryScalarType::try_from(*tag), Ok(*kind));
        let encoded = encode_ordered_index_scalar(scalar);
        assert_eq!(encoded[0], *tag);
        assert_eq!(decode_ordered_index_scalar(&encoded), Some(scalar.duplicate()));
    }
    assert!(matches!(
        QueryScalarType::try_from(0),
        Err(QueryRecordError::UnknownDiscriminant { value: 0, .. })
    ));
    for pair in scalars.windows(2) {
        assert!(pair[0].0.precedes(&pair[1].0));
        assert!(!pair[1].0.precedes(&pair[0].0));
        assert!(pair[0].0 < pair[1].0);
        assert!(pair[1].0 > pair[0].0);
    }
}

#[test]
fn floats_keep_their_numeric_order_in_index_keys() {
    let values = [f64::MIN, -2.0, -1.0, -f64::MIN_POSITIVE, 0.0, 0.5, 1.0, f64::MAX];
    let floats = values.map(|value| FiniteFloat::new(value.to_bits()).unwrap());
    for pair in floats.windows(2) {
        assert!(pair[0].precedes(pair[1]));
        assert!(!pair[1].precedes(pair[0]));
        assert!(pair[0] < pair[1]);
        assert!(
            encode_ordered_index_scalar(&QueryScalar::Float(pair[0]))
                < encode_ordered_index_scalar(&QueryScalar::Float(pair[1]))
        );
    }
    assert_eq!(
        FiniteFloat::new((-0.0_f64).to_bits()).unwrap().get(),
        0.0_f64.to_bits()
    );
    assert_eq!(
        FiniteFloat::new(f64::INFINITY.to_bits()),
        Err(QueryRecordError::NonFiniteFloat)
    );
}

#[test]
fn index_keys_are_the_value_prefix_with_an_identity_behind() {
    let root = RootId::from_bytes([1; FIXED_ID_BYTES]);
    let workspace = WorkspaceIncarnationId::from_bytes([2; FIXED_ID_BYTES]);
    let generation = path_index_generation(RequestId::from_bytes([3; FIXED_ID_BYTES]));
    assert_eq!(
        generation,
        PathIndexGenerationId::from_bytes([3; FIXED_ID_BYTES])
    );
    let digest = path_index_digest(&NormalizedRelativePath::new("abc").unwrap());
    assert_eq!(digest[..4], [0xff, 0x94, 0x6c, 0xcb]);
    let scalar = QueryScalar::Boolean(true);
    let prefix = secondary_index_value_prefix(root, &field("done"), &scalar);
    let key = secondary_index_key(
        root,
        &field("done"),
        &scalar,
        workspace,
        digest,
        generation,
    );
    assert_eq!(
        key,
        [
            &prefix[..],
            &[2; FIXED_ID_BYTES],
            &digest,
            &[3; FIXED_ID_BYTES],
        ]
        .concat()
    );
    let other_root = RootId::from_bytes([9; FIXED_ID_BYTES]);
    assert_eq!(decode_secondary_index_row_key(other_root, &key), None);
    assert_eq!(decode_path_index_locator_key(root, &key), None);
}

#[test]
fn change_event_kinds_keep_their_tags() {
    for tag in 1..=255_u8 {
        if let Ok(kind) = ChangeEventKind::try_from(tag) {
            assert_eq!(kind.tag(), tag);
        }
    }
    assert_eq!(
        ChangeEventKind::try_from(1),
        Ok(ChangeEventKind::WorkspaceCreated)
    );
    assert!(matches!(
        ChangeEventKind::try_from(0),
        Err(QueryRecordError::UnknownDiscriminant { value: 0, .. })
    ));
    assert_eq!(
        PathIndexLocatorState::try_from(PathIndexLocatorState::Staged.tag()),
        Ok(PathIndexLocatorState::Staged)
    );
}

#[test]
fn names_and_paths_are_checked() {
    assert!(WorkbenchId::new("").is_err());
    assert!(WorkbenchId::new(&"w".repeat(129)).is_err());
    assert!(WorkbenchId::new(&"w".repeat(128)).is_ok());
    assert!(WorkbenchId::new("a/b").is_err());
    assert!(NormalizedRelativePath::new("").is_err());
    assert!(NormalizedRelativePath::new("/a").is_err());
    assert!(NormalizedRelativePath::new("a//b").is_err());
    assert!(NormalizedRelativePath::new("a/../b").is_err());
    assert!(NormalizedRelativePath::new("a/.").is_err());
    assert_eq!(
        NormalizedRelativePath::new("a/..b/c.d").unwrap().as_str(),
        "a/..b/c.d"
    );
}

#[test]
fn query_record_errors_say_what_is_wrong() {
    let cases = [
        (
            QueryRecordError::InvalidFieldId {
                index: 3,
                byte: 0x0a,
            },
            "query field id has unsupported byte 0x0a at offset 3",
        ),
        (
            QueryRecordError::ReservedFieldId { field_id: "path" },
            "typed projection shadows built-in field path",
        ),
        (
            QueryRecordError::FieldCountLimit { count: 61, max: 60 },
            "typed projection has 61 fields, maximum is 60",
        ),
        (
            QueryRecordError::InvalidBoolean { value: 7 },
            "boolean discriminant 7 is invalid",
        ),
        (
            QueryRecordError::TrailingBytes { count: 2 },
            "typed query payload has 2 trailing bytes",
        ),
    ];
    for (error, text) in cases {
        assert_eq!(error.message(), text);
    }
}
