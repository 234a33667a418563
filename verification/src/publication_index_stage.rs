//! The command that stages the index rows of a path before the path is
//! published.

use crate::be::{be_bytes, be_value, bytes_less, copy_bytes, lex_less, put_be, put_slice,
    same_bytes};
use crate::change_events::{secondary_index_bytes, SecondaryIndexRecord, SecondaryIndexView};
use crate::digest::{sha256, sha256_of};
use crate::ids::{id_bytes, MetadataFamily, OperationId, PathIndexGenerationId, RequestId, RootId,
    WorkspaceIncarnationId};
use crate::index_keys::{index_key, secondary_index_key};
use crate::publication_authority::bounded;
use crate::publication_error::PublicationError;
use crate::publication_plan::{asserting, empty_plan, failing, keeps_halts, lemma_stepped_halt,
    lift, live, put_absent, stepped, views, CommandPlan, Draft, PlannedCommand, PlannedCommandView,
    PublicationContext, RowKey, RowKeyView, Stop, StopView};
use crate::publication_records::{first_fault, optional_bytes};
use crate::publication_store::{CommandReceipt, MetaShard, PublicationService, StageKeys};
use crate::query_records::{field_fault, fields_fault, parse_projection, projection_canonical,
    FieldView, TypedProjection};
use crate::recovery::{long_sized, put_long_sized};
use crate::text::utf8;
use crate::wire::lemma_concat_assoc;
use vstd::prelude::*;

verus! {

/// Version of the result that a stage command stores.
pub const SECONDARY_INDEX_STAGE_RESULT_VERSION: u8 = 2;

/// One row of the secondary index.
#[derive(Clone, Debug, PartialEq, Eq)]
pub struct IndexRow {
    pub key: Vec<u8>,
    pub value: Vec<u8>,
}

impl View for IndexRow {
    type V = (Seq<u8>, Seq<u8>);

    open spec fn view(&self) -> (Seq<u8>, Seq<u8>) {
        (self.key@, self.value@)
    }
}

/// Whether keys are strictly increasing.
pub open spec fn keys_sorted(keys: Seq<Seq<u8>>) -> bool {
    forall|i: int, j: int| 0 <= i < j < keys.len() ==> lex_less(#[trigger] keys[i], #[trigger] keys[j])
}

/// Increasing keys with one more in its place.
pub open spec fn insert_key(keys: Seq<Seq<u8>>, key: Seq<u8>) -> Seq<Seq<u8>>
    decreases keys.len(),
{
    if keys.len() == 0 {
        seq![key]
    } else if lex_less(keys.last(), key) {
        keys.push(key)
    } else if keys.last() == key {
        keys
    } else {
        insert_key(keys.drop_last(), key).push(keys.last())
    }
}

/// The increasing index keys of the first `n` fields of a projection.
pub open spec fn index_keys_of(
    root: RootId,
    workspace: WorkspaceIncarnationId,
    path_digest: Seq<u8>,
    index_generation: PathIndexGenerationId,
    fields: Seq<FieldView>,
    n: nat,
) -> Seq<Seq<u8>>
    decreases n,
{
    if n == 0 {
        Seq::empty()
    } else {
        insert_key(
            index_keys_of(root, workspace, path_digest, index_generation, fields, (n - 1) as nat),
            index_key(
                root,
                fields[n - 1].0,
                fields[n - 1].1,
                workspace,
                path_digest,
                index_generation,
            ),
        )
    }
}

/// The index rows of a projection: its keys in order, each with the path's
/// identity.
pub open spec fn index_rows_of(
    root: RootId,
    workspace: WorkspaceIncarnationId,
    path_digest: Seq<u8>,
    index_generation: PathIndexGenerationId,
    fields: Seq<FieldView>,
) -> Seq<(Seq<u8>, Seq<u8>)> {
    let value = secondary_index_bytes(SecondaryIndexView { path_digest, index_generation });
    index_keys_of(
        root,
        workspace,
        path_digest,
        index_generation,
        fields,
        fields.len(),
    ).map_values(|key: Seq<u8>| (key, value))
}

proof fn lemma_insert_key(keys: Seq<Seq<u8>>, key: Seq<u8>)
    requires
        keys_sorted(keys),
    ensures
        keys_sorted(insert_key(keys, key)),
        forall|other: Seq<u8>| #[trigger]
            insert_key(keys, key).contains(other) <==> keys.contains(other) || other == key,
    decreases keys.len(),
{
    let result = insert_key(keys, key);
    if keys.len() == 0 {
        assert(result[0] == key);
        assert forall|other: Seq<u8>| #[trigger] result.contains(other) <==> keys.contains(other)
            || other == key by {
            if other == key {
                assert(result[0] == other);
            }
        }
    } else if lex_less(keys.last(), key) {
        assert forall|i: int, j: int| 0 <= i < j < result.len() implies lex_less(
            #[trigger] result[i],
            #[trigger] result[j],
        ) by {
            if j == keys.len() {
                if i < keys.len() - 1 {
                    assert(lex_less(keys[i], keys.last()));
                    crate::be::lemma_lex_transitive(keys[i], keys.last(), key);
                }
            }
        }
        assert forall|other: Seq<u8>| #[trigger] result.contains(other) <==> keys.contains(other)
            || other == key by {
            if keys.contains(other) {
                let i = choose|i: int| 0 <= i < keys.len() && keys[i] == other;
                assert(result[i] == other);
            }
            if other == key {
                assert(result[keys.len() as int] == other);
            }
        }
    } else if keys.last() == key {
        assert forall|other: Seq<u8>| #[trigger] result.contains(other) <==> keys.contains(other)
            || other == key by {
            if other == key {
                assert(keys[keys.len() - 1] == other);
            }
        }
    } else {
        let rest = keys.drop_last();
        let inner = insert_key(rest, key);
        lemma_insert_key(rest, key);
        crate::be::lemma_lex_total(keys.last(), key);
        assert forall|i: int, j: int| 0 <= i < j < result.len() implies lex_less(
            #[trigger] result[i],
            #[trigger] result[j],
        ) by {
            if j == inner.len() {
                assert(inner.contains(inner[i]));
                if rest.contains(inner[i]) {
                    let k = choose|k: int| 0 <= k < rest.len() && rest[k] == inner[i];
                    assert(keys[k] == inner[i]);
                    assert(lex_less(keys[k], keys.last()));
                }
            } else {
                assert(result[i] == inner[i] && result[j] == inner[j]);
            }
        }
        assert forall|other: Seq<u8>| #[trigger] result.contains(other) <==> keys.contains(other)
            || other == key by {
            if result.contains(other) {
                let i = choose|i: int| 0 <= i < result.len() && result[i] == other;
                if i < inner.len() {
                    assert(inner.contains(other));
                    if rest.contains(other) {
                        let k = choose|k: int| 0 <= k < rest.len() && rest[k] == other;
                        assert(keys[k] == other);
                    }
                } else {
                    assert(keys[keys.len() - 1] == other);
                }
            }
            if keys.contains(other) {
                let i = choose|i: int| 0 <= i < keys.len() && keys[i] == other;
                if i < rest.len() {
                    assert(rest[i] == other);
                    assert(inner.contains(other));
                    let k = choose|k: int| 0 <= k < inner.len() && inner[k] == other;
                    assert(result[k] == other);
                } else {
                    assert(result[inner.len() as int] == other);
                }
            }
            if other == key {
                assert(inner.contains(other));
                let k = choose|k: int| 0 <= k < inner.len() && inner[k] == other;
                assert(result[k] == other);
            }
        }
    }
}

/// Index keys are strictly increasing, and are exactly the keys of the fields.
pub proof fn index_keys_cover_the_fields(
    root: RootId,
    workspace: WorkspaceIncarnationId,
    path_digest: Seq<u8>,
    index_generation: PathIndexGenerationId,
    fields: Seq<FieldView>,
    n: nat,
)
    requires
        n <= fields.len(),
    ensures
        ({
            let keys = index_keys_of(root, workspace, path_digest, index_generation, fields, n);
            &&& keys_sorted(keys)
            &&& forall|key: Seq<u8>| #[trigger]
                keys.contains(key) <==> exists|i: int|
                    0 <= i < n && key == index_key(
                        root,
                        (#[trigger] fields[i]).0,
                        fields[i].1,
                        workspace,
                        path_digest,
                        index_generation,
                    )
        }),
    decreases n,
{
    if n > 0 {
        let before = index_keys_of(
            root,
            workspace,
            path_digest,
            index_generation,
            fields,
            (n - 1) as nat,
        );
        let last = index_key(
            root,
            fields[n - 1].0,
            fields[n - 1].1,
            workspace,
            path_digest,
            index_generation,
        );
        index_keys_cover_the_fields(
            root,
            workspace,
            path_digest,
            index_generation,
            fields,
            (n - 1) as nat,
        );
        lemma_insert_key(before, last);
        let keys = insert_key(before, last);
        assert forall|key: Seq<u8>| #[trigger] keys.contains(key) <==> exists|i: int|
            0 <= i < n && key == index_key(
                root,
                (#[trigger] fields[i]).0,
                fields[i].1,
                workspace,
                path_digest,
                index_generation,
            ) by {
            if before.contains(key) {
                let i = choose|i: int|
                    0 <= i < n - 1 && key == index_key(
                        root,
                        (#[trigger] fields[i]).0,
                        fields[i].1,
                        workspace,
                        path_digest,
                        index_generation,
                    );
                assert(0 <= i < n && fields[i] == fields[i]);
            }
            if key == last {
                assert(fields[n - 1] == fields[n - 1]);
            }
            if exists|i: int|
                0 <= i < n && key == index_key(
                    root,
                    (#[trigger] fields[i]).0,
                    fields[i].1,
                    workspace,
                    path_digest,
                    index_generation,
                ) {
                let i = choose|i: int|
                    0 <= i < n && key == index_key(
                        root,
                        (#[trigger] fields[i]).0,
                        fields[i].1,
                        workspace,
                        path_digest,
                        index_generation,
                    );
                if i < n - 1 {
                    assert(before.contains(key));
                }
            }
        }
    }
}

fn insert_sorted(keys: &mut Vec<Vec<u8>>, key: Vec<u8>)
    ensures
        views(final(keys)@) == insert_key(views(old(keys)@), key@),
{
    let ghost all = views(keys@);
    let ghost wanted = insert_key(all, key@);
    let mut j: usize = keys.len();
    proof {
        assert(all.take(all.len() as int) =~= all);
        assert(insert_key(all, key@) + all.skip(all.len() as int) =~= insert_key(all, key@));
    }
    while j > 0
        invariant_except_break
            j <= all.len(),
            all == views(keys@),
            wanted == insert_key(all.take(j as int), key@) + all.skip(j as int),
        invariant
            j <= all.len(),
            all == views(keys@),
            keys@ == old(keys)@,
            wanted == insert_key(all, key@),
            all == views(old(keys)@),
        ensures
            wanted == all.take(j as int).push(key@) + all.skip(j as int),
        decreases j,
    {
        let ghost head = all.take(j as int);
        assert(head.last() == keys@[j - 1]@);
        if bytes_less(keys[j - 1].as_slice(), key.as_slice()) {
            break;
        }
        if same_bytes(keys[j - 1].as_slice(), key.as_slice()) {
            assert(head + all.skip(j as int) =~= all);
            return;
        }
        assert(head.drop_last() =~= all.take(j - 1));
        assert(insert_key(all.take(j - 1), key@).push(head.last()) + all.skip(j as int)
            =~= insert_key(all.take(j - 1), key@) + all.skip(j - 1));
        j = j - 1;
        if j == 0 {
            assert(all.take(0) =~= Seq::empty());
            assert(insert_key(all.take(0), key@) =~= all.take(0).push(key@));
        }
    }
    let ghost tail = key@;
    keys.insert(j, key);
    assert(views(keys@) =~= all.take(j as int).push(tail) + all.skip(j as int));
}

/// Field names are short enough for index keys.
pub open spec fn names_fit(fields: Seq<FieldView>) -> bool {
    forall|i: int| 0 <= i < fields.len() ==> utf8((#[trigger] fields[i]).0).len() <= 0xffff
}

proof fn lemma_names_fit(fields: Seq<FieldView>)
    requires
        fields_fault(fields) is None,
    ensures
        names_fit(fields),
    decreases fields.len(),
{
    if fields.len() > 0 {
        lemma_names_fit(fields.skip(1));
        assert forall|i: int| 0 <= i < fields.len() implies utf8((#[trigger] fields[i]).0).len()
            <= 0xffff by {
            if i == 0 {
                assert(field_fault(fields[0]) is None);
            } else {
                assert(fields.skip(1)[i - 1] == fields[i]);
            }
        }
    }
}

/// A projection that was read has names that fit, and few fields.
pub proof fn lemma_projection_fits(bytes: Seq<u8>)
    requires
        parse_projection(bytes) is Ok,
    ensures
        names_fit(parse_projection(bytes).unwrap()),
        parse_projection(bytes).unwrap().len() <= crate::query_records::MAX_TYPED_PROJECTION_FIELDS,
{
    projection_canonical(bytes);
    lemma_names_fit(parse_projection(bytes).unwrap());
}

proof fn lemma_insert_count(keys: Seq<Seq<u8>>, key: Seq<u8>)
    ensures
        insert_key(keys, key).len() <= keys.len() + 1,
    decreases keys.len(),
{
    if keys.len() > 0 {
        lemma_insert_count(keys.drop_last(), key);
    }
}

/// There are no more index rows than fields.
pub proof fn lemma_index_rows_count(
    root: RootId,
    workspace: WorkspaceIncarnationId,
    path_digest: Seq<u8>,
    index_generation: PathIndexGenerationId,
    fields: Seq<FieldView>,
    n: nat,
)
    ensures
        index_keys_of(root, workspace, path_digest, index_generation, fields, n).len() <= n,
    decreases n,
{
    if n > 0 {
        lemma_index_rows_count(
            root,
            workspace,
            path_digest,
            index_generation,
            fields,
            (n - 1) as nat,
        );
        lemma_insert_count(
            index_keys_of(root, workspace, path_digest, index_generation, fields, (n - 1) as nat),
            index_key(
                root,
                fields[n - 1].0,
                fields[n - 1].1,
                workspace,
                path_digest,
                index_generation,
            ),
        );
    }
}

/// The index rows of a projection, in key order.
pub fn secondary_index_rows(
    root_id: RootId,
    workspace_incarnation_id: WorkspaceIncarnationId,
    path_digest: [u8; 32],
    index_generation: PathIndexGenerationId,
    projection: &TypedProjection,
) -> (rows: Vec<IndexRow>)
    requires
        names_fit(projection@),
    ensures
        views(rows@) == index_rows_of(
            root_id,
            workspace_incarnation_id,
            path_digest@,
            index_generation,
            projection@,
        ),
        rows@.len() <= projection@.len(),
{
    let record: SecondaryIndexRecord = SecondaryIndexRecord { path_digest, index_generation };
    let ghost value_spec = secondary_index_bytes(record@);
    let ghost fields = projection@;
    let entries = &projection.fields().entries;
    let mut keys: Vec<Vec<u8>> = Vec::new();
    assert(views(keys@) =~= Seq::empty());
    let mut i: usize = 0;
    while i < entries.len()
        invariant
            i <= entries@.len(),
            fields == projection@,
            names_fit(fields),
            entries == projection.fields.entries,
            fields.len() == entries@.len(),
            views(keys@) == index_keys_of(
                root_id,
                workspace_incarnation_id,
                path_digest@,
                index_generation,
                fields,
                i as nat,
            ),
        decreases entries@.len() - i,
    {
        assert(fields[i as int] == crate::query_records::entry_view(entries@[i as int]));
        let key: Vec<u8> = secondary_index_key(
            root_id,
            &entries[i].0,
            &entries[i].1,
            workspace_incarnation_id,
            path_digest,
            index_generation,
        );
        insert_sorted(&mut keys, key);
        i = i + 1;
    }
    let mut rows: Vec<IndexRow> = Vec::new();
    let mut j: usize = 0;
    while j < keys.len()
        invariant
            j <= keys@.len(),
            rows@.len() == j,
            value_spec == secondary_index_bytes(record@),
            forall|k: int|
                0 <= k < j ==> (#[trigger] rows@[k])@ == (views(keys@)[k], value_spec),
        decreases keys@.len() - j,
    {
        let value: Vec<u8> = match record.encode() {
            Ok(value) => value,
            Err(_) => Vec::new(),
        };
        rows.push(IndexRow { key: copy_bytes(keys[j].as_slice()), value });
        j = j + 1;
    }
    proof {
        let wanted = index_rows_of(
            root_id,
            workspace_incarnation_id,
            path_digest@,
            index_generation,
            fields,
        );
        assert(record@ == SecondaryIndexView { path_digest: path_digest@, index_generation });
        assert(views(rows@) =~= wanted);
        lemma_index_rows_count(
            root_id,
            workspace_incarnation_id,
            path_digest@,
            index_generation,
            fields,
            fields.len(),
        );
    }
    rows
}

/// What the identity of a stage command is the digest of.
pub open spec fn stage_request_digest(
    root_id: RootId,
    request_id: RequestId,
    operation_id: OperationId,
) -> Seq<u8> {
    sha256_of(
        utf8("nokv.metadata.secondary-index-stage.v1\0"@) + id_bytes(root_id.bits) + id_bytes(
            request_id.bits,
        ) + id_bytes(operation_id.bits),
    )
}

/// The request identity of the stage command of a finalization.
pub open spec fn stage_request_id_of(
    root_id: RootId,
    request_id: RequestId,
    operation_id: OperationId,
) -> RequestId {
    RequestId {
        bits: be_value(stage_request_digest(root_id, request_id, operation_id).take(16)) as u128,
    }
}

/// The request identity of the stage command of a finalization.
pub fn secondary_index_stage_request_id(
    root_id: RootId,
    request_id: RequestId,
    operation_id: OperationId,
) -> (id: RequestId)
    ensures
        id == stage_request_id_of(root_id, request_id, operation_id),
{
    let mut input: Vec<u8> = Vec::new();
    put_slice(&mut input, "nokv.metadata.secondary-index-stage.v1\0".as_bytes());
    assert(input@ =~= utf8("nokv.metadata.secondary-index-stage.v1\0"@));
    put_be(&mut input, root_id.bits, 16);
    put_be(&mut input, request_id.bits, 16);
    put_be(&mut input, operation_id.bits, 16);
    let digest: [u8; 32] = sha256(input.as_slice());
    let mut head: [u8; 16] = [0; 16];
    let mut i: usize = 0;
    while i < 16
        invariant
            i <= 16,
            forall|k: int| 0 <= k < i ==> head@[k] == digest@[k],
        decreases 16 - i,
    {
        head[i] = digest[i];
        i = i + 1;
    }
    assert(head@ =~= digest@.take(16));
    RequestId::from_bytes(head)
}

/// Index rows, each key and value with its length.
pub open spec fn rows_bytes(rows: Seq<(Seq<u8>, Seq<u8>)>, n: nat) -> Seq<u8>
    decreases n,
{
    if n == 0 {
        Seq::empty()
    } else {
        rows_bytes(rows, (n - 1) as nat) + long_sized(rows[n - 1].0) + long_sized(rows[n - 1].1)
    }
}

/// What a stage command is to write, apart from what it expects of the store.
pub open spec fn stage_intent_of(
    root_id: RootId,
    operation_id: OperationId,
    operation_key: Seq<u8>,
    workspace_key: Seq<u8>,
    path_key: Seq<u8>,
    locator_key: Seq<u8>,
    locator_payload: Seq<u8>,
    rows: Seq<(Seq<u8>, Seq<u8>)>,
) -> Seq<u8> {
    sha256_of(
        utf8("nokv.metadata.secondary-index-stage-intent.v2\0"@) + id_bytes(root_id.bits)
            + id_bytes(operation_id.bits) + long_sized(operation_key) + long_sized(workspace_key)
            + long_sized(path_key) + long_sized(locator_key) + long_sized(locator_payload)
            + be_bytes(rows.len(), 4) + rows_bytes(rows, rows.len()),
    )
}

/// Digest of what a stage command is to write.
pub fn secondary_index_stage_intent_digest(
    root_id: RootId,
    operation_id: OperationId,
    operation_key: &[u8],
    workspace_key: &[u8],
    path_key: &[u8],
    locator_key: &[u8],
    locator_payload: &[u8],
    index_rows: &Vec<IndexRow>,
) -> (digest: [u8; 32])
    requires
        index_rows@.len() <= u32::MAX,
    ensures
        digest@ == stage_intent_of(
            root_id,
            operation_id,
            operation_key@,
            workspace_key@,
            path_key@,
            locator_key@,
            locator_payload@,
            views(index_rows@),
        ),
{
    let mut input: Vec<u8> = Vec::new();
    put_slice(&mut input, "nokv.metadata.secondary-index-stage-intent.v2\0".as_bytes());
    assert(input@ =~= utf8("nokv.metadata.secondary-index-stage-intent.v2\0"@));
    put_be(&mut input, root_id.bits, 16);
    put_be(&mut input, operation_id.bits, 16);
    put_long_sized(&mut input, operation_key);
    put_long_sized(&mut input, workspace_key);
    put_long_sized(&mut input, path_key);
    put_long_sized(&mut input, locator_key);
    put_long_sized(&mut input, locator_payload);
    put_be(&mut input, index_rows.len() as u128, 4);
    let ghost head = input@;
    let ghost rows = views(index_rows@);
    assert(head + rows_bytes(rows, 0) =~= head);
    let mut i: usize = 0;
    while i < index_rows.len()
        invariant
            i <= index_rows@.len(),
            rows == views(index_rows@),
            input@ == head + rows_bytes(rows, i as nat),
        decreases index_rows@.len() - i,
    {
        put_long_sized(&mut input, index_rows[i].key.as_slice());
        put_long_sized(&mut input, index_rows[i].value.as_slice());
        proof {
            let before = rows_bytes(rows, i as nat);
            let key = long_sized(rows[i as int].0);
            let value = long_sized(rows[i as int].1);
            assert(rows[i as int] == index_rows@[i as int]@);
            lemma_concat_assoc(head, before, key);
            lemma_concat_assoc(head, before + key, value);
        }
        i = i + 1;
    }
    sha256(input.as_slice())
}

/// The stored result of a stage command.
pub fn encode_secondary_index_stage_result(input_digest: [u8; 32]) -> (result: Vec<u8>)
    ensures
        result@ == seq![SECONDARY_INDEX_STAGE_RESULT_VERSION] + input_digest@,
{
    let mut result: Vec<u8> = vec![SECONDARY_INDEX_STAGE_RESULT_VERSION];
    assert(result@ =~= seq![SECONDARY_INDEX_STAGE_RESULT_VERSION]);
    put_slice(&mut result, input_digest.as_slice());
    result
}

/// A stored result that is not of a stage command, or of one that wrote
/// something else.
pub open spec fn stage_result_fault(encoded: Seq<u8>, expected: Seq<u8>) -> Option<
    PublicationError,
> {
    if encoded.len() != 33 || encoded[0] != SECONDARY_INDEX_STAGE_RESULT_VERSION {
        Some(PublicationError::ReplayResultMismatch)
    } else if encoded.skip(1) != expected {
        Some(PublicationError::OperationInputMismatch)
    } else {
        None
    }
}

/// Checks that a stored result is of the stage command at hand.
pub fn validate_secondary_index_stage_result(encoded: &[u8], expected_input_digest: [u8; 32]) -> (result:
    Result<(), PublicationError>)
    ensures
        match result {
            Ok(_) => stage_result_fault(encoded@, expected_input_digest@) is None,
            Err(error) => stage_result_fault(encoded@, expected_input_digest@) == Some(error),
        },
{
    if encoded.len() != 33 || encoded[0] != SECONDARY_INDEX_STAGE_RESULT_VERSION {
        return Err(PublicationError::ReplayResultMismatch);
    }
    let mut i: usize = 0;
    while i < 32
        invariant
            i <= 32,
            encoded@.len() == 33,
            encoded@[0] == SECONDARY_INDEX_STAGE_RESULT_VERSION,
            forall|k: int| 0 <= k < i ==> encoded@[k + 1] == expected_input_digest@[k],
        decreases 32 - i,
    {
        if encoded[i + 1] != expected_input_digest[i] {
            assert(encoded@.skip(1)[i as int] != expected_input_digest@[i as int]);
            return Err(PublicationError::OperationInputMismatch);
        }
        i = i + 1;
    }
    assert(encoded@.skip(1) =~= expected_input_digest@);
    Ok(())
}

/// A stage command replays exactly on what it wrote: the result it stores is
/// accepted for the same digest, and for no other.
pub proof fn stage_results_bind_their_intent(digest: Seq<u8>, other: Seq<u8>)
    requires
        digest.len() == 32,
    ensures
        ({
            let stored = seq![SECONDARY_INDEX_STAGE_RESULT_VERSION] + digest;
            &&& stage_result_fault(stored, digest) is None
            &&& other != digest ==> stage_result_fault(stored, other) == Some(
                PublicationError::OperationInputMismatch,
            )
        }),
{
    let stored = seq![SECONDARY_INDEX_STAGE_RESULT_VERSION] + digest;
    assert(stored.skip(1) =~= digest);
}

/// What a stage command expects and writes.
#[derive(Debug, PartialEq, Eq)]
pub struct IndexStage {
    pub operation_id: OperationId,
    pub operation_row: RowKey,
    pub operation_payload: Vec<u8>,
    pub workspace_row: RowKey,
    pub workspace_payload: Vec<u8>,
    pub path_row: RowKey,
    pub path_payload: Option<Vec<u8>>,
    pub locator_key: Vec<u8>,
    pub locator_payload: Vec<u8>,
    pub rows: Vec<IndexRow>,
}

/// A stage with everything as sequences.
#[verifier::ext_equal]
pub struct IndexStageView {
    pub operation_id: OperationId,
    pub operation_row: RowKeyView,
    pub operation_payload: Seq<u8>,
    pub workspace_row: RowKeyView,
    pub workspace_payload: Seq<u8>,
    pub path_row: RowKeyView,
    pub path_payload: Option<Seq<u8>>,
    pub locator_key: Seq<u8>,
    pub locator_payload: Seq<u8>,
    pub rows: Seq<(Seq<u8>, Seq<u8>)>,
}

impl View for IndexStage {
    type V = IndexStageView;

    open spec fn view(&self) -> IndexStageView {
        IndexStageView {
            operation_id: self.operation_id,
            operation_row: self.operation_row@,
            operation_payload: self.operation_payload@,
            workspace_row: self.workspace_row@,
            workspace_payload: self.workspace_payload@,
            path_row: self.path_row@,
            path_payload: optional_bytes(self.path_payload),
            locator_key: self.locator_key@,
            locator_payload: self.locator_payload@,
            rows: views(self.rows@),
        }
    }
}

/// The row of a locator.
pub open spec fn locator_row_of(key: Seq<u8>) -> RowKeyView {
    RowKeyView::Raw { family: MetadataFamily::PathIndexLocator, key }
}

/// A row of the secondary index.
pub open spec fn index_row_of(key: Seq<u8>) -> RowKeyView {
    RowKeyView::Raw { family: MetadataFamily::SecondaryIndex, key }
}

/// Adds index rows.
pub open spec fn index_step(rows: Seq<(Seq<u8>, Seq<u8>)>) -> spec_fn(int, Draft) -> Draft {
    |i: int, draft: Draft| put_absent(draft, index_row_of(rows[i].0), rows[i].1)
}

/// The draft of a stage command.
pub open spec fn stage_draft(stage: IndexStageView) -> Draft {
    let pinned = asserting(
        asserting(
            asserting(live(empty_plan()), stage.operation_row, Some(stage.operation_payload)),
            stage.workspace_row,
            Some(stage.workspace_payload),
        ),
        stage.path_row,
        stage.path_payload,
    );
    bounded(
        stepped(
            index_step(stage.rows),
            stage.rows.len(),
            put_absent(pinned, locator_row_of(stage.locator_key), stage.locator_payload),
        ),
    )
}

/// The digest that a stage command's result carries.
pub open spec fn stage_digest(
    context: PublicationContext,
    stage: IndexStageView,
    keys: StageKeys,
) -> Seq<u8> {
    stage_intent_of(
        context.root_id,
        stage.operation_id,
        keys.operation@,
        keys.workspace@,
        keys.path@,
        stage.locator_key,
        stage.locator_payload,
        stage.rows,
    )
}

/// The command that stages index rows.
pub open spec fn stage_command(
    context: PublicationContext,
    stage: IndexStageView,
    keys: StageKeys,
) -> PlannedCommandView {
    PlannedCommandView {
        context: PublicationContext {
            request_id: stage_request_id_of(
                context.root_id,
                context.request_id,
                stage.operation_id,
            ),
            ..context
        },
        plan: stage_draft(stage).plan,
        deterministic_result: seq![SECONDARY_INDEX_STAGE_RESULT_VERSION] + stage_digest(
            context,
            stage,
            keys,
        ),
        lease_deadline_ms: None,
    }
}

/// Why index rows are not staged: the keys, an earlier result or the command's
/// own result are not known, or the command cannot be planned or failed.
#[verifier::opaque]
pub open spec fn stage_halt(
    store: MetaShard,
    context: PublicationContext,
    stage: IndexStageView,
) -> Option<StopView> {
    match store.stage_keys {
        None => Some(
            StopView::StageKeys {
                operation: stage.operation_row,
                workspace: stage.workspace_row,
                path: stage.path_row,
            },
        ),
        Some(keys) => match store.request_result {
            None => Some(
                StopView::RequestResult {
                    request_id: stage_request_id_of(
                        context.root_id,
                        context.request_id,
                        stage.operation_id,
                    ),
                },
            ),
            Some(Err(error)) => Some(StopView::Fail(PublicationError::Meta(error))),
            Some(Ok(Some(replay))) => failing(
                stage_result_fault(
                    replay.deterministic_result@,
                    stage_digest(context, stage, keys),
                ),
            ),
            Some(Ok(None)) => first_fault(
                stage_draft(stage).halt,
                match store.executed {
                    None => Some(
                        StopView::Execute { command: stage_command(context, stage, keys) },
                    ),
                    Some(Err(error)) => Some(StopView::Fail(PublicationError::Meta(error))),
                    Some(Ok(_)) => None,
                },
            ),
        },
    }
}

/// The result of the stage command, earlier or now.
#[verifier::opaque]
pub open spec fn stage_receipt(store: MetaShard) -> CommandReceipt {
    match store.request_result.unwrap().unwrap() {
        Some(replay) => replay,
        None => store.executed.unwrap().unwrap(),
    }
}

impl<'a> PublicationService<'a> {
    /// Plans the command that stages index rows.
    fn plan_stage(
        &self,
        context: PublicationContext,
        stage: &IndexStage,
        stage_request_id: RequestId,
        input_digest: [u8; 32],
    ) -> (result: Result<PlannedCommand, Stop>)
        requires
            stage_request_id == stage_request_id_of(
                context.root_id,
                context.request_id,
                stage.operation_id,
            ),
        ensures
            match result {
                Ok(command) => {
                    &&& stage_draft(stage@).halt is None
                    &&& command.plan.wf()
                    &&& command@ == (PlannedCommandView {
                        context: PublicationContext { request_id: stage_request_id, ..context },
                        plan: stage_draft(stage@).plan,
                        deterministic_result: seq![SECONDARY_INDEX_STAGE_RESULT_VERSION]
                            + input_digest@,
                        lease_deadline_ms: None,
                    })
                },
                Err(stop) => stage_draft(stage@).halt == Some(stop@),
            },
    {
        let ghost rows = stage@.rows;
        let ghost step = index_step(rows);
        proof {
            assert(keeps_halts(step));
            assert forall|d: Draft| d.halt is Some implies #[trigger] stepped(step, rows.len(), d)
                == d by {
                lemma_stepped_halt(step, 0, rows.len(), d);
            }
        }
        let mut plan: CommandPlan = CommandPlan::new();
        plan.assert_value(
            stage.operation_row.duplicate(),
            Some(copy_bytes(stage.operation_payload.as_slice())),
        )?;
        plan.assert_value(
            stage.workspace_row.duplicate(),
            Some(copy_bytes(stage.workspace_payload.as_slice())),
        )?;
        let path_payload: Option<Vec<u8>> = match &stage.path_payload {
            None => None,
            Some(payload) => Some(copy_bytes(payload.as_slice())),
        };
        plan.assert_value(stage.path_row.duplicate(), path_payload)?;
        plan.put_absent(
            RowKey::Raw {
                family: MetadataFamily::PathIndexLocator,
                key: copy_bytes(stage.locator_key.as_slice()),
            },
            copy_bytes(stage.locator_payload.as_slice()),
        )?;
        let ghost pinned = live(plan@);
        assert(stage_draft(stage@) == bounded(stepped(step, rows.len(), pinned)));
        let mut i: usize = 0;
        while i < stage.rows.len()
            invariant
                i <= stage.rows@.len(),
                rows == stage@.rows,
                rows.len() == stage.rows@.len(),
                plan.wf(),
                step == index_step(rows),
                keeps_halts(step),
                stepped(step, i as nat, pinned) == live(plan@),
                stage_draft(stage@) == bounded(stepped(step, rows.len(), pinned)),
            decreases stage.rows@.len() - i,
        {
            proof {
                assert(rows[i as int] == stage.rows@[i as int]@);
                assert(stepped(step, (i + 1) as nat, pinned) == step(i as int, live(plan@)));
                if stepped(step, (i + 1) as nat, pinned).halt is Some {
                    lemma_stepped_halt(step, (i + 1) as nat, rows.len(), pinned);
                }
            }
            plan.put_absent(
                RowKey::Raw {
                    family: MetadataFamily::SecondaryIndex,
                    key: copy_bytes(stage.rows[i].key.as_slice()),
                },
                copy_bytes(stage.rows[i].value.as_slice()),
            )?;
            i = i + 1;
        }
        lift(plan.validate_bounds())?;
        Ok(
            PlannedCommand {
                context: PublicationContext { request_id: stage_request_id, ..context },
                plan,
                deterministic_result: encode_secondary_index_stage_result(input_digest),
                lease_deadline_ms: None,
            },
        )
    }

    /// Stages index rows, or answers from an earlier run of the same stage.
    pub fn stage_secondary_index(&self, context: PublicationContext, stage: &IndexStage) -> (result:
        Result<&'a CommandReceipt, Stop>)
        requires
            self.wf(),
            stage.rows@.len() <= u32::MAX,
        ensures
            match result {
                Ok(receipt) => {
                    &&& stage_halt(*self.store, context, stage@) is None
                    &&& *receipt == stage_receipt(*self.store)
                    &&& receipt.commit_version.wf()
                },
                Err(stop) => stage_halt(*self.store, context, stage@) == Some(stop@),
            },
    {
        proof {
            reveal(stage_halt);
            reveal(stage_receipt);
        }
        let keys: &StageKeys = match &self.store.stage_keys {
            None => {
                return Err(
                    Stop::StageKeys {
                        operation: stage.operation_row.duplicate(),
                        workspace: stage.workspace_row.duplicate(),
                        path: stage.path_row.duplicate(),
                    },
                );
            },
            Some(keys) => keys,
        };
        let input_digest: [u8; 32] = secondary_index_stage_intent_digest(
            context.root_id,
            stage.operation_id,
            keys.operation.as_slice(),
            keys.workspace.as_slice(),
            keys.path.as_slice(),
            stage.locator_key.as_slice(),
            stage.locator_payload.as_slice(),
            &stage.rows,
        );
        let stage_request_id: RequestId = secondary_index_stage_request_id(
            context.root_id,
            context.request_id,
            stage.operation_id,
        );
        match &self.store.request_result {
            None => Err(Stop::RequestResult { request_id: stage_request_id }),
            Some(Err(error)) => Err(Stop::Fail(PublicationError::Meta(*error))),
            Some(Ok(Some(replay))) => {
                lift(
                    validate_secondary_index_stage_result(
                        replay.deterministic_result.as_slice(),
                        input_digest,
                    ),
                )?;
                Ok(replay)
            },
            Some(Ok(None)) => {
                let command: PlannedCommand = self.plan_stage(
                    context,
                    stage,
                    stage_request_id,
                    input_digest,
                )?;
                match &self.store.executed {
                    None => Err(Stop::Execute { command }),
                    Some(Err(error)) => Err(Stop::Fail(PublicationError::Meta(*error))),
                    Some(Ok(receipt)) => Ok(receipt),
                }
            },
        }
    }
}

} // verus!
