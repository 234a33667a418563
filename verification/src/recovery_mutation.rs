//! Replayable inputs and results of metadata writes, in canonical bytes.

use crate::be::{be_bytes, copy_bytes, put_be, put_slice, same_bytes};
use crate::command::{item_views, items_bounded, lemma_items_fit, lemma_list_back,
    lemma_list_split, lemma_root_action_back, lemma_root_action_split, list_bytes, list_fault,
    overflow_fault, put_field, put_list, put_root_action, read_list, read_root_action,
    root_action_bytes, step_list, step_root_action, CommandMutation, CommandPredicate, CommandView,
    EventProjection, HistoryProjection, MetadataCommand, MutationView, PredicateView,
    RecoveryCodecError, RecoveryParse, RootFenceAction, MAX_ITEMS, MAX_RECOVERY_BYTES, SCHEMA_ID};
use crate::ids::{id_bytes, CommandDigest, CommitVersion, LogicalShardId, MetadataFamily,
    ObjectNamespaceId, OwnerEpoch, PlacementGeneration, ReadVersion, RequestId, RootId};
use crate::publication_records::first_fault;
use crate::text::{read_text, same_text, text_of, utf8};
use crate::wire::{check, fail, lemma_concat_assoc, lemma_concat_empty, outcome, put_byte, sized,
    start, step_bytes, step_digest, step_end, step_id, step_tag, step_u64, step_u8, stepped, viewed,
    Reader};
use vstd::prelude::*;

verus! {

/// Format of a recovery row.
pub const RECOVERY_OUTBOX_VALUE_FORMAT_VERSION: u8 = 3;

/// Format of a recovery row from before commands named an object namespace.
pub const LEGACY_RECOVERY_OUTBOX_VALUE_FORMAT_VERSION: u8 = 2;

/// One canonical input to a metadata write.
#[derive(Clone, Debug, PartialEq, Eq)]
pub enum RecoveryMutationV1 {
    MetadataCommand {
        command: MetadataCommand,
        /// What the command engine computes as the canonical digest of
        /// `command`.
        canonical_digest: [u8; 32],
        lease_deadline_ms: Option<u64>,
    },
    ObserveLeaseClock {
        root_id: RootId,
        placement_generation: PlacementGeneration,
        owner_epoch: OwnerEpoch,
        observed_ms: u64,
    },
    AdvanceOwnerEpoch { expected: Option<OwnerEpoch>, next: OwnerEpoch },
}

/// A mutation with its bytes as sequences.
#[verifier::ext_equal]
pub enum RecoveryMutationView {
    MetadataCommand {
        command: CommandView,
        canonical_digest: Seq<u8>,
        lease_deadline_ms: Option<u64>,
    },
    ObserveLeaseClock {
        root_id: RootId,
        placement_generation: PlacementGeneration,
        owner_epoch: OwnerEpoch,
        observed_ms: u64,
    },
    AdvanceOwnerEpoch { expected: Option<OwnerEpoch>, next: OwnerEpoch },
}

impl View for RecoveryMutationV1 {
    type V = RecoveryMutationView;

    open spec fn view(&self) -> RecoveryMutationView {
        match self {
            RecoveryMutationV1::MetadataCommand { command, canonical_digest, lease_deadline_ms } =>
                RecoveryMutationView::MetadataCommand {
                command: command@,
                canonical_digest: canonical_digest@,
                lease_deadline_ms: *lease_deadline_ms,
            },
            RecoveryMutationV1::ObserveLeaseClock {
                root_id,
                placement_generation,
                owner_epoch,
                observed_ms,
            } => RecoveryMutationView::ObserveLeaseClock {
                root_id: *root_id,
                placement_generation: *placement_generation,
                owner_epoch: *owner_epoch,
                observed_ms: *observed_ms,
            },
            RecoveryMutationV1::AdvanceOwnerEpoch { expected, next } =>
                RecoveryMutationView::AdvanceOwnerEpoch { expected: *expected, next: *next },
        }
    }
}

/// An object namespace as stored: nothing where there is none.
pub open spec fn namespace_bytes(namespace: Option<ObjectNamespaceId>) -> Seq<u8> {
    match namespace {
        None => Seq::empty(),
        Some(id) => id_bytes(id.bits),
    }
}

/// Whether a row of the given format names an object namespace exactly as
/// `namespace` does.
pub open spec fn namespace_fits(version: u8, namespace: Option<ObjectNamespaceId>) -> bool {
    ||| version == LEGACY_RECOVERY_OUTBOX_VALUE_FORMAT_VERSION && namespace is None
    ||| version == RECOVERY_OUTBOX_VALUE_FORMAT_VERSION && namespace is Some
}

/// An optional number as stored.
pub open spec fn optional_u64_bytes(value: Option<u64>) -> Seq<u8> {
    match value {
        None => seq![0u8],
        Some(value) => seq![1u8] + be_bytes(value as nat, 8),
    }
}

/// An optional number.
pub open spec fn step_optional_u64(st: RecoveryParse, field: &'static str) -> (
    Option<u64>,
    RecoveryParse,
) {
    let (present, s1) = step_tag(st, field);
    if s1.err is None && present {
        let (value, s2) = step_u64(s1, field);
        (Some(value), s2)
    } else {
        (None, s1)
    }
}

/// A positive number.
pub open spec fn step_positive(st: RecoveryParse, field: &'static str) -> (u64, RecoveryParse) {
    let (value, s1) = step_u64(st, field);
    (value, check(s1, value != 0, RecoveryCodecError::ZeroScalar { field }))
}

/// Appends an optional number.
pub fn encode_optional_u64(out: &mut Vec<u8>, value: Option<u64>)
    ensures
        final(out)@ == old(out)@ + optional_u64_bytes(value),
{
    match value {
        None => put_byte(out, 0),
        Some(value) => {
            put_byte(out, 1);
            put_be(out, value as u128, 8);
            proof {
                lemma_concat_assoc(old(out)@, seq![1u8], be_bytes(value as nat, 8));
            }
        },
    }
}

fn read_optional_u64(reader: &mut Reader, field: &'static str) -> (result: Result<
    Option<u64>,
    RecoveryCodecError,
>)
    requires
        old(reader).wf(),
    ensures
        final(reader).wf(),
        match result {
            Ok(value) => {
                &&& step_optional_u64(start(old(reader).rest()), field).0 == value
                &&& stepped(step_optional_u64(start(old(reader).rest()), field).1, *final(reader))
            },
            Err(error) => step_optional_u64(start(old(reader).rest()), field).1.err == Some(error),
        },
{
    let present: bool = reader.tag(field)?;
    if present {
        let value: u64 = reader.u64(field)?;
        Ok(Some(value))
    } else {
        Ok(None)
    }
}

fn read_positive(reader: &mut Reader, field: &'static str) -> (result: Result<
    u64,
    RecoveryCodecError,
>)
    requires
        old(reader).wf(),
    ensures
        final(reader).wf(),
        match result {
            Ok(value) => {
                &&& value != 0
                &&& step_positive(start(old(reader).rest()), field).0 == value
                &&& stepped(step_positive(start(old(reader).rest()), field).1, *final(reader))
            },
            Err(error) => step_positive(start(old(reader).rest()), field).1.err == Some(error),
        },
{
    let value: u64 = reader.u64(field)?;
    if value == 0 {
        return Err(RecoveryCodecError::ZeroScalar { field });
    }
    Ok(value)
}

proof fn lemma_optional_u64_back(value: Option<u64>, tail: Seq<u8>, field: &'static str)
    ensures
        step_optional_u64(start(optional_u64_bytes(value) + tail), field) == (
            value,
            start::<RecoveryCodecError>(tail),
        ),
{
    broadcast use crate::wire::group_read_back;

}

proof fn lemma_optional_u64_split(st: RecoveryParse, field: &'static str)
    ensures
        step_optional_u64(st, field).1.err is None ==> {
            let (value, next) = step_optional_u64(st, field);
            st.err is None && st.rest == optional_u64_bytes(value) + next.rest
        },
{
    broadcast use crate::wire::group_split, crate::wire::lemma_concat_assoc;

}

/// The leading fields of a command: who writes, where, and in which order.
#[verifier::ext_equal]
pub struct CommandHeadView {
    pub schema_id: Seq<char>,
    pub root_id: RootId,
    pub logical_shard_id: LogicalShardId,
    pub object_namespace_id: Option<ObjectNamespaceId>,
    pub placement_generation: PlacementGeneration,
    pub owner_epoch: OwnerEpoch,
    pub request_id: RequestId,
    pub command_digest: Seq<u8>,
    pub read_version: ReadVersion,
}

/// The remaining fields of a command: what it expects, changes and returns.
#[verifier::ext_equal]
pub struct CommandBodyView {
    pub root_fence_action: RootFenceAction,
    pub predicates: Seq<PredicateView>,
    pub mutations: Seq<MutationView>,
    pub history_projection: Seq<(MetadataFamily, Seq<u8>)>,
    pub event_projection: Seq<Seq<u8>>,
    pub deterministic_result: Seq<u8>,
}

/// The leading fields of a command.
pub open spec fn head_of(command: CommandView) -> CommandHeadView {
    CommandHeadView {
        schema_id: command.schema_id,
        root_id: command.root_id,
        logical_shard_id: command.logical_shard_id,
        object_namespace_id: command.object_namespace_id,
        placement_generation: command.placement_generation,
        owner_epoch: command.owner_epoch,
        request_id: command.request_id,
        command_digest: command.command_digest,
        read_version: command.read_version,
    }
}

/// The remaining fields of a command.
pub open spec fn body_of(command: CommandView) -> CommandBodyView {
    CommandBodyView {
        root_fence_action: command.root_fence_action,
        predicates: command.predicates,
        mutations: command.mutations,
        history_projection: command.history_projection,
        event_projection: command.event_projection,
        deterministic_result: command.deterministic_result,
    }
}

/// A command from its two halves.
pub open spec fn command_from(head: CommandHeadView, body: CommandBodyView) -> CommandView {
    CommandView {
        schema_id: head.schema_id,
        root_id: head.root_id,
        logical_shard_id: head.logical_shard_id,
        object_namespace_id: head.object_namespace_id,
        placement_generation: head.placement_generation,
        owner_epoch: head.owner_epoch,
        request_id: head.request_id,
        command_digest: head.command_digest,
        read_version: head.read_version,
        root_fence_action: body.root_fence_action,
        predicates: body.predicates,
        mutations: body.mutations,
        history_projection: body.history_projection,
        event_projection: body.event_projection,
        deterministic_result: body.deterministic_result,
    }
}

/// The stored form of a command's leading fields.
pub open spec fn head_bytes(head: CommandHeadView) -> Seq<u8> {
    sized(utf8(head.schema_id)) + id_bytes(head.root_id.bits) + id_bytes(
        head.logical_shard_id.bits,
    ) + namespace_bytes(head.object_namespace_id) + be_bytes(
        head.placement_generation.value as nat,
        8,
    ) + be_bytes(head.owner_epoch.value as nat, 8) + id_bytes(head.request_id.bits)
        + head.command_digest + be_bytes(head.read_version.value as nat, 8)
}

/// The stored form of a command's remaining fields.
pub open spec fn body_bytes(body: CommandBodyView) -> Seq<u8> {
    root_action_bytes(body.root_fence_action) + list_bytes::<CommandPredicate>(body.predicates)
        + list_bytes::<CommandMutation>(body.mutations) + list_bytes::<HistoryProjection>(
        body.history_projection,
    ) + list_bytes::<EventProjection>(body.event_projection) + sized(body.deterministic_result)
}

/// Why a command's remaining fields cannot be stored, if they cannot.
pub open spec fn body_fault(body: CommandBodyView) -> Option<RecoveryCodecError> {
    first_fault(
        list_fault::<CommandPredicate>("predicates", body.predicates),
        first_fault(
            list_fault::<CommandMutation>("mutations", body.mutations),
            first_fault(
                list_fault::<HistoryProjection>("history_projection", body.history_projection),
                first_fault(
                    list_fault::<EventProjection>("event_projection", body.event_projection),
                    overflow_fault("deterministic_result", body.deterministic_result.len()),
                ),
            ),
        ),
    )
}

/// An object namespace, where the format names one.
pub open spec fn step_namespace(st: RecoveryParse, version: u8) -> (
    Option<ObjectNamespaceId>,
    RecoveryParse,
) {
    if version == LEGACY_RECOVERY_OUTBOX_VALUE_FORMAT_VERSION {
        (None, st)
    } else {
        let s1 = check(
            st,
            version == RECOVERY_OUTBOX_VALUE_FORMAT_VERSION,
            RecoveryCodecError::UnsupportedVersion {
                actual: version,
                expected: RECOVERY_OUTBOX_VALUE_FORMAT_VERSION,
            },
        );
        let (bits, s2) = step_id(s1, "object_namespace_id");
        (Some(ObjectNamespaceId { bits }), s2)
    }
}

/// The leading fields of a command.
#[verifier::opaque]
pub open spec fn step_head(st: RecoveryParse, version: u8) -> (CommandHeadView, RecoveryParse) {
    let (schema, s1) = step_bytes(st, "schema_id", MAX_RECOVERY_BYTES);
    let s2 = check(
        s1,
        text_of(schema) is Some,
        RecoveryCodecError::InvalidValue { field: "schema_id" },
    );
    let (root, s3) = step_id(s2, "root_id");
    let (shard, s4) = step_id(s3, "logical_shard_id");
    let (namespace, s5) = step_namespace(s4, version);
    let (generation, s6) = step_positive(s5, "placement_generation");
    let (epoch, s7) = step_positive(s6, "owner_epoch");
    let (request, s8) = step_id(s7, "request_id");
    let (digest, s9) = step_digest(s8, "command_digest");
    let (read, s10) = step_positive(s9, "read_version");
    (
        CommandHeadView {
            schema_id: text_of(schema).unwrap(),
            root_id: RootId { bits: root },
            logical_shard_id: LogicalShardId { bits: shard },
            object_namespace_id: namespace,
            placement_generation: PlacementGeneration { value: generation },
            owner_epoch: OwnerEpoch { value: epoch },
            request_id: RequestId { bits: request },
            command_digest: digest,
            read_version: ReadVersion { value: read },
        },
        s10,
    )
}

/// The remaining fields of a command.
#[verifier::opaque]
pub open spec fn step_body(st: RecoveryParse) -> (CommandBodyView, RecoveryParse) {
    let (action, s1) = step_root_action(st);
    let (predicates, s2) = step_list::<CommandPredicate>(s1, "predicates");
    let (mutations, s3) = step_list::<CommandMutation>(s2, "mutations");
    let (history, s4) = step_list::<HistoryProjection>(s3, "history_projection");
    let (events, s5) = step_list::<EventProjection>(s4, "event_projection");
    let (result, s6) = step_bytes(s5, "deterministic_result", MAX_RECOVERY_BYTES);
    (
        CommandBodyView {
            root_fence_action: action,
            predicates,
            mutations,
            history_projection: history,
            event_projection: events,
            deterministic_result: result,
        },
        s6,
    )
}

pub broadcast proof fn lemma_head_after_failure(st: RecoveryParse, version: u8)
    requires
        st.err is Some,
    ensures
        (#[trigger] step_head(st, version)).1 == st,
{
    reveal(step_head);
}

pub broadcast proof fn lemma_body_after_failure(st: RecoveryParse)
    requires
        st.err is Some,
    ensures
        (#[trigger] step_body(st)).1 == st,
{
    reveal(step_body);
    lemma_list_split::<CommandPredicate>(st, "predicates");
    lemma_list_split::<CommandMutation>(st, "mutations");
    lemma_list_split::<HistoryProjection>(st, "history_projection");
    lemma_list_split::<EventProjection>(st, "event_projection");
}

/// The numbers of a command's head are positive and its digest has its width.
pub open spec fn head_valid(head: CommandHeadView) -> bool {
    &&& utf8(head.schema_id).len() <= MAX_RECOVERY_BYTES
    &&& head.placement_generation.wf()
    &&& head.owner_epoch.wf()
    &&& head.read_version.wf()
    &&& head.command_digest.len() == 32
}

proof fn lemma_head_back(head: CommandHeadView, version: u8, tail: Seq<u8>)
    requires
        head_valid(head),
        namespace_fits(version, head.object_namespace_id),
    ensures
        step_head(start(head_bytes(head) + tail), version) == (
            head,
            start::<RecoveryCodecError>(tail),
        ),
{
    broadcast use crate::text::lemma_text_of_utf8;

    reveal(step_head);
    let f0 = sized(utf8(head.schema_id));
    let f1 = id_bytes(head.root_id.bits);
    let f2 = id_bytes(head.logical_shard_id.bits);
    let f3 = namespace_bytes(head.object_namespace_id);
    let f4 = be_bytes(head.placement_generation.value as nat, 8);
    let f5 = be_bytes(head.owner_epoch.value as nat, 8);
    let f6 = id_bytes(head.request_id.bits);
    let f7 = head.command_digest;
    let f8 = be_bytes(head.read_version.value as nat, 8);
    let t8 = f8 + tail;
    let t7 = f7 + t8;
    let t6 = f6 + t7;
    let t5 = f5 + t6;
    let t4 = f4 + t5;
    let t3 = f3 + t4;
    let t2 = f2 + t3;
    let t1 = f1 + t2;
    lemma_concat_assoc(f0 + f1 + f2 + f3 + f4 + f5 + f6 + f7, f8, tail);
    lemma_concat_assoc(f0 + f1 + f2 + f3 + f4 + f5 + f6, f7, t8);
    lemma_concat_assoc(f0 + f1 + f2 + f3 + f4 + f5, f6, t7);
    lemma_concat_assoc(f0 + f1 + f2 + f3 + f4, f5, t6);
    lemma_concat_assoc(f0 + f1 + f2 + f3, f4, t5);
    lemma_concat_assoc(f0 + f1 + f2, f3, t4);
    lemma_concat_assoc(f0 + f1, f2, t3);
    lemma_concat_assoc(f0, f1, t2);
    assert(head_bytes(head) + tail == f0 + t1);
    assert(Seq::<u8>::empty() + t4 =~= t4);
    broadcast use crate::wire::group_steps_back;

    let s2 = start::<RecoveryCodecError>(t1);
    assert(step_bytes(
        start::<RecoveryCodecError>(f0 + t1),
        "schema_id",
        MAX_RECOVERY_BYTES,
    ) == (utf8(head.schema_id), s2));
    assert(step_namespace(start(t3), version) == (
        head.object_namespace_id,
        start::<RecoveryCodecError>(t4),
    ));
}

proof fn lemma_namespace_split(st: RecoveryParse, version: u8)
    ensures
        step_namespace(st, version).1.err is None ==> {
            let (namespace, next) = step_namespace(st, version);
            &&& st.err is None
            &&& namespace_fits(version, namespace)
            &&& st.rest == namespace_bytes(namespace) + next.rest
        },
{
    broadcast use crate::wire::lemma_id_split;

    assert(Seq::<u8>::empty() + st.rest =~= st.rest);
}

proof fn lemma_positive_split(st: RecoveryParse, field: &'static str)
    ensures
        step_positive(st, field).1.err is None ==> {
            let (value, next) = step_positive(st, field);
            &&& st.err is None
            &&& value != 0
            &&& st.rest == be_bytes(value as nat, 8) + next.rest
        },
{
    broadcast use crate::wire::lemma_u64_split;

}

proof fn lemma_head_split(st: RecoveryParse, version: u8)
    ensures
        step_head(st, version).1.err is None ==> {
            let (head, next) = step_head(st, version);
            &&& st.err is None
            &&& head_valid(head)
            &&& namespace_fits(version, head.object_namespace_id)
            &&& st.rest == head_bytes(head) + next.rest
        },
{
    broadcast use crate::text::lemma_utf8_text_of;

    reveal(step_head);
    let (schema, s1) = step_bytes(st, "schema_id", MAX_RECOVERY_BYTES);
    let s2 = check(
        s1,
        text_of(schema) is Some,
        RecoveryCodecError::InvalidValue { field: "schema_id" },
    );
    let (root, s3) = step_id(s2, "root_id");
    let (shard, s4) = step_id(s3, "logical_shard_id");
    let (namespace, s5) = step_namespace(s4, version);
    let (generation, s6) = step_positive(s5, "placement_generation");
    let (epoch, s7) = step_positive(s6, "owner_epoch");
    let (request, s8) = step_id(s7, "request_id");
    let (digest, s9) = step_digest(s8, "command_digest");
    let (read, s10) = step_positive(s9, "read_version");
    if s10.err is None {
        lemma_positive_split(s9, "read_version");
        crate::wire::lemma_digest_split(s8, "command_digest");
        crate::wire::lemma_id_split(s7, "request_id");
        lemma_positive_split(s6, "owner_epoch");
        lemma_positive_split(s5, "placement_generation");
        lemma_namespace_split(s4, version);
        crate::wire::lemma_id_split(s3, "logical_shard_id");
        crate::wire::lemma_id_split(s2, "root_id");
        crate::wire::lemma_bytes_split(st, "schema_id", MAX_RECOVERY_BYTES);
        let f0 = sized(schema);
        let f1 = id_bytes(root);
        let f2 = id_bytes(shard);
        let f3 = namespace_bytes(namespace);
        let f4 = be_bytes(generation as nat, 8);
        let f5 = be_bytes(epoch as nat, 8);
        let f6 = id_bytes(request);
        let f7 = digest;
        let f8 = be_bytes(read as nat, 8);
        lemma_concat_assoc(f0, f1, s3.rest);
        lemma_concat_assoc(f0 + f1, f2, s4.rest);
        lemma_concat_assoc(f0 + f1 + f2, f3, s5.rest);
        lemma_concat_assoc(f0 + f1 + f2 + f3, f4, s6.rest);
        lemma_concat_assoc(f0 + f1 + f2 + f3 + f4, f5, s7.rest);
        lemma_concat_assoc(f0 + f1 + f2 + f3 + f4 + f5, f6, s8.rest);
        lemma_concat_assoc(f0 + f1 + f2 + f3 + f4 + f5 + f6, f7, s9.rest);
        lemma_concat_assoc(f0 + f1 + f2 + f3 + f4 + f5 + f6 + f7, f8, s10.rest);
    }
}

/// Every list is short and every byte string within its limit.
pub open spec fn body_valid(body: CommandBodyView) -> bool {
    &&& body.predicates.len() <= MAX_ITEMS
    &&& items_bounded::<CommandPredicate>(body.predicates)
    &&& body.mutations.len() <= MAX_ITEMS
    &&& items_bounded::<CommandMutation>(body.mutations)
    &&& body.history_projection.len() <= MAX_ITEMS
    &&& items_bounded::<HistoryProjection>(body.history_projection)
    &&& body.event_projection.len() <= MAX_ITEMS
    &&& items_bounded::<EventProjection>(body.event_projection)
    &&& body.deterministic_result.len() <= MAX_RECOVERY_BYTES
}

proof fn lemma_body_back(body: CommandBodyView, tail: Seq<u8>)
    requires
        body_valid(body),
    ensures
        body_fault(body) is None,
        step_body(start(body_bytes(body) + tail)) == (body, start::<RecoveryCodecError>(tail)),
{
    reveal(step_body);
    let f0 = root_action_bytes(body.root_fence_action);
    let f1 = list_bytes::<CommandPredicate>(body.predicates);
    let f2 = list_bytes::<CommandMutation>(body.mutations);
    let f3 = list_bytes::<HistoryProjection>(body.history_projection);
    let f4 = list_bytes::<EventProjection>(body.event_projection);
    let f5 = sized(body.deterministic_result);
    let t5 = f5 + tail;
    let t4 = f4 + t5;
    let t3 = f3 + t4;
    let t2 = f2 + t3;
    let t1 = f1 + t2;
    lemma_concat_assoc(f0 + f1 + f2 + f3 + f4, f5, tail);
    lemma_concat_assoc(f0 + f1 + f2 + f3, f4, t5);
    lemma_concat_assoc(f0 + f1 + f2, f3, t4);
    lemma_concat_assoc(f0 + f1, f2, t3);
    lemma_concat_assoc(f0, f1, t2);
    lemma_root_action_back(body.root_fence_action, t1);
    lemma_list_back::<CommandPredicate>(body.predicates, t2, "predicates");
    lemma_list_back::<CommandMutation>(body.mutations, t3, "mutations");
    lemma_list_back::<HistoryProjection>(body.history_projection, t4, "history_projection");
    lemma_list_back::<EventProjection>(body.event_projection, t5, "event_projection");
    crate::wire::lemma_bytes_back::<RecoveryCodecError>(
        body.deterministic_result,
        tail,
        "deterministic_result",
        MAX_RECOVERY_BYTES,
    );
}

proof fn lemma_body_split(st: RecoveryParse)
    ensures
        step_body(st).1.err is None ==> {
            let (body, next) = step_body(st);
            &&& st.err is None
            &&& body_valid(body)
            &&& st.rest == body_bytes(body) + next.rest
        },
{
    reveal(step_body);
    let (action, s1) = step_root_action(st);
    let (predicates, s2) = step_list::<CommandPredicate>(s1, "predicates");
    let (mutations, s3) = step_list::<CommandMutation>(s2, "mutations");
    let (history, s4) = step_list::<HistoryProjection>(s3, "history_projection");
    let (events, s5) = step_list::<EventProjection>(s4, "event_projection");
    let (result, s6) = step_bytes(s5, "deterministic_result", MAX_RECOVERY_BYTES);
    if s6.err is None {
        crate::wire::lemma_bytes_split(s5, "deterministic_result", MAX_RECOVERY_BYTES);
        lemma_list_split::<EventProjection>(s4, "event_projection");
        lemma_list_split::<HistoryProjection>(s3, "history_projection");
        lemma_list_split::<CommandMutation>(s2, "mutations");
        lemma_list_split::<CommandPredicate>(s1, "predicates");
        lemma_root_action_split(st);
        let f0 = root_action_bytes(action);
        let f1 = list_bytes::<CommandPredicate>(predicates);
        let f2 = list_bytes::<CommandMutation>(mutations);
        let f3 = list_bytes::<HistoryProjection>(history);
        let f4 = list_bytes::<EventProjection>(events);
        let f5 = sized(result);
        lemma_concat_assoc(f0, f1, s2.rest);
        lemma_concat_assoc(f0 + f1, f2, s3.rest);
        lemma_concat_assoc(f0 + f1 + f2, f3, s4.rest);
        lemma_concat_assoc(f0 + f1 + f2 + f3, f4, s5.rest);
        lemma_concat_assoc(f0 + f1 + f2 + f3 + f4, f5, s6.rest);
    }
}

/// The leading fields of a command, as read.
struct CommandHead {
    schema_id: String,
    root_id: RootId,
    logical_shard_id: LogicalShardId,
    object_namespace_id: Option<ObjectNamespaceId>,
    placement_generation: PlacementGeneration,
    owner_epoch: OwnerEpoch,
    request_id: RequestId,
    command_digest: CommandDigest,
    read_version: ReadVersion,
}

impl View for CommandHead {
    type V = CommandHeadView;

    closed spec fn view(&self) -> CommandHeadView {
        CommandHeadView {
            schema_id: self.schema_id@,
            root_id: self.root_id,
            logical_shard_id: self.logical_shard_id,
            object_namespace_id: self.object_namespace_id,
            placement_generation: self.placement_generation,
            owner_epoch: self.owner_epoch,
            request_id: self.request_id,
            command_digest: self.command_digest.bytes@,
            read_version: self.read_version,
        }
    }
}

/// The remaining fields of a command, as read.
struct CommandBody {
    root_fence_action: RootFenceAction,
    predicates: Vec<CommandPredicate>,
    mutations: Vec<CommandMutation>,
    history_projection: Vec<HistoryProjection>,
    event_projection: Vec<EventProjection>,
    deterministic_result: Vec<u8>,
}

impl View for CommandBody {
    type V = CommandBodyView;

    closed spec fn view(&self) -> CommandBodyView {
        CommandBodyView {
            root_fence_action: self.root_fence_action,
            predicates: item_views(self.predicates@),
            mutations: item_views(self.mutations@),
            history_projection: item_views(self.history_projection@),
            event_projection: item_views(self.event_projection@),
            deterministic_result: self.deterministic_result@,
        }
    }
}

fn read_namespace(reader: &mut Reader, version: u8) -> (result: Result<
    Option<ObjectNamespaceId>,
    RecoveryCodecError,
>)
    requires
        old(reader).wf(),
    ensures
        final(reader).wf(),
        match result {
            Ok(value) => {
                &&& step_namespace(start(old(reader).rest()), version).0 == value
                &&& stepped(step_namespace(start(old(reader).rest()), version).1, *final(reader))
            },
            Err(error) => step_namespace(start(old(reader).rest()), version).1.err == Some(error),
        },
{
    if version == LEGACY_RECOVERY_OUTBOX_VALUE_FORMAT_VERSION {
        return Ok(None);
    }
    if version != RECOVERY_OUTBOX_VALUE_FORMAT_VERSION {
        return Err(
            RecoveryCodecError::UnsupportedVersion {
                actual: version,
                expected: RECOVERY_OUTBOX_VALUE_FORMAT_VERSION,
            },
        );
    }
    let bits: u128 = reader.id("object_namespace_id")?;
    Ok(Some(ObjectNamespaceId { bits }))
}

fn read_head(reader: &mut Reader, version: u8) -> (result: Result<CommandHead, RecoveryCodecError>)
    requires
        old(reader).wf(),
    ensures
        final(reader).wf(),
        match result {
            Ok(value) => {
                &&& step_head(start(old(reader).rest()), version).0 == value@
                &&& stepped(step_head(start(old(reader).rest()), version).1, *final(reader))
            },
            Err(error) => step_head(start(old(reader).rest()), version).1.err == Some(error),
        },
{
    proof {
        reveal(step_head);
    }
    let schema: &[u8] = reader.bytes("schema_id", MAX_RECOVERY_BYTES)?;
    let schema_id: String = match read_text(schema) {
        None => {
            return Err(RecoveryCodecError::InvalidValue { field: "schema_id" });
        },
        Some(text) => text,
    };
    let root: u128 = reader.id("root_id")?;
    let shard: u128 = reader.id("logical_shard_id")?;
    let object_namespace_id: Option<ObjectNamespaceId> = read_namespace(reader, version)?;
    let generation: u64 = read_positive(reader, "placement_generation")?;
    let epoch: u64 = read_positive(reader, "owner_epoch")?;
    let request: u128 = reader.id("request_id")?;
    let digest: [u8; 32] = reader.digest("command_digest")?;
    let read: u64 = read_positive(reader, "read_version")?;
    Ok(
        CommandHead {
            schema_id,
            root_id: RootId { bits: root },
            logical_shard_id: LogicalShardId { bits: shard },
            object_namespace_id,
            placement_generation: PlacementGeneration { value: generation },
            owner_epoch: OwnerEpoch { value: epoch },
            request_id: RequestId { bits: request },
            command_digest: CommandDigest { bytes: digest },
            read_version: ReadVersion { value: read },
        },
    )
}

fn read_body(reader: &mut Reader) -> (result: Result<CommandBody, RecoveryCodecError>)
    requires
        old(reader).wf(),
    ensures
        final(reader).wf(),
        match result {
            Ok(value) => {
                &&& step_body(start(old(reader).rest())).0 == value@
                &&& stepped(step_body(start(old(reader).rest())).1, *final(reader))
            },
            Err(error) => step_body(start(old(reader).rest())).1.err == Some(error),
        },
{
    proof {
        reveal(step_body);
        let (action, s1) = step_root_action(start(reader.rest()));
        let (predicates, s2) = step_list::<CommandPredicate>(s1, "predicates");
        let (mutations, s3) = step_list::<CommandMutation>(s2, "mutations");
        let (history, s4) = step_list::<HistoryProjection>(s3, "history_projection");
        lemma_list_split::<CommandPredicate>(s1, "predicates");
        lemma_list_split::<CommandMutation>(s2, "mutations");
        lemma_list_split::<HistoryProjection>(s3, "history_projection");
        lemma_list_split::<EventProjection>(s4, "event_projection");
    }
    let root_fence_action: RootFenceAction = read_root_action(reader)?;
    let predicates: Vec<CommandPredicate> = read_list(reader, "predicates")?;
    let mutations: Vec<CommandMutation> = read_list(reader, "mutations")?;
    let history_projection: Vec<HistoryProjection> = read_list(reader, "history_projection")?;
    let event_projection: Vec<EventProjection> = read_list(reader, "event_projection")?;
    let deterministic_result: &[u8] = reader.bytes("deterministic_result", MAX_RECOVERY_BYTES)?;
    Ok(
        CommandBody {
            root_fence_action,
            predicates,
            mutations,
            history_projection,
            event_projection,
            deterministic_result: copy_bytes(deterministic_result),
        },
    )
}

fn put_head(out: &mut Vec<u8>, command: &MetadataCommand)
    requires
        utf8(command@.schema_id).len() <= u32::MAX,
    ensures
        final(out)@ == old(out)@ + head_bytes(head_of(command@)),
{
    let ghost o = out@;
    let ghost head = head_of(command@);
    let ghost f0 = sized(utf8(head.schema_id));
    let ghost f1 = id_bytes(head.root_id.bits);
    let ghost f2 = id_bytes(head.logical_shard_id.bits);
    let ghost f3 = namespace_bytes(head.object_namespace_id);
    let ghost f4 = be_bytes(head.placement_generation.value as nat, 8);
    let ghost f5 = be_bytes(head.owner_epoch.value as nat, 8);
    let ghost f6 = id_bytes(head.request_id.bits);
    let ghost f7 = head.command_digest;
    let ghost f8 = be_bytes(head.read_version.value as nat, 8);
    crate::wire::put_sized(out, command.schema_id.as_str().as_bytes());
    put_be(out, command.root_id.bits, 16);
    put_be(out, command.logical_shard_id.bits, 16);
    match command.object_namespace_id {
        None => {
            assert(out@ + Seq::<u8>::empty() =~= out@);
        },
        Some(namespace) => put_be(out, namespace.bits, 16),
    }
    put_be(out, command.placement_generation.value as u128, 8);
    put_be(out, command.owner_epoch.value as u128, 8);
    put_be(out, command.request_id.bits, 16);
    put_slice(out, command.command_digest.bytes.as_slice());
    put_be(out, command.read_version.value as u128, 8);
    proof {
        assert(out@ == o + f0 + f1 + f2 + f3 + f4 + f5 + f6 + f7 + f8);
        lemma_concat_assoc(o, f0, f1);
        lemma_concat_assoc(o, f0 + f1, f2);
        lemma_concat_assoc(o, f0 + f1 + f2, f3);
        lemma_concat_assoc(o, f0 + f1 + f2 + f3, f4);
        lemma_concat_assoc(o, f0 + f1 + f2 + f3 + f4, f5);
        lemma_concat_assoc(o, f0 + f1 + f2 + f3 + f4 + f5, f6);
        lemma_concat_assoc(o, f0 + f1 + f2 + f3 + f4 + f5 + f6, f7);
        lemma_concat_assoc(o, f0 + f1 + f2 + f3 + f4 + f5 + f6 + f7, f8);
    }
}

fn put_body(out: &mut Vec<u8>, command: &MetadataCommand) -> (result: Result<
    (),
    RecoveryCodecError,
>)
    ensures
        match result {
            Ok(_) => body_fault(body_of(command@)) is None && final(out)@ == old(out)@
                + body_bytes(body_of(command@)),
            Err(error) => body_fault(body_of(command@)) == Some(error),
        },
{
    let ghost o = out@;
    let ghost body = body_of(command@);
    let ghost f0 = root_action_bytes(body.root_fence_action);
    let ghost f1 = list_bytes::<CommandPredicate>(body.predicates);
    let ghost f2 = list_bytes::<CommandMutation>(body.mutations);
    let ghost f3 = list_bytes::<HistoryProjection>(body.history_projection);
    let ghost f4 = list_bytes::<EventProjection>(body.event_projection);
    let ghost f5 = sized(body.deterministic_result);
    put_root_action(out, command.root_fence_action);
    put_list(out, "predicates", &command.predicates)?;
    put_list(out, "mutations", &command.mutations)?;
    put_list(out, "history_projection", &command.history_projection)?;
    put_list(out, "event_projection", &command.event_projection)?;
    put_field(out, "deterministic_result", command.deterministic_result.as_slice())?;
    proof {
        assert(out@ == o + f0 + f1 + f2 + f3 + f4 + f5);
        lemma_concat_assoc(o, f0, f1);
        lemma_concat_assoc(o, f0 + f1, f2);
        lemma_concat_assoc(o, f0 + f1 + f2, f3);
        lemma_concat_assoc(o, f0 + f1 + f2 + f3, f4);
        lemma_concat_assoc(o, f0 + f1 + f2 + f3 + f4, f5);
    }
    Ok(())
}

/// The stored form of a mutation.
pub open spec fn mutation_bytes(mutation: RecoveryMutationView) -> Seq<u8> {
    match mutation {
        RecoveryMutationView::MetadataCommand { command, canonical_digest, lease_deadline_ms } =>
            seq![1u8] + head_bytes(head_of(command)) + body_bytes(body_of(command))
            + optional_u64_bytes(lease_deadline_ms),
        RecoveryMutationView::ObserveLeaseClock {
            root_id,
            placement_generation,
            owner_epoch,
            observed_ms,
        } => seq![2u8] + id_bytes(root_id.bits) + be_bytes(placement_generation.value as nat, 8)
            + be_bytes(owner_epoch.value as nat, 8) + be_bytes(observed_ms as nat, 8),
        RecoveryMutationView::AdvanceOwnerEpoch { expected, next } => seq![3u8]
            + optional_u64_bytes(epoch_number(expected)) + be_bytes(next.value as nat, 8),
    }
}

/// An optional epoch as a number.
pub open spec fn epoch_number(epoch: Option<OwnerEpoch>) -> Option<u64> {
    match epoch {
        None => None,
        Some(epoch) => Some(epoch.value),
    }
}

/// Recovery material over its limit.
pub open spec fn recovery_length_fault(field: &'static str, length: nat) -> Option<
    RecoveryCodecError,
> {
    if length > MAX_RECOVERY_BYTES {
        Some(
            RecoveryCodecError::LengthBound {
                field,
                length: length as usize,
                max: MAX_RECOVERY_BYTES,
            },
        )
    } else {
        None
    }
}

/// Why a mutation cannot be stored in a row of the given format, if it cannot.
///
/// A command must be written for this schema, be sealed by its canonical
/// digest and carry no deadline of zero; a clock observation must be positive;
/// an owner epoch must advance.
pub open spec fn mutation_fault(mutation: RecoveryMutationView, version: u8) -> Option<
    RecoveryCodecError,
> {
    match mutation {
        RecoveryMutationView::MetadataCommand { command, canonical_digest, lease_deadline_ms } =>
            if command.schema_id != SCHEMA_ID@ || command.command_digest != canonical_digest
            || lease_deadline_ms == Some(0u64) {
            Some(RecoveryCodecError::InvalidValue { field: "metadata_command" })
        } else if !namespace_fits(version, command.object_namespace_id) {
            Some(RecoveryCodecError::InvalidValue { field: "object_namespace_id" })
        } else {
            first_fault(
                body_fault(body_of(command)),
                recovery_length_fault("mutation", mutation_bytes(mutation).len()),
            )
        },
        RecoveryMutationView::ObserveLeaseClock { observed_ms, .. } => if observed_ms == 0 {
            Some(RecoveryCodecError::ZeroScalar { field: "observed_ms" })
        } else {
            None
        },
        RecoveryMutationView::AdvanceOwnerEpoch { expected, next } => if expected is Some
            && expected.unwrap().value >= next.value {
            Some(RecoveryCodecError::InvalidValue { field: "owner_epoch_transition" })
        } else {
            None
        },
    }
}

/// A command mutation behind its kind byte.
pub open spec fn step_command_mutation(
    st: RecoveryParse,
    version: u8,
    canonical_digest: Seq<u8>,
) -> (RecoveryMutationView, RecoveryParse) {
    let (head, s1) = step_head(st, version);
    let (body, s2) = step_body(s1);
    let (deadline, s3) = step_optional_u64(s2, "lease_deadline_ms");
    (
        RecoveryMutationView::MetadataCommand {
            command: command_from(head, body),
            canonical_digest,
            lease_deadline_ms: deadline,
        },
        check(
            s3,
            head.command_digest == canonical_digest,
            RecoveryCodecError::InvalidValue { field: "command_digest" },
        ),
    )
}

/// A clock observation behind its kind byte.
pub open spec fn step_clock_mutation(st: RecoveryParse) -> (RecoveryMutationView, RecoveryParse) {
    let (root, s1) = step_id(st, "root_id");
    let (generation, s2) = step_positive(s1, "placement_generation");
    let (epoch, s3) = step_positive(s2, "owner_epoch");
    let (observed_ms, s4) = step_u64(s3, "observed_ms");
    (
        RecoveryMutationView::ObserveLeaseClock {
            root_id: RootId { bits: root },
            placement_generation: PlacementGeneration { value: generation },
            owner_epoch: OwnerEpoch { value: epoch },
            observed_ms,
        },
        s4,
    )
}

/// An owner advance behind its kind byte.
pub open spec fn step_owner_mutation(st: RecoveryParse) -> (RecoveryMutationView, RecoveryParse) {
    let (expected, s1) = step_optional_u64(st, "expected_owner_epoch");
    let s2 = check(
        s1,
        expected != Some(0u64),
        RecoveryCodecError::ZeroScalar { field: "expected_owner_epoch" },
    );
    let (next, s3) = step_positive(s2, "next_owner_epoch");
    (
        RecoveryMutationView::AdvanceOwnerEpoch {
            expected: match expected {
                None => None,
                Some(value) => Some(OwnerEpoch { value }),
            },
            next: OwnerEpoch { value: next },
        },
        s3,
    )
}

/// A mutation of any kind.
pub open spec fn step_mutation(st: RecoveryParse, version: u8, canonical_digest: Seq<u8>) -> (
    RecoveryMutationView,
    RecoveryParse,
) {
    let (kind, s1) = step_u8(st, "mutation_kind");
    if s1.err is Some || kind == 1 {
        step_command_mutation(s1, version, canonical_digest)
    } else if kind == 2 {
        step_clock_mutation(s1)
    } else if kind == 3 {
        step_owner_mutation(s1)
    } else {
        (
            arbitrary(),
            fail(
                s1,
                RecoveryCodecError::UnknownDiscriminant {
                    type_label: "RecoveryMutationV1",
                    value: kind,
                },
            ),
        )
    }
}

/// The mutation that bytes of a row of the given format hold, or why they hold
/// none. A command must be sealed by `canonical_digest`.
pub open spec fn parse_mutation(bytes: Seq<u8>, version: u8, canonical_digest: Seq<u8>) -> Result<
    RecoveryMutationView,
    RecoveryCodecError,
> {
    match recovery_length_fault("mutation", bytes.len()) {
        Some(error) => Err(error),
        None => {
            let (mutation, s1) = step_mutation(start(bytes), version, canonical_digest);
            match step_end(s1).err {
                Some(error) => Err(error),
                None => match mutation_fault(mutation, version) {
                    Some(error) => Err(error),
                    None => Ok(mutation),
                },
            }
        },
    }
}

/// The command that bytes of a row of the given format hold, if they hold one.
pub open spec fn command_held(bytes: Seq<u8>, version: u8) -> Option<CommandView> {
    let (kind, s1) = step_u8::<RecoveryCodecError>(start(bytes), "mutation_kind");
    let (head, s2) = step_head(s1, version);
    let (body, s3) = step_body(s2);
    if bytes.len() <= MAX_RECOVERY_BYTES && s3.err is None && kind == 1 {
        Some(command_from(head, body))
    } else {
        None
    }
}

/// Every number that must be positive is, and digests have their width.
pub open spec fn mutation_valid(mutation: RecoveryMutationView) -> bool {
    match mutation {
        RecoveryMutationView::MetadataCommand { command, canonical_digest, lease_deadline_ms } => {
            &&& command.placement_generation.wf()
            &&& command.owner_epoch.wf()
            &&& command.read_version.wf()
            &&& command.command_digest.len() == 32
        },
        RecoveryMutationView::ObserveLeaseClock { placement_generation, owner_epoch, .. } =>
            placement_generation.wf() && owner_epoch.wf(),
        RecoveryMutationView::AdvanceOwnerEpoch { expected, next } => next.wf() && (expected is Some
            ==> expected.unwrap().wf()),
    }
}

fn read_command(reader: &mut Reader, version: u8) -> (result: Result<
    MetadataCommand,
    RecoveryCodecError,
>)
    requires
        old(reader).wf(),
    ensures
        final(reader).wf(),
        ({
            let (head, s1) = step_head(start(old(reader).rest()), version);
            let (body, s2) = step_body(s1);
            match result {
                Ok(command) => command@ == command_from(head, body) && stepped(s2, *final(reader)),
                Err(error) => s2.err == Some(error),
            }
        }),
{
    broadcast use lemma_body_after_failure;

    let head: CommandHead = read_head(reader, version)?;
    let body: CommandBody = read_body(reader)?;
    Ok(
        MetadataCommand {
            schema_id: head.schema_id,
            root_id: head.root_id,
            logical_shard_id: head.logical_shard_id,
            object_namespace_id: head.object_namespace_id,
            placement_generation: head.placement_generation,
            owner_epoch: head.owner_epoch,
            request_id: head.request_id,
            command_digest: head.command_digest,
            read_version: head.read_version,
            root_fence_action: body.root_fence_action,
            predicates: body.predicates,
            mutations: body.mutations,
            history_projection: body.history_projection,
            event_projection: body.event_projection,
            deterministic_result: body.deterministic_result,
        },
    )
}

fn read_mutation(reader: &mut Reader, version: u8, canonical_digest: &[u8]) -> (result: Result<
    RecoveryMutationV1,
    RecoveryCodecError,
>)
    requires
        old(reader).wf(),
    ensures
        final(reader).wf(),
        ({
            let (mutation, s1) = step_mutation(
                start(old(reader).rest()),
                version,
                canonical_digest@,
            );
            match result {
                Ok(value) => value@ == mutation && stepped(s1, *final(reader)),
                Err(error) => s1.err == Some(error),
            }
        }),
{
    broadcast use {lemma_head_after_failure, lemma_body_after_failure};

    let kind: u8 = reader.u8("mutation_kind")?;
    if kind == 1 {
        let command: MetadataCommand = read_command(reader, version)?;
        let lease_deadline_ms: Option<u64> = read_optional_u64(reader, "lease_deadline_ms")?;
        if !same_bytes(command.command_digest.bytes.as_slice(), canonical_digest) {
            return Err(RecoveryCodecError::InvalidValue { field: "command_digest" });
        }
        let canonical_digest: [u8; 32] = command.command_digest.bytes;
        Ok(RecoveryMutationV1::MetadataCommand { command, canonical_digest, lease_deadline_ms })
    } else if kind == 2 {
        let root: u128 = reader.id("root_id")?;
        let generation: u64 = read_positive(reader, "placement_generation")?;
        let epoch: u64 = read_positive(reader, "owner_epoch")?;
        let observed_ms: u64 = reader.u64("observed_ms")?;
        Ok(
            RecoveryMutationV1::ObserveLeaseClock {
                root_id: RootId { bits: root },
                placement_generation: PlacementGeneration { value: generation },
                owner_epoch: OwnerEpoch { value: epoch },
                observed_ms,
            },
        )
    } else if kind == 3 {
        let expected: Option<OwnerEpoch> = match read_optional_u64(
            reader,
            "expected_owner_epoch",
        )? {
            None => None,
            Some(value) => {
                if value == 0 {
                    return Err(RecoveryCodecError::ZeroScalar { field: "expected_owner_epoch" });
                }
                Some(OwnerEpoch { value })
            },
        };
        let next: u64 = read_positive(reader, "next_owner_epoch")?;
        Ok(RecoveryMutationV1::AdvanceOwnerEpoch { expected, next: OwnerEpoch { value: next } })
    } else {
        Err(
            RecoveryCodecError::UnknownDiscriminant {
                type_label: "RecoveryMutationV1",
                value: kind,
            },
        )
    }
}

impl RecoveryMutationV1 {
    /// The canonical bytes of a mutation, as a row of the current format
    /// carries it.
    pub fn encode_canonical(&self) -> (result: Result<Vec<u8>, RecoveryCodecError>)
        ensures
            match result {
                Ok(bytes) => mutation_fault(self@, RECOVERY_OUTBOX_VALUE_FORMAT_VERSION) is None
                    && bytes@ == mutation_bytes(self@),
                Err(error) => mutation_fault(self@, RECOVERY_OUTBOX_VALUE_FORMAT_VERSION) == Some(
                    error,
                ),
            },
    {
        self.encode_canonical_for_version(RECOVERY_OUTBOX_VALUE_FORMAT_VERSION)
    }

    /// The canonical bytes of a mutation, as a row of the given format carries
    /// it.
    pub fn encode_canonical_for_version(&self, version: u8) -> (result: Result<
        Vec<u8>,
        RecoveryCodecError,
    >)
        ensures
            match result {
                Ok(bytes) => mutation_fault(self@, version) is None && bytes@ == mutation_bytes(
                    self@,
                ),
                Err(error) => mutation_fault(self@, version) == Some(error),
            },
    {
        match self {
            RecoveryMutationV1::MetadataCommand {
                command,
                canonical_digest,
                lease_deadline_ms,
            } => {
                let no_deadline: bool = match lease_deadline_ms {
                    None => false,
                    Some(value) => *value == 0,
                };
                if !same_text(command.schema_id.as_str(), SCHEMA_ID) || !same_bytes(
                    command.command_digest.bytes.as_slice(),
                    canonical_digest.as_slice(),
                ) || no_deadline {
                    return Err(RecoveryCodecError::InvalidValue { field: "metadata_command" });
                }
                let fits: bool = match command.object_namespace_id {
                    None => version == LEGACY_RECOVERY_OUTBOX_VALUE_FORMAT_VERSION,
                    Some(_) => version == RECOVERY_OUTBOX_VALUE_FORMAT_VERSION,
                };
                if !fits {
                    return Err(RecoveryCodecError::InvalidValue { field: "object_namespace_id" });
                }
                let mut bytes: Vec<u8> = vec![1];
                assert(bytes@ =~= seq![1u8]);
                proof {
                    lemma_schema_length();
                }
                put_head(&mut bytes, command);
                put_body(&mut bytes, command)?;
                encode_optional_u64(&mut bytes, *lease_deadline_ms);
                if bytes.len() > MAX_RECOVERY_BYTES {
                    return Err(
                        RecoveryCodecError::LengthBound {
                            field: "mutation",
                            length: bytes.len(),
                            max: MAX_RECOVERY_BYTES,
                        },
                    );
                }
                Ok(bytes)
            },
            RecoveryMutationV1::ObserveLeaseClock {
                root_id,
                placement_generation,
                owner_epoch,
                observed_ms,
            } => {
                if *observed_ms == 0 {
                    return Err(RecoveryCodecError::ZeroScalar { field: "observed_ms" });
                }
                let mut bytes: Vec<u8> = vec![2];
                assert(bytes@ =~= seq![2u8]);
                put_be(&mut bytes, root_id.bits, 16);
                put_be(&mut bytes, placement_generation.value as u128, 8);
                put_be(&mut bytes, owner_epoch.value as u128, 8);
                put_be(&mut bytes, *observed_ms as u128, 8);
                Ok(bytes)
            },
            RecoveryMutationV1::AdvanceOwnerEpoch { expected, next } => {
                let number: Option<u64> = match expected {
                    None => None,
                    Some(epoch) => {
                        if epoch.value >= next.value {
                            return Err(
                                RecoveryCodecError::InvalidValue {
                                    field: "owner_epoch_transition",
                                },
                            );
                        }
                        Some(epoch.value)
                    },
                };
                let mut bytes: Vec<u8> = vec![3];
                assert(bytes@ =~= seq![3u8]);
                encode_optional_u64(&mut bytes, number);
                put_be(&mut bytes, next.value as u128, 8);
                Ok(bytes)
            },
        }
    }

    /// The mutation that canonical bytes of the current format hold.
    ///
    /// `canonical_digest` is what the command engine computes for the command
    /// that [`RecoveryMutationV1::held_command`] finds in the bytes; it is not
    /// looked at where the bytes hold no command.
    pub fn decode_canonical(encoded: &[u8], canonical_digest: &[u8]) -> (result: Result<
        RecoveryMutationV1,
        RecoveryCodecError,
    >)
        ensures
            viewed(result) == parse_mutation(
                encoded@,
                RECOVERY_OUTBOX_VALUE_FORMAT_VERSION,
                canonical_digest@,
            ),
            result is Ok ==> encoded@ == mutation_bytes(result.unwrap()@),
    {
        Self::decode_canonical_for_version(
            encoded,
            RECOVERY_OUTBOX_VALUE_FORMAT_VERSION,
            canonical_digest,
        )
    }

    /// The mutation that canonical bytes of the given format hold.
    pub fn decode_canonical_for_version(
        encoded: &[u8],
        version: u8,
        canonical_digest: &[u8],
    ) -> (result: Result<RecoveryMutationV1, RecoveryCodecError>)
        ensures
            viewed(result) == parse_mutation(encoded@, version, canonical_digest@),
            result is Ok ==> encoded@ == mutation_bytes(result.unwrap()@),
    {
        if encoded.len() > MAX_RECOVERY_BYTES {
            return Err(
                RecoveryCodecError::LengthBound {
                    field: "mutation",
                    length: encoded.len(),
                    max: MAX_RECOVERY_BYTES,
                },
            );
        }
        let mut reader = Reader::new(encoded);
        let mutation: RecoveryMutationV1 = read_mutation(&mut reader, version, canonical_digest)?;
        reader.end()?;
        let again: Vec<u8> = mutation.encode_canonical_for_version(version)?;
        proof {
            mutation_canonical(encoded@, version, canonical_digest@);
        }
        Ok(mutation)
    }

    /// The command that bytes of the given format hold, if they hold one.
    pub fn held_command(encoded: &[u8], version: u8) -> (command: Option<MetadataCommand>)
        ensures
            match command {
                Some(command) => command_held(encoded@, version) == Some(command@),
                None => command_held(encoded@, version) is None,
            },
    {
        broadcast use {lemma_head_after_failure, lemma_body_after_failure};

        if encoded.len() > MAX_RECOVERY_BYTES {
            return None;
        }
        let mut reader = Reader::new(encoded);
        let kind: Result<u8, RecoveryCodecError> = reader.u8("mutation_kind");
        match kind {
            Err(_) => None,
            Ok(kind) => {
                if kind != 1 {
                    return None;
                }
                match read_command(&mut reader, version) {
                    Err(_) => None,
                    Ok(command) => Some(command),
                }
            },
        }
    }
}

proof fn lemma_schema_length()
    ensures
        utf8(SCHEMA_ID@).len() == 14,
{
    reveal_strlit("nokv_workspace");
    assert(vstd::utf8::is_ascii_chars(SCHEMA_ID@));
    vstd::utf8::is_ascii_chars_encode_utf8(SCHEMA_ID@);
}

/// Every accepted mutation is the one stored form of what was read.
pub proof fn mutation_canonical(bytes: Seq<u8>, version: u8, canonical_digest: Seq<u8>)
    requires
        parse_mutation(bytes, version, canonical_digest) is Ok,
    ensures
        ({
            let mutation = parse_mutation(bytes, version, canonical_digest).unwrap();
            &&& bytes == mutation_bytes(mutation)
            &&& mutation_fault(mutation, version) is None
            &&& mutation_valid(mutation)
        }),
{
    let st = start::<RecoveryCodecError>(bytes);
    let (kind, s1) = step_u8(st, "mutation_kind");
    let (mutation, last) = step_mutation(st, version, canonical_digest);
    assert(last.err is None && last.rest =~= Seq::<u8>::empty());
    crate::wire::lemma_u8_split(st, "mutation_kind");
    if s1.err is Some {
        lemma_head_after_failure(s1, version);
        lemma_body_after_failure(s1);
    } else if kind == 1 {
        let (head, s2) = step_head(s1, version);
        let (body, s3) = step_body(s2);
        let (deadline, s4) = step_optional_u64(s3, "lease_deadline_ms");
        lemma_optional_u64_split(s3, "lease_deadline_ms");
        lemma_body_split(s2);
        lemma_head_split(s1, version);
        let command = command_from(head, body);
        assert(head_of(command) =~= head);
        assert(body_of(command) =~= body);
        let (f1, f2, f3) = (head_bytes(head), body_bytes(body), optional_u64_bytes(deadline));
        lemma_concat_assoc(seq![1u8], f1, s2.rest);
        lemma_concat_assoc(seq![1u8] + f1, f2, s3.rest);
        lemma_concat_assoc(seq![1u8] + f1 + f2, f3, s4.rest);
        lemma_concat_empty(seq![1u8] + f1 + f2 + f3);
    } else if kind == 2 {
        let (root, s2) = step_id(s1, "root_id");
        let (generation, s3) = step_positive(s2, "placement_generation");
        let (epoch, s4) = step_positive(s3, "owner_epoch");
        let (observed_ms, s5) = step_u64(s4, "observed_ms");
        crate::wire::lemma_u64_split(s4, "observed_ms");
        lemma_positive_split(s3, "owner_epoch");
        lemma_positive_split(s2, "placement_generation");
        crate::wire::lemma_id_split(s1, "root_id");
        let f1 = id_bytes(root);
        let f2 = be_bytes(generation as nat, 8);
        let f3 = be_bytes(epoch as nat, 8);
        let f4 = be_bytes(observed_ms as nat, 8);
        lemma_concat_assoc(seq![2u8], f1, s2.rest);
        lemma_concat_assoc(seq![2u8] + f1, f2, s3.rest);
        lemma_concat_assoc(seq![2u8] + f1 + f2, f3, s4.rest);
        lemma_concat_assoc(seq![2u8] + f1 + f2 + f3, f4, s5.rest);
        lemma_concat_empty(seq![2u8] + f1 + f2 + f3 + f4);
    } else if kind == 3 {
        let (expected, s2) = step_optional_u64(s1, "expected_owner_epoch");
        let s3 = check(
            s2,
            expected != Some(0u64),
            RecoveryCodecError::ZeroScalar { field: "expected_owner_epoch" },
        );
        let (next, s4) = step_positive(s3, "next_owner_epoch");
        lemma_positive_split(s3, "next_owner_epoch");
        lemma_optional_u64_split(s1, "expected_owner_epoch");
        let f1 = optional_u64_bytes(expected);
        let f2 = be_bytes(next as nat, 8);
        lemma_concat_assoc(seq![3u8], f1, s2.rest);
        lemma_concat_assoc(seq![3u8] + f1, f2, s4.rest);
        lemma_concat_empty(seq![3u8] + f1 + f2);
        assert(epoch_number(mutation->expected) == expected);
    }
}

/// A command mutation is read back as it was written.
proof fn lemma_command_mutation_back(
    command: CommandView,
    canonical_digest: Seq<u8>,
    lease_deadline_ms: Option<u64>,
    version: u8,
)
    requires
        mutation_valid(
            RecoveryMutationView::MetadataCommand { command, canonical_digest, lease_deadline_ms },
        ),
        mutation_fault(
            RecoveryMutationView::MetadataCommand { command, canonical_digest, lease_deadline_ms },
            version,
        ) is None,
    ensures
        ({
            let mutation = RecoveryMutationView::MetadataCommand {
                command,
                canonical_digest,
                lease_deadline_ms,
            };
            step_mutation(start(mutation_bytes(mutation)), version, canonical_digest) == (
                mutation,
                start::<RecoveryCodecError>(Seq::empty()),
            )
        }),
{
    broadcast use crate::be::lemma_be_bytes_len;

    let bytes = mutation_bytes(
        RecoveryMutationView::MetadataCommand { command, canonical_digest, lease_deadline_ms },
    );
    let empty = Seq::<u8>::empty();
    let head = head_of(command);
    let body = body_of(command);
    assert(command_from(head, body) =~= command);
    lemma_schema_length();
    let (f1, f2, f3) = (head_bytes(head), body_bytes(body), optional_u64_bytes(lease_deadline_ms));
    assert(bytes.len() == 1 + f1.len() + f2.len() + f3.len());
    lemma_body_fits(body);
    let t3 = f3 + empty;
    let t2 = f2 + t3;
    let t1 = f1 + t2;
    lemma_concat_empty(bytes);
    lemma_concat_assoc(seq![1u8] + f1 + f2, f3, empty);
    lemma_concat_assoc(seq![1u8] + f1, f2, t3);
    lemma_concat_assoc(seq![1u8], f1, t2);
    crate::wire::lemma_u8_back::<RecoveryCodecError>(1, t1, "mutation_kind");
    lemma_head_back(head, version, t2);
    lemma_body_back(body, t3);
    lemma_optional_u64_back(lease_deadline_ms, empty, "lease_deadline_ms");
}

/// A clock observation is read back as it was written.
proof fn lemma_clock_mutation_back(
    root_id: RootId,
    placement_generation: PlacementGeneration,
    owner_epoch: OwnerEpoch,
    observed_ms: u64,
    version: u8,
    canonical_digest: Seq<u8>,
)
    requires
        placement_generation.value != 0,
        owner_epoch.value != 0,
    ensures
        ({
            let mutation = RecoveryMutationView::ObserveLeaseClock {
                root_id,
                placement_generation,
                owner_epoch,
                observed_ms,
            };
            step_mutation(start(mutation_bytes(mutation)), version, canonical_digest) == (
                mutation,
                start::<RecoveryCodecError>(Seq::empty()),
            )
        }),
{
    let empty = Seq::<u8>::empty();
    let f1 = id_bytes(root_id.bits);
    let f2 = be_bytes(placement_generation.value as nat, 8);
    let f3 = be_bytes(owner_epoch.value as nat, 8);
    let f4 = be_bytes(observed_ms as nat, 8);
    let t4 = f4 + empty;
    let t3 = f3 + t4;
    let t2 = f2 + t3;
    let t1 = f1 + t2;
    lemma_concat_empty(seq![2u8] + f1 + f2 + f3 + f4);
    lemma_concat_assoc(seq![2u8] + f1 + f2 + f3, f4, empty);
    lemma_concat_assoc(seq![2u8] + f1 + f2, f3, t4);
    lemma_concat_assoc(seq![2u8] + f1, f2, t3);
    lemma_concat_assoc(seq![2u8], f1, t2);
    crate::wire::lemma_u8_back::<RecoveryCodecError>(2, t1, "mutation_kind");
    crate::wire::lemma_id_back::<RecoveryCodecError>(root_id.bits, t2, "root_id");
    crate::wire::lemma_u64_back::<RecoveryCodecError>(
        placement_generation.value,
        t3,
        "placement_generation",
    );
    crate::wire::lemma_u64_back::<RecoveryCodecError>(owner_epoch.value, t4, "owner_epoch");
    crate::wire::lemma_u64_back::<RecoveryCodecError>(observed_ms, empty, "observed_ms");
}

/// An owner advance is read back as it was written.
proof fn lemma_owner_mutation_back(
    expected: Option<OwnerEpoch>,
    next: OwnerEpoch,
    version: u8,
    canonical_digest: Seq<u8>,
)
    requires
        epoch_number(expected) != Some(0u64),
        next.value != 0,
    ensures
        ({
            let mutation = RecoveryMutationView::AdvanceOwnerEpoch { expected, next };
            step_mutation(start(mutation_bytes(mutation)), version, canonical_digest) == (
                mutation,
                start::<RecoveryCodecError>(Seq::empty()),
            )
        }),
{
    let empty = Seq::<u8>::empty();
    let f1 = optional_u64_bytes(epoch_number(expected));
    let f2 = be_bytes(next.value as nat, 8);
    let t2 = f2 + empty;
    lemma_concat_empty(seq![3u8] + f1 + f2);
    lemma_concat_assoc(seq![3u8] + f1, f2, empty);
    lemma_concat_assoc(seq![3u8], f1, t2);
    crate::wire::lemma_u8_back::<RecoveryCodecError>(3, f1 + t2, "mutation_kind");
    lemma_optional_u64_back(epoch_number(expected), t2, "expected_owner_epoch");
    crate::wire::lemma_u64_back::<RecoveryCodecError>(next.value, empty, "next_owner_epoch");
}

/// A clock observation or an owner advance has few bytes.
proof fn lemma_small_mutation(mutation: RecoveryMutationView)
    requires
        !(mutation is MetadataCommand),
    ensures
        mutation_bytes(mutation).len() <= MAX_RECOVERY_BYTES,
{
    broadcast use crate::be::lemma_be_bytes_len;

}

/// A storable mutation is read back as it was written, given its digest.
pub proof fn mutation_round_trip(
    mutation: RecoveryMutationView,
    version: u8,
    canonical_digest: Seq<u8>,
)
    requires
        mutation_valid(mutation),
        mutation_fault(mutation, version) is None,
        mutation is MetadataCommand ==> mutation->canonical_digest == canonical_digest,
    ensures
        parse_mutation(mutation_bytes(mutation), version, canonical_digest) == Ok::<
            _,
            RecoveryCodecError,
        >(mutation),
{
    match mutation {
        RecoveryMutationView::MetadataCommand { command, canonical_digest, lease_deadline_ms } => {
            lemma_command_mutation_back(command, canonical_digest, lease_deadline_ms, version);
        },
        RecoveryMutationView::ObserveLeaseClock {
            root_id,
            placement_generation,
            owner_epoch,
            observed_ms,
        } => {
            lemma_small_mutation(mutation);
            lemma_clock_mutation_back(
                root_id,
                placement_generation,
                owner_epoch,
                observed_ms,
                version,
                canonical_digest,
            );
        },
        RecoveryMutationView::AdvanceOwnerEpoch { expected, next } => {
            lemma_small_mutation(mutation);
            lemma_owner_mutation_back(expected, next, version, canonical_digest);
        },
    }
}

proof fn lemma_body_fits(body: CommandBodyView)
    requires
        body_fault(body) is None,
        body_bytes(body).len() <= MAX_RECOVERY_BYTES,
    ensures
        body_valid(body),
{
    lemma_items_fit::<CommandPredicate>(body.predicates);
    lemma_items_fit::<CommandMutation>(body.mutations);
    lemma_items_fit::<HistoryProjection>(body.history_projection);
    lemma_items_fit::<EventProjection>(body.event_projection);
}

/// What a decoder accepts as a command is the command that the bytes hold.
pub proof fn accepted_command_is_held(bytes: Seq<u8>, version: u8, canonical_digest: Seq<u8>)
    requires
        parse_mutation(bytes, version, canonical_digest) is Ok,
        parse_mutation(bytes, version, canonical_digest).unwrap() is MetadataCommand,
    ensures
        command_held(bytes, version) == Some(
            parse_mutation(bytes, version, canonical_digest).unwrap()->command,
        ),
{
    let (kind, s1) = step_u8::<RecoveryCodecError>(start(bytes), "mutation_kind");
    let (head, s2) = step_head(s1, version);
    if s1.err is Some {
        lemma_head_after_failure(s1, version);
        lemma_body_after_failure(s1);
    }
    let (body, s3) = step_body(s2);
}

/// Deterministic evidence of the write that the same row carries.
#[derive(Clone, Debug, PartialEq, Eq)]
pub enum RecoveryResultV1 {
    MetadataCommand { commit_version: CommitVersion, deterministic_result: Vec<u8> },
    LeaseClock { effective_high_water_ms: u64 },
    OwnerEpoch { applied_owner_epoch: OwnerEpoch },
}

/// A result with its bytes as a sequence.
#[verifier::ext_equal]
pub enum RecoveryResultView {
    MetadataCommand { commit_version: CommitVersion, deterministic_result: Seq<u8> },
    LeaseClock { effective_high_water_ms: u64 },
    OwnerEpoch { applied_owner_epoch: OwnerEpoch },
}

impl View for RecoveryResultV1 {
    type V = RecoveryResultView;

    open spec fn view(&self) -> RecoveryResultView {
        match self {
            RecoveryResultV1::MetadataCommand { commit_version, deterministic_result } =>
                RecoveryResultView::MetadataCommand {
                commit_version: *commit_version,
                deterministic_result: deterministic_result@,
            },
            RecoveryResultV1::LeaseClock { effective_high_water_ms } =>
                RecoveryResultView::LeaseClock {
                effective_high_water_ms: *effective_high_water_ms,
            },
            RecoveryResultV1::OwnerEpoch { applied_owner_epoch } =>
                RecoveryResultView::OwnerEpoch { applied_owner_epoch: *applied_owner_epoch },
        }
    }
}

/// The stored form of a result.
pub open spec fn result_bytes(result: RecoveryResultView) -> Seq<u8> {
    match result {
        RecoveryResultView::MetadataCommand { commit_version, deterministic_result } => seq![1u8]
            + be_bytes(commit_version.value as nat, 8) + sized(deterministic_result),
        RecoveryResultView::LeaseClock { effective_high_water_ms } => seq![2u8] + be_bytes(
            effective_high_water_ms as nat,
            8,
        ),
        RecoveryResultView::OwnerEpoch { applied_owner_epoch } => seq![3u8] + be_bytes(
            applied_owner_epoch.value as nat,
            8,
        ),
    }
}

/// Why a result cannot be stored, if it cannot.
pub open spec fn result_fault(result: RecoveryResultView) -> Option<RecoveryCodecError> {
    match result {
        RecoveryResultView::MetadataCommand { commit_version, deterministic_result } => first_fault(
            overflow_fault("deterministic_result", deterministic_result.len()),
            recovery_length_fault("result", result_bytes(result).len()),
        ),
        _ => None,
    }
}

/// A result of any kind.
pub open spec fn step_result(st: RecoveryParse) -> (RecoveryResultView, RecoveryParse) {
    let (kind, s1) = step_u8(st, "result_kind");
    if s1.err is Some || kind == 1 {
        let (version, s2) = step_positive(s1, "commit_version");
        let (bytes, s3) = step_bytes(s2, "deterministic_result", MAX_RECOVERY_BYTES);
        (
            RecoveryResultView::MetadataCommand {
                commit_version: CommitVersion { value: version },
                deterministic_result: bytes,
            },
            s3,
        )
    } else if kind == 2 {
        let (effective_high_water_ms, s2) = step_u64(s1, "effective_high_water_ms");
        (RecoveryResultView::LeaseClock { effective_high_water_ms }, s2)
    } else if kind == 3 {
        let (epoch, s2) = step_positive(s1, "applied_owner_epoch");
        (RecoveryResultView::OwnerEpoch { applied_owner_epoch: OwnerEpoch { value: epoch } }, s2)
    } else {
        (
            arbitrary(),
            fail(
                s1,
                RecoveryCodecError::UnknownDiscriminant {
                    type_label: "RecoveryResultV1",
                    value: kind,
                },
            ),
        )
    }
}

/// The result that bytes hold, or why they hold none.
pub open spec fn parse_result(bytes: Seq<u8>) -> Result<RecoveryResultView, RecoveryCodecError> {
    match recovery_length_fault("result", bytes.len()) {
        Some(error) => Err(error),
        None => {
            let (result, s1) = step_result(start(bytes));
            outcome(step_end(s1), result)
        },
    }
}

/// Every number that must be positive is.
pub open spec fn result_valid(result: RecoveryResultView) -> bool {
    match result {
        RecoveryResultView::MetadataCommand { commit_version, .. } => commit_version.wf(),
        RecoveryResultView::LeaseClock { .. } => true,
        RecoveryResultView::OwnerEpoch { applied_owner_epoch } => applied_owner_epoch.wf(),
    }
}

impl RecoveryResultV1 {
    /// The canonical bytes of a result.
    pub fn encode_canonical(&self) -> (result: Result<Vec<u8>, RecoveryCodecError>)
        ensures
            match result {
                Ok(bytes) => result_fault(self@) is None && bytes@ == result_bytes(self@),
                Err(error) => result_fault(self@) == Some(error),
            },
    {
        match self {
            RecoveryResultV1::MetadataCommand { commit_version, deterministic_result } => {
                let mut bytes: Vec<u8> = vec![1];
                assert(bytes@ =~= seq![1u8]);
                put_be(&mut bytes, commit_version.value as u128, 8);
                put_field(&mut bytes, "deterministic_result", deterministic_result.as_slice())?;
                if bytes.len() > MAX_RECOVERY_BYTES {
                    return Err(
                        RecoveryCodecError::LengthBound {
                            field: "result",
                            length: bytes.len(),
                            max: MAX_RECOVERY_BYTES,
                        },
                    );
                }
                Ok(bytes)
            },
            RecoveryResultV1::LeaseClock { effective_high_water_ms } => {
                let mut bytes: Vec<u8> = vec![2];
                assert(bytes@ =~= seq![2u8]);
                put_be(&mut bytes, *effective_high_water_ms as u128, 8);
                Ok(bytes)
            },
            RecoveryResultV1::OwnerEpoch { applied_owner_epoch } => {
                let mut bytes: Vec<u8> = vec![3];
                assert(bytes@ =~= seq![3u8]);
                put_be(&mut bytes, applied_owner_epoch.value as u128, 8);
                Ok(bytes)
            },
        }
    }

    /// The result that canonical bytes hold.
    pub fn decode_canonical(encoded: &[u8]) -> (result: Result<
        RecoveryResultV1,
        RecoveryCodecError,
    >)
        ensures
            viewed(result) == parse_result(encoded@),
            result is Ok ==> encoded@ == result_bytes(result.unwrap()@),
    {
        if encoded.len() > MAX_RECOVERY_BYTES {
            return Err(
                RecoveryCodecError::LengthBound {
                    field: "result",
                    length: encoded.len(),
                    max: MAX_RECOVERY_BYTES,
                },
            );
        }
        let mut reader = Reader::new(encoded);
        let kind: u8 = reader.u8("result_kind")?;
        let value: RecoveryResultV1 = if kind == 1 {
            let version: u64 = read_positive(&mut reader, "commit_version")?;
            let bytes: &[u8] = reader.bytes("deterministic_result", MAX_RECOVERY_BYTES)?;
            RecoveryResultV1::MetadataCommand {
                commit_version: CommitVersion { value: version },
                deterministic_result: copy_bytes(bytes),
            }
        } else if kind == 2 {
            let effective_high_water_ms: u64 = reader.u64("effective_high_water_ms")?;
            RecoveryResultV1::LeaseClock { effective_high_water_ms }
        } else if kind == 3 {
            let epoch: u64 = read_positive(&mut reader, "applied_owner_epoch")?;
            RecoveryResultV1::OwnerEpoch { applied_owner_epoch: OwnerEpoch { value: epoch } }
        } else {
            return Err(
                RecoveryCodecError::UnknownDiscriminant {
                    type_label: "RecoveryResultV1",
                    value: kind,
                },
            );
        };
        reader.end()?;
        proof {
            result_canonical(encoded@);
        }
        Ok(value)
    }
}

/// Every accepted result is the one stored form of what was read.
pub proof fn result_canonical(bytes: Seq<u8>)
    requires
        parse_result(bytes) is Ok,
    ensures
        ({
            let result = parse_result(bytes).unwrap();
            &&& bytes == result_bytes(result)
            &&& result_fault(result) is None
            &&& result_valid(result)
        }),
{
    let st = start::<RecoveryCodecError>(bytes);
    let (result, last) = step_result(st);
    let (kind, s1) = step_u8(st, "result_kind");
    assert(last.err is None && last.rest =~= Seq::<u8>::empty());
    crate::wire::lemma_u8_split(st, "result_kind");
    if s1.err is None && kind == 1 {
        let (version, s2) = step_positive(s1, "commit_version");
        let (value, s3) = step_bytes(s2, "deterministic_result", MAX_RECOVERY_BYTES);
        crate::wire::lemma_bytes_split(s2, "deterministic_result", MAX_RECOVERY_BYTES);
        lemma_positive_split(s1, "commit_version");
        let (f1, f2) = (be_bytes(version as nat, 8), sized(value));
        lemma_concat_assoc(seq![1u8], f1, s2.rest);
        lemma_concat_assoc(seq![1u8] + f1, f2, s3.rest);
        lemma_concat_empty(seq![1u8] + f1 + f2);
    } else if s1.err is None && kind == 2 {
        let (value, s2) = step_u64(s1, "effective_high_water_ms");
        crate::wire::lemma_u64_split(s1, "effective_high_water_ms");
        let f1 = be_bytes(value as nat, 8);
        lemma_concat_assoc(seq![2u8], f1, s2.rest);
        lemma_concat_empty(seq![2u8] + f1);
    } else if s1.err is None && kind == 3 {
        let (value, s2) = step_positive(s1, "applied_owner_epoch");
        lemma_positive_split(s1, "applied_owner_epoch");
        let f1 = be_bytes(value as nat, 8);
        lemma_concat_assoc(seq![3u8], f1, s2.rest);
        lemma_concat_empty(seq![3u8] + f1);
    }
}

/// A storable result is read back as it was written.
pub proof fn result_round_trip(result: RecoveryResultView)
    requires
        result_valid(result),
        result_fault(result) is None,
    ensures
        parse_result(result_bytes(result)) == Ok::<_, RecoveryCodecError>(result),
{
    broadcast use crate::be::lemma_be_bytes_len;

    let bytes = result_bytes(result);
    let empty = Seq::<u8>::empty();
    lemma_concat_empty(bytes);
    match result {
        RecoveryResultView::MetadataCommand { commit_version, deterministic_result } => {
            let f1 = be_bytes(commit_version.value as nat, 8);
            let f2 = sized(deterministic_result);
            lemma_concat_assoc(seq![1u8] + f1, f2, empty);
            lemma_concat_assoc(seq![1u8], f1, f2 + empty);
            crate::wire::lemma_u8_back::<RecoveryCodecError>(1, f1 + (f2 + empty), "result_kind");
            crate::wire::lemma_u64_back::<RecoveryCodecError>(
                commit_version.value,
                f2 + empty,
                "commit_version",
            );
            crate::wire::lemma_bytes_back::<RecoveryCodecError>(
                deterministic_result,
                empty,
                "deterministic_result",
                MAX_RECOVERY_BYTES,
            );
        },
        RecoveryResultView::LeaseClock { effective_high_water_ms } => {
            let f1 = be_bytes(effective_high_water_ms as nat, 8);
            lemma_concat_assoc(seq![2u8], f1, empty);
            crate::wire::lemma_u8_back::<RecoveryCodecError>(2, f1 + empty, "result_kind");
            crate::wire::lemma_u64_back::<RecoveryCodecError>(
                effective_high_water_ms,
                empty,
                "effective_high_water_ms",
            );
        },
        RecoveryResultView::OwnerEpoch { applied_owner_epoch } => {
            let f1 = be_bytes(applied_owner_epoch.value as nat, 8);
            lemma_concat_assoc(seq![3u8], f1, empty);
            crate::wire::lemma_u8_back::<RecoveryCodecError>(3, f1 + empty, "result_kind");
            crate::wire::lemma_u64_back::<RecoveryCodecError>(
                applied_owner_epoch.value,
                empty,
                "applied_owner_epoch",
            );
        },
    }
}

} // verus!
