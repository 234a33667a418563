//! Where a stored recovery mutation ends: one that lost its last bytes is
//! refused as truncated, whatever digest it is held against, and bytes behind
//! one are refused as trailing.

use crate::command::{step_expected, step_family, step_items, step_list, step_root_action,
    step_root_state, CommandItem, CommandMutation, CommandPredicate, EventProjection,
    HistoryProjection, RecoveryCodecError, RecoveryParse, MAX_ITEMS, MAX_RECOVERY_BYTES};
use crate::recovery_mutation::{lemma_body_after_failure, lemma_head_after_failure,
    parse_mutation, step_body, step_clock_mutation, step_command_mutation, step_head,
    step_mutation, step_namespace, step_optional_u64, step_owner_mutation, step_positive,
    RecoveryMutationView, RECOVERY_OUTBOX_VALUE_FORMAT_VERSION};
use crate::text::text_of;
use crate::wire::{check, cut, cut_step, is_truncation, lemma_bytes_cut, lemma_digest_cut,
    lemma_end_cut, lemma_id_cut, lemma_split_at, lemma_tag_cut, lemma_u32_cut, lemma_u64_cut,
    lemma_u8_cut, start, step_bytes, step_digest, step_end, step_id, step_tag, step_u32, step_u64,
    step_u8};
use vstd::prelude::*;

verus! {

/// Whether a read has met the end of its bytes.
pub open spec fn truncated(st: RecoveryParse) -> bool {
    st.err is Some && is_truncation(st.err.unwrap())
}

/// An item of a command whose reading does not look behind its own bytes.
pub trait BoundedItem: CommandItem {
    proof fn item_cut(full: RecoveryParse, part: RecoveryParse, missing: Seq<u8>)
        requires
            cut(full, part, missing),
        ensures
            cut_step(Self::step_item(full), Self::step_item(part), missing),
    ;
}

proof fn lemma_family_cut(
    full: RecoveryParse,
    part: RecoveryParse,
    missing: Seq<u8>,
    field: &'static str,
)
    requires
        cut(full, part, missing),
    ensures
        cut_step(step_family(full, field), step_family(part, field), missing),
{
    lemma_u8_cut(full, part, missing, field);
}

proof fn lemma_expected_cut(
    full: RecoveryParse,
    part: RecoveryParse,
    missing: Seq<u8>,
)
    requires
        cut(full, part, missing),
    ensures
        cut_step(step_expected(full), step_expected(part), missing),
{
    lemma_u8_cut(full, part, missing, "predicate_value_tag");
    let f1 = step_u8(full, "predicate_value_tag");
    let p1 = step_u8(part, "predicate_value_tag");
    if p1.1.err is None && p1.0 == 1 {
        lemma_bytes_cut(f1.1, p1.1, missing, "predicate_value", MAX_RECOVERY_BYTES);
    }
}

impl BoundedItem for CommandPredicate {
    proof fn item_cut(full: RecoveryParse, part: RecoveryParse, missing: Seq<u8>) {
        lemma_u8_cut(full, part, missing, "predicate_kind");
        let (tag, f1) = step_u8(full, "predicate_kind");
        let p1 = step_u8(part, "predicate_kind").1;
        if p1.err is None && (tag == 1 || tag == 2) {
            lemma_family_cut(f1, p1, missing, "predicate_family");
            let f2 = step_family(f1, "predicate_family").1;
            let p2 = step_family(p1, "predicate_family").1;
            if tag == 1 {
                lemma_bytes_cut(f2, p2, missing, "predicate_key", MAX_RECOVERY_BYTES);
                lemma_expected_cut(
                    step_bytes(f2, "predicate_key", MAX_RECOVERY_BYTES).1,
                    step_bytes(p2, "predicate_key", MAX_RECOVERY_BYTES).1,
                    missing,
                );
            } else {
                lemma_bytes_cut(f2, p2, missing, "predicate_prefix", MAX_RECOVERY_BYTES);
            }
        }
    }
}

impl BoundedItem for CommandMutation {
    proof fn item_cut(full: RecoveryParse, part: RecoveryParse, missing: Seq<u8>) {
        lemma_u8_cut(full, part, missing, "command_mutation_kind");
        let (tag, f1) = step_u8(full, "command_mutation_kind");
        let p1 = step_u8(part, "command_mutation_kind").1;
        if p1.err is None && (tag == 1 || tag == 2) {
            lemma_family_cut(f1, p1, missing, "mutation_family");
            let f2 = step_family(f1, "mutation_family").1;
            let p2 = step_family(p1, "mutation_family").1;
            lemma_bytes_cut(f2, p2, missing, "mutation_key", MAX_RECOVERY_BYTES);
            lemma_bytes_cut(
                step_bytes(f2, "mutation_key", MAX_RECOVERY_BYTES).1,
                step_bytes(p2, "mutation_key", MAX_RECOVERY_BYTES).1,
                missing,
                "mutation_value",
                MAX_RECOVERY_BYTES,
            );
        }
    }
}

impl BoundedItem for HistoryProjection {
    proof fn item_cut(full: RecoveryParse, part: RecoveryParse, missing: Seq<u8>) {
        lemma_family_cut(full, part, missing, "history_family");
        lemma_bytes_cut(
            step_family(full, "history_family").1,
            step_family(part, "history_family").1,
            missing,
            "history_key",
            MAX_RECOVERY_BYTES,
        );
    }
}

impl BoundedItem for EventProjection {
    proof fn item_cut(full: RecoveryParse, part: RecoveryParse, missing: Seq<u8>) {
        lemma_bytes_cut(full, part, missing, "event_payload", MAX_RECOVERY_BYTES);
    }
}

proof fn lemma_items_cut<T: BoundedItem>(
    full: RecoveryParse,
    part: RecoveryParse,
    missing: Seq<u8>,
    count: nat,
)
    requires
        cut(full, part, missing),
    ensures
        cut_step(step_items::<T>(full, count), step_items::<T>(part, count), missing),
    decreases count,
{
    if count > 0 && part.err is None {
        T::item_cut(full, part, missing);
        lemma_items_cut::<T>(
            T::step_item(full).1,
            T::step_item(part).1,
            missing,
            (count - 1) as nat,
        );
    }
}

proof fn lemma_list_cut<T: BoundedItem>(
    full: RecoveryParse,
    part: RecoveryParse,
    missing: Seq<u8>,
    field: &'static str,
)
    requires
        cut(full, part, missing),
    ensures
        cut_step(step_list::<T>(full, field), step_list::<T>(part, field), missing),
{
    lemma_u32_cut(full, part, missing, field);
    let (count, f1) = step_u32(full, field);
    let p1 = step_u32(part, field).1;
    if p1.err is None && count <= MAX_ITEMS {
        lemma_items_cut::<T>(f1, p1, missing, count as nat);
    }
}

proof fn lemma_root_state_cut(
    full: RecoveryParse,
    part: RecoveryParse,
    missing: Seq<u8>,
    field: &'static str,
)
    requires
        cut(full, part, missing),
    ensures
        cut_step(step_root_state(full, field), step_root_state(part, field), missing),
{
    lemma_u8_cut(full, part, missing, field);
}

proof fn lemma_root_action_cut(
    full: RecoveryParse,
    part: RecoveryParse,
    missing: Seq<u8>,
)
    requires
        cut(full, part, missing),
    ensures
        cut_step(step_root_action(full), step_root_action(part), missing),
{
    lemma_u8_cut(full, part, missing, "root_fence_action");
    let f1 = step_u8(full, "root_fence_action").1;
    let p1 = step_u8(part, "root_fence_action").1;
    if p1.err is None {
        lemma_root_state_cut(f1, p1, missing, "expected_root_state");
        lemma_root_state_cut(
            step_root_state(f1, "expected_root_state").1,
            step_root_state(p1, "expected_root_state").1,
            missing,
            "next_root_state",
        );
    }
}

proof fn lemma_optional_u64_cut(
    full: RecoveryParse,
    part: RecoveryParse,
    missing: Seq<u8>,
    field: &'static str,
)
    requires
        cut(full, part, missing),
    ensures
        cut_step(step_optional_u64(full, field), step_optional_u64(part, field), missing),
{
    lemma_tag_cut(full, part, missing, field);
    lemma_u64_cut(step_tag(full, field).1, step_tag(part, field).1, missing, field);
}

proof fn lemma_positive_cut(
    full: RecoveryParse,
    part: RecoveryParse,
    missing: Seq<u8>,
    field: &'static str,
)
    requires
        cut(full, part, missing),
    ensures
        cut_step(step_positive(full, field), step_positive(part, field), missing),
{
    lemma_u64_cut(full, part, missing, field);
}

proof fn lemma_namespace_cut(
    full: RecoveryParse,
    part: RecoveryParse,
    missing: Seq<u8>,
    version: u8,
)
    requires
        cut(full, part, missing),
    ensures
        cut_step(step_namespace(full, version), step_namespace(part, version), missing),
{
    if version == RECOVERY_OUTBOX_VALUE_FORMAT_VERSION {
        lemma_id_cut(full, part, missing, "object_namespace_id");
    }
}

proof fn lemma_head_cut(
    full: RecoveryParse,
    part: RecoveryParse,
    missing: Seq<u8>,
    version: u8,
)
    requires
        cut(full, part, missing),
    ensures
        cut_step(step_head(full, version), step_head(part, version), missing),
{
    reveal(step_head);
    lemma_bytes_cut(full, part, missing, "schema_id", MAX_RECOVERY_BYTES);
    let (schema, f1) = step_bytes(full, "schema_id", MAX_RECOVERY_BYTES);
    let (schema_part, p1) = step_bytes(part, "schema_id", MAX_RECOVERY_BYTES);
    let error = RecoveryCodecError::InvalidValue { field: "schema_id" };
    let f2 = check(f1, text_of(schema) is Some, error);
    let p2 = check(p1, text_of(schema_part) is Some, error);
    lemma_id_cut(f2, p2, missing, "root_id");
    let f3 = step_id(f2, "root_id").1;
    let p3 = step_id(p2, "root_id").1;
    lemma_id_cut(f3, p3, missing, "logical_shard_id");
    let f4 = step_id(f3, "logical_shard_id").1;
    let p4 = step_id(p3, "logical_shard_id").1;
    lemma_namespace_cut(f4, p4, missing, version);
    let f5 = step_namespace(f4, version).1;
    let p5 = step_namespace(p4, version).1;
    lemma_positive_cut(f5, p5, missing, "placement_generation");
    let f6 = step_positive(f5, "placement_generation").1;
    let p6 = step_positive(p5, "placement_generation").1;
    lemma_positive_cut(f6, p6, missing, "owner_epoch");
    let f7 = step_positive(f6, "owner_epoch").1;
    let p7 = step_positive(p6, "owner_epoch").1;
    lemma_id_cut(f7, p7, missing, "request_id");
    let f8 = step_id(f7, "request_id").1;
    let p8 = step_id(p7, "request_id").1;
    lemma_digest_cut(f8, p8, missing, "command_digest");
    let f9 = step_digest(f8, "command_digest").1;
    let p9 = step_digest(p8, "command_digest").1;
    lemma_positive_cut(f9, p9, missing, "read_version");
}

proof fn lemma_body_cut(
    full: RecoveryParse,
    part: RecoveryParse,
    missing: Seq<u8>,
)
    requires
        cut(full, part, missing),
    ensures
        cut_step(step_body(full), step_body(part), missing),
{
    reveal(step_body);
    lemma_root_action_cut(full, part, missing);
    let f1 = step_root_action(full).1;
    let p1 = step_root_action(part).1;
    lemma_list_cut::<CommandPredicate>(f1, p1, missing, "predicates");
    let f2 = step_list::<CommandPredicate>(f1, "predicates").1;
    let p2 = step_list::<CommandPredicate>(p1, "predicates").1;
    lemma_list_cut::<CommandMutation>(f2, p2, missing, "mutations");
    let f3 = step_list::<CommandMutation>(f2, "mutations").1;
    let p3 = step_list::<CommandMutation>(p2, "mutations").1;
    lemma_list_cut::<HistoryProjection>(f3, p3, missing, "history_projection");
    let f4 = step_list::<HistoryProjection>(f3, "history_projection").1;
    let p4 = step_list::<HistoryProjection>(p3, "history_projection").1;
    lemma_list_cut::<EventProjection>(f4, p4, missing, "event_projection");
    let f5 = step_list::<EventProjection>(f4, "event_projection").1;
    let p5 = step_list::<EventProjection>(p4, "event_projection").1;
    lemma_bytes_cut(f5, p5, missing, "deterministic_result", MAX_RECOVERY_BYTES);
}

proof fn lemma_clock_mutation_cut(
    full: RecoveryParse,
    part: RecoveryParse,
    missing: Seq<u8>,
)
    requires
        cut(full, part, missing),
    ensures
        cut_step(step_clock_mutation(full), step_clock_mutation(part), missing),
{
    lemma_id_cut(full, part, missing, "root_id");
    let f1 = step_id(full, "root_id").1;
    let p1 = step_id(part, "root_id").1;
    lemma_positive_cut(f1, p1, missing, "placement_generation");
    let f2 = step_positive(f1, "placement_generation").1;
    let p2 = step_positive(p1, "placement_generation").1;
    lemma_positive_cut(f2, p2, missing, "owner_epoch");
    let f3 = step_positive(f2, "owner_epoch").1;
    let p3 = step_positive(p2, "owner_epoch").1;
    lemma_u64_cut(f3, p3, missing, "observed_ms");
}

proof fn lemma_owner_mutation_cut(
    full: RecoveryParse,
    part: RecoveryParse,
    missing: Seq<u8>,
)
    requires
        cut(full, part, missing),
    ensures
        cut_step(step_owner_mutation(full), step_owner_mutation(part), missing),
{
    lemma_optional_u64_cut(full, part, missing, "expected_owner_epoch");
    let (expected, f1) = step_optional_u64(full, "expected_owner_epoch");
    let (expected_part, p1) = step_optional_u64(part, "expected_owner_epoch");
    let error = RecoveryCodecError::ZeroScalar { field: "expected_owner_epoch" };
    lemma_positive_cut(
        check(f1, expected != Some(0u64), error),
        check(p1, expected_part != Some(0u64), error),
        missing,
        "next_owner_epoch",
    );
}

/// A command mutation behind its kind byte, up to its digest's check.
proof fn lemma_command_mutation_cut(
    full: RecoveryParse,
    part: RecoveryParse,
    missing: Seq<u8>,
    version: u8,
    digest: Seq<u8>,
    other: Seq<u8>,
)
    requires
        cut(full, part, missing),
        missing.len() > 0,
    ensures
        cut(
            step_command_mutation(full, version, digest).1,
            step_command_mutation(part, version, digest).1,
            missing,
        ),
        step_end(step_command_mutation(full, version, digest).1).err is None ==> truncated(
            step_command_mutation(part, version, other).1,
        ),
{
    broadcast use {lemma_body_after_failure, lemma_head_after_failure};

    lemma_head_cut(full, part, missing, version);
    let f1 = step_head(full, version).1;
    let p1 = step_head(part, version).1;
    lemma_body_cut(f1, p1, missing);
    let f2 = step_body(f1).1;
    let p2 = step_body(p1).1;
    lemma_optional_u64_cut(f2, p2, missing, "lease_deadline_ms");
}

proof fn lemma_mutation_cut(
    full: RecoveryParse,
    part: RecoveryParse,
    missing: Seq<u8>,
    version: u8,
    digest: Seq<u8>,
    other: Seq<u8>,
)
    requires
        cut(full, part, missing),
        missing.len() > 0,
    ensures
        cut(
            step_mutation(full, version, digest).1,
            step_mutation(part, version, digest).1,
            missing,
        ),
        step_end(step_mutation(full, version, digest).1).err is None ==> truncated(
            step_mutation(part, version, other).1,
        ),
{
    broadcast use {lemma_body_after_failure, lemma_head_after_failure};

    lemma_u8_cut(full, part, missing, "mutation_kind");
    let f1 = step_u8(full, "mutation_kind").1;
    let p1 = step_u8(part, "mutation_kind").1;
    lemma_command_mutation_cut(f1, p1, missing, version, digest, other);
    lemma_clock_mutation_cut(f1, p1, missing);
    lemma_owner_mutation_cut(f1, p1, missing);
}

/// A stored recovery mutation with any of its last bytes lost is refused as
/// truncated, whatever digest what is left of it is held against.
pub proof fn mutation_prefixes_are_truncated(
    bytes: Seq<u8>,
    n: int,
    version: u8,
    canonical_digest: Seq<u8>,
    other_digest: Seq<u8>,
)
    requires
        parse_mutation(bytes, version, canonical_digest) is Ok,
        0 <= n < bytes.len(),
    ensures
        parse_mutation(bytes.take(n), version, other_digest) matches Err(
            RecoveryCodecError::Truncated { .. },
        ),
{
    lemma_split_at(bytes, n);
    lemma_mutation_cut(
        start(bytes),
        start(bytes.take(n)),
        bytes.skip(n),
        version,
        canonical_digest,
        other_digest,
    );
}

/// A stored recovery mutation with bytes behind it is refused for them, and
/// their number is reported, as long as all of it is within the limit of
/// recovery material.
pub proof fn mutation_rejects_trailing_bytes(
    bytes: Seq<u8>,
    tail: Seq<u8>,
    version: u8,
    canonical_digest: Seq<u8>,
)
    requires
        parse_mutation(bytes, version, canonical_digest) is Ok,
        tail.len() > 0,
        bytes.len() + tail.len() <= MAX_RECOVERY_BYTES,
    ensures
        parse_mutation(bytes + tail, version, canonical_digest) == Err::<
            RecoveryMutationView,
            RecoveryCodecError,
        >(RecoveryCodecError::TrailingBytes { count: tail.len() as usize }),
{
    lemma_mutation_cut(
        start(bytes + tail),
        start(bytes),
        tail,
        version,
        canonical_digest,
        canonical_digest,
    );
    lemma_end_cut(
        step_mutation(start(bytes + tail), version, canonical_digest).1,
        step_mutation(start(bytes), version, canonical_digest).1,
        tail,
    );
}

} // verus!
