//! Where a stored publication record ends: one that lost its last bytes is
//! reported as truncated, and bytes behind one are reported as trailing.

use crate::ids::{GcClaimState, RevisionState, WorkspaceState};
use crate::publication_records::{check_fault, dependency_fault, parse_artifact_revision,
    parse_gc_candidate, parse_incarnation_claim, parse_path_entry, parse_revision_claim,
    parse_revision_ref, parse_workspace, step_commit_version, step_optional_bytes,
    step_optional_string, step_optional_version, step_standing, step_string, step_version,
    PublicationRecordCodecError, MAX_CONTENT_TYPE_BYTES, MAX_DIGEST_URI_BYTES,
    MAX_INDEX_PROJECTION_BYTES, MAX_MANIFEST_ID_BYTES, MAX_PRODUCER_BYTES,
    MAX_QUARANTINE_EVIDENCE_BYTES};
use crate::text::{text_of, workbench_id_fault, MAX_WORKBENCH_ID_BYTES};
use crate::wire::{check, cut, cut_step, lemma_bytes_cut, lemma_digest_cut, lemma_end_cut,
    lemma_id_cut, lemma_optional_id_cut, lemma_split_at, lemma_tag_cut, lemma_u32_cut,
    lemma_u64_cut, lemma_u8_cut, start, step_bytes, step_digest, step_id, step_optional_id,
    step_tag, step_u32, step_u64, step_u8, Parse};
use vstd::prelude::*;

verus! {

/// Whether bytes were refused because some of a record are missing.
pub open spec fn cut_short<T>(result: Result<T, PublicationRecordCodecError>) -> bool {
    result matches Err(PublicationRecordCodecError::Truncated { .. })
}

/// Whether bytes were refused because `count` of them stand behind a record.
pub open spec fn overlong<T>(result: Result<T, PublicationRecordCodecError>, count: nat) -> bool {
    result == Err::<T, PublicationRecordCodecError>(
        PublicationRecordCodecError::TrailingBytes { count: count as usize },
    )
}

proof fn lemma_version_cut(
    full: Parse<PublicationRecordCodecError>,
    part: Parse<PublicationRecordCodecError>,
    missing: Seq<u8>,
)
    requires
        cut(full, part, missing),
    ensures
        cut(step_version(full), step_version(part), missing),
{
    lemma_u8_cut(full, part, missing, "value_format_version");
}

proof fn lemma_commit_version_cut(
    full: Parse<PublicationRecordCodecError>,
    part: Parse<PublicationRecordCodecError>,
    missing: Seq<u8>,
    field: &'static str,
)
    requires
        cut(full, part, missing),
    ensures
        cut_step(step_commit_version(full, field), step_commit_version(part, field), missing),
{
    lemma_u64_cut(full, part, missing, field);
}

proof fn lemma_string_cut(
    full: Parse<PublicationRecordCodecError>,
    part: Parse<PublicationRecordCodecError>,
    missing: Seq<u8>,
    field: &'static str,
    max: usize,
)
    requires
        cut(full, part, missing),
    ensures
        cut_step(step_string(full, field, max), step_string(part, field, max), missing),
{
    lemma_bytes_cut(full, part, missing, field, max);
}

proof fn lemma_optional_string_cut(
    full: Parse<PublicationRecordCodecError>,
    part: Parse<PublicationRecordCodecError>,
    missing: Seq<u8>,
    field: &'static str,
    max: usize,
)
    requires
        cut(full, part, missing),
    ensures
        cut_step(
            step_optional_string(full, field, max),
            step_optional_string(part, field, max),
            missing,
        ),
{
    lemma_tag_cut(full, part, missing, field);
    lemma_string_cut(step_tag(full, field).1, step_tag(part, field).1, missing, field, max);
}

proof fn lemma_optional_bytes_cut(
    full: Parse<PublicationRecordCodecError>,
    part: Parse<PublicationRecordCodecError>,
    missing: Seq<u8>,
    field: &'static str,
    max: usize,
)
    requires
        cut(full, part, missing),
    ensures
        cut_step(
            step_optional_bytes(full, field, max),
            step_optional_bytes(part, field, max),
            missing,
        ),
{
    lemma_tag_cut(full, part, missing, field);
    lemma_bytes_cut(step_tag(full, field).1, step_tag(part, field).1, missing, field, max);
}

proof fn lemma_optional_version_cut(
    full: Parse<PublicationRecordCodecError>,
    part: Parse<PublicationRecordCodecError>,
    missing: Seq<u8>,
    field: &'static str,
)
    requires
        cut(full, part, missing),
    ensures
        cut_step(step_optional_version(full, field), step_optional_version(part, field), missing),
{
    lemma_tag_cut(full, part, missing, field);
    lemma_commit_version_cut(step_tag(full, field).1, step_tag(part, field).1, missing, field);
}

/// Reading the bytes of a record cut short against reading all of them.
proof fn lemma_workspace_cut(whole: Seq<u8>, bytes: Seq<u8>, missing: Seq<u8>)
    requires
        whole == bytes + missing,
        missing.len() > 0,
    ensures
        parse_workspace(whole) is Ok ==> cut_short(parse_workspace(bytes)),
        parse_workspace(bytes) is Ok ==> overlong(parse_workspace(whole), missing.len()),
{
    assert(cut::<PublicationRecordCodecError>(start(whole), start(bytes), missing));
    lemma_version_cut(start(whole), start(bytes), missing);
    let f0 = step_version(start(whole));
    let p0 = step_version(start(bytes));
    let f1 = step_id(f0, "incarnation_id").1;
    let p1 = step_id(p0, "incarnation_id").1;
    lemma_id_cut(f0, p0, missing, "incarnation_id");
    let f2 = step_u64(f1, "workspace_revision").1;
    let p2 = step_u64(p1, "workspace_revision").1;
    lemma_u64_cut(f1, p1, missing, "workspace_revision");
    let (tag, f3) = step_u8(f2, "state");
    let (tag_part, p3) = step_u8(p2, "state");
    lemma_u8_cut(f2, p2, missing, "state");
    let state = WorkspaceState::spec_from_tag(tag);
    let state_part = WorkspaceState::spec_from_tag(tag_part);
    let f4 = check(
        f3,
        state is Some,
        PublicationRecordCodecError::UnknownDiscriminant {
            type_label: "WorkspaceState",
            value: tag,
        },
    );
    let p4 = check(
        p3,
        state_part is Some,
        PublicationRecordCodecError::UnknownDiscriminant {
            type_label: "WorkspaceState",
            value: tag_part,
        },
    );
    let f5 = step_optional_id(f4, "owning_operation_id").1;
    let p5 = step_optional_id(p4, "owning_operation_id").1;
    lemma_optional_id_cut(f4, p4, missing, "owning_operation_id");
    lemma_end_cut(f5, p5, missing);
}

/// A stored workspace with any of its last bytes lost is reported as truncated.
pub proof fn workspace_prefixes_are_truncated(bytes: Seq<u8>, n: int)
    requires
        parse_workspace(bytes) is Ok,
        0 <= n < bytes.len(),
    ensures
        cut_short(parse_workspace(bytes.take(n))),
{
    lemma_split_at(bytes, n);
    lemma_workspace_cut(bytes, bytes.take(n), bytes.skip(n));
}

/// A stored workspace with bytes behind it is refused for them, and their number is
/// reported.
pub proof fn workspace_rejects_trailing_bytes(bytes: Seq<u8>, tail: Seq<u8>)
    requires
        parse_workspace(bytes) is Ok,
        0 < tail.len() <= usize::MAX,
    ensures
        overlong(parse_workspace(bytes + tail), tail.len()),
{
    lemma_workspace_cut(bytes + tail, bytes, tail);
}

/// Reading the bytes of a record cut short against reading all of them.
proof fn lemma_incarnation_claim_cut(whole: Seq<u8>, bytes: Seq<u8>, missing: Seq<u8>)
    requires
        whole == bytes + missing,
        missing.len() > 0,
    ensures
        parse_incarnation_claim(whole) is Ok ==> cut_short(parse_incarnation_claim(bytes)),
        parse_incarnation_claim(bytes) is Ok ==> overlong(
            parse_incarnation_claim(whole),
            missing.len(),
        ),
{
    assert(cut::<PublicationRecordCodecError>(start(whole), start(bytes), missing));
    lemma_version_cut(start(whole), start(bytes), missing);
    let f0 = step_version(start(whole));
    let p0 = step_version(start(bytes));
    let (name, f1) = step_bytes(f0, "workbench_id", MAX_WORKBENCH_ID_BYTES);
    let (name_part, p1) = step_bytes(p0, "workbench_id", MAX_WORKBENCH_ID_BYTES);
    lemma_bytes_cut(f0, p0, missing, "workbench_id", MAX_WORKBENCH_ID_BYTES);
    let f2 = check(
        f1,
        text_of(name) is Some,
        PublicationRecordCodecError::InvalidUtf8 { field: "workbench_id" },
    );
    let p2 = check(
        p1,
        text_of(name_part) is Some,
        PublicationRecordCodecError::InvalidUtf8 { field: "workbench_id" },
    );
    let text = text_of(name).unwrap();
    let text_part = text_of(name_part).unwrap();
    let fault = workbench_id_fault(text);
    let fault_part = workbench_id_fault(text_part);
    let f3 = check(
        f2,
        fault is None,
        PublicationRecordCodecError::InvalidWorkbenchId { reason: fault.unwrap().reason },
    );
    let p3 = check(
        p2,
        fault_part is None,
        PublicationRecordCodecError::InvalidWorkbenchId { reason: fault_part.unwrap().reason },
    );
    lemma_end_cut(f3, p3, missing);
}

/// A stored incarnation claim with any of its last bytes lost is reported as truncated.
pub proof fn incarnation_claim_prefixes_are_truncated(bytes: Seq<u8>, n: int)
    requires
        parse_incarnation_claim(bytes) is Ok,
        0 <= n < bytes.len(),
    ensures
        cut_short(parse_incarnation_claim(bytes.take(n))),
{
    lemma_split_at(bytes, n);
    lemma_incarnation_claim_cut(bytes, bytes.take(n), bytes.skip(n));
}

/// A stored incarnation claim with bytes behind it is refused for them, and their number is
/// reported.
pub proof fn incarnation_claim_rejects_trailing_bytes(bytes: Seq<u8>, tail: Seq<u8>)
    requires
        parse_incarnation_claim(bytes) is Ok,
        0 < tail.len() <= usize::MAX,
    ensures
        overlong(parse_incarnation_claim(bytes + tail), tail.len()),
{
    lemma_incarnation_claim_cut(bytes + tail, bytes, tail);
}

/// Reading the bytes of a record cut short against reading all of them.
proof fn lemma_revision_claim_cut(whole: Seq<u8>, bytes: Seq<u8>, missing: Seq<u8>)
    requires
        whole == bytes + missing,
        missing.len() > 0,
    ensures
        parse_revision_claim(whole) is Ok ==> cut_short(parse_revision_claim(bytes)),
        parse_revision_claim(bytes) is Ok ==> overlong(parse_revision_claim(whole), missing.len()),
{
    assert(cut::<PublicationRecordCodecError>(start(whole), start(bytes), missing));
    lemma_version_cut(start(whole), start(bytes), missing);
    let f0 = step_version(start(whole));
    let p0 = step_version(start(bytes));
    let f1 = step_id(f0, "operation_id").1;
    let p1 = step_id(p0, "operation_id").1;
    lemma_id_cut(f0, p0, missing, "operation_id");
    lemma_end_cut(f1, p1, missing);
}

/// A stored revision claim with any of its last bytes lost is reported as truncated.
pub proof fn revision_claim_prefixes_are_truncated(bytes: Seq<u8>, n: int)
    requires
        parse_revision_claim(bytes) is Ok,
        0 <= n < bytes.len(),
    ensures
        cut_short(parse_revision_claim(bytes.take(n))),
{
    lemma_split_at(bytes, n);
    lemma_revision_claim_cut(bytes, bytes.take(n), bytes.skip(n));
}

/// A stored revision claim with bytes behind it is refused for them, and their number is
/// reported.
pub proof fn revision_claim_rejects_trailing_bytes(bytes: Seq<u8>, tail: Seq<u8>)
    requires
        parse_revision_claim(bytes) is Ok,
        0 < tail.len() <= usize::MAX,
    ensures
        overlong(parse_revision_claim(bytes + tail), tail.len()),
{
    lemma_revision_claim_cut(bytes + tail, bytes, tail);
}

/// Reading the bytes of a record cut short against reading all of them.
proof fn lemma_revision_ref_cut(whole: Seq<u8>, bytes: Seq<u8>, missing: Seq<u8>)
    requires
        whole == bytes + missing,
        missing.len() > 0,
    ensures
        parse_revision_ref(whole) is Ok ==> cut_short(parse_revision_ref(bytes)),
        parse_revision_ref(bytes) is Ok ==> overlong(parse_revision_ref(whole), missing.len()),
{
    assert(cut::<PublicationRecordCodecError>(start(whole), start(bytes), missing));
    lemma_version_cut(start(whole), start(bytes), missing);
    let f0 = step_version(start(whole));
    let p0 = step_version(start(bytes));
    let f1 = step_u64(f0, "reference_epoch_at_add").1;
    let p1 = step_u64(p0, "reference_epoch_at_add").1;
    lemma_u64_cut(f0, p0, missing, "reference_epoch_at_add");
    lemma_end_cut(f1, p1, missing);
}

/// A stored revision reference with any of its last bytes lost is reported as truncated.
pub proof fn revision_ref_prefixes_are_truncated(bytes: Seq<u8>, n: int)
    requires
        parse_revision_ref(bytes) is Ok,
        0 <= n < bytes.len(),
    ensures
        cut_short(parse_revision_ref(bytes.take(n))),
{
    lemma_split_at(bytes, n);
    lemma_revision_ref_cut(bytes, bytes.take(n), bytes.skip(n));
}

/// A stored revision reference with bytes behind it is refused for them, and their number is
/// reported.
pub proof fn revision_ref_rejects_trailing_bytes(bytes: Seq<u8>, tail: Seq<u8>)
    requires
        parse_revision_ref(bytes) is Ok,
        0 < tail.len() <= usize::MAX,
    ensures
        overlong(parse_revision_ref(bytes + tail), tail.len()),
{
    lemma_revision_ref_cut(bytes + tail, bytes, tail);
}

/// Reading the bytes of a record cut short against reading all of them.
proof fn lemma_path_entry_cut(whole: Seq<u8>, bytes: Seq<u8>, missing: Seq<u8>)
    requires
        whole == bytes + missing,
        missing.len() > 0,
    ensures
        parse_path_entry(whole) is Ok ==> cut_short(parse_path_entry(bytes)),
        parse_path_entry(bytes) is Ok ==> overlong(parse_path_entry(whole), missing.len()),
{
    assert(cut::<PublicationRecordCodecError>(start(whole), start(bytes), missing));
    lemma_version_cut(start(whole), start(bytes), missing);
    let f0 = step_version(start(whole));
    let p0 = step_version(start(bytes));
    let (generation, f1) = step_u64(f0, "generation");
    let (generation_part, p1) = step_u64(p0, "generation");
    lemma_u64_cut(f0, p0, missing, "generation");
    let f2 = check(
        f1,
        generation != 0,
        PublicationRecordCodecError::ZeroScalar { field: "generation" },
    );
    let p2 = check(
        p1,
        generation_part != 0,
        PublicationRecordCodecError::ZeroScalar { field: "generation" },
    );
    let f3 = step_id(f2, "index_generation").1;
    let p3 = step_id(p2, "index_generation").1;
    lemma_id_cut(f2, p2, missing, "index_generation");
    let f4 = step_digest(f3, "path_digest").1;
    let p4 = step_digest(p3, "path_digest").1;
    lemma_digest_cut(f3, p3, missing, "path_digest");
    let f5 = step_id(f4, "artifact_revision_id").1;
    let p5 = step_id(p4, "artifact_revision_id").1;
    lemma_id_cut(f4, p4, missing, "artifact_revision_id");
    let f6 = step_string(f5, "body_digest_uri", MAX_DIGEST_URI_BYTES).1;
    let p6 = step_string(p5, "body_digest_uri", MAX_DIGEST_URI_BYTES).1;
    lemma_string_cut(f5, p5, missing, "body_digest_uri", MAX_DIGEST_URI_BYTES);
    let f7 = step_string(f6, "manifest_digest_uri", MAX_DIGEST_URI_BYTES).1;
    let p7 = step_string(p6, "manifest_digest_uri", MAX_DIGEST_URI_BYTES).1;
    lemma_string_cut(f6, p6, missing, "manifest_digest_uri", MAX_DIGEST_URI_BYTES);
    let f8 = step_u64(f7, "logical_size").1;
    let p8 = step_u64(p7, "logical_size").1;
    lemma_u64_cut(f7, p7, missing, "logical_size");
    let (count, f9) = step_u32(f8, "dependency_count");
    let (count_part, p9) = step_u32(p8, "dependency_count");
    lemma_u32_cut(f8, p8, missing, "dependency_count");
    let (depth, f10) = step_u8(f9, "dependency_depth");
    let (depth_part, p10) = step_u8(p9, "dependency_depth");
    lemma_u8_cut(f9, p9, missing, "dependency_depth");
    let f11 = check_fault(f10, dependency_fault(count, depth));
    let p11 = check_fault(p10, dependency_fault(count_part, depth_part));
    let f12 = step_string(f11, "content_type", MAX_CONTENT_TYPE_BYTES).1;
    let p12 = step_string(p11, "content_type", MAX_CONTENT_TYPE_BYTES).1;
    lemma_string_cut(f11, p11, missing, "content_type", MAX_CONTENT_TYPE_BYTES);
    let f13 = step_optional_string(f12, "producer", MAX_PRODUCER_BYTES).1;
    let p13 = step_optional_string(p12, "producer", MAX_PRODUCER_BYTES).1;
    lemma_optional_string_cut(f12, p12, missing, "producer", MAX_PRODUCER_BYTES);
    let f14 = step_optional_string(f13, "manifest_id", MAX_MANIFEST_ID_BYTES).1;
    let p14 = step_optional_string(p13, "manifest_id", MAX_MANIFEST_ID_BYTES).1;
    lemma_optional_string_cut(f13, p13, missing, "manifest_id", MAX_MANIFEST_ID_BYTES);
    let f15 = step_bytes(
        f14,
        "typed_index_projection",
        MAX_INDEX_PROJECTION_BYTES,
    ).1;
    let p15 = step_bytes(
        p14,
        "typed_index_projection",
        MAX_INDEX_PROJECTION_BYTES,
    ).1;
    lemma_bytes_cut(f14, p14, missing, "typed_index_projection", MAX_INDEX_PROJECTION_BYTES);
    lemma_end_cut(f15, p15, missing);
}

/// A stored path entry with any of its last bytes lost is reported as truncated.
pub proof fn path_entry_prefixes_are_truncated(bytes: Seq<u8>, n: int)
    requires
        parse_path_entry(bytes) is Ok,
        0 <= n < bytes.len(),
    ensures
        cut_short(parse_path_entry(bytes.take(n))),
{
    lemma_split_at(bytes, n);
    lemma_path_entry_cut(bytes, bytes.take(n), bytes.skip(n));
}

/// A stored path entry with bytes behind it is refused for them, and their number is
/// reported.
pub proof fn path_entry_rejects_trailing_bytes(bytes: Seq<u8>, tail: Seq<u8>)
    requires
        parse_path_entry(bytes) is Ok,
        0 < tail.len() <= usize::MAX,
    ensures
        overlong(parse_path_entry(bytes + tail), tail.len()),
{
    lemma_path_entry_cut(bytes + tail, bytes, tail);
}

proof fn lemma_standing_cut(
    full: Parse<PublicationRecordCodecError>,
    part: Parse<PublicationRecordCodecError>,
    missing: Seq<u8>,
)
    requires
        cut(full, part, missing),
    ensures
        cut_step(step_standing(full), step_standing(part), missing),
{
    reveal(step_standing);
    lemma_u8_cut(full, part, missing, "state");
    let (tag, f1) = step_u8(full, "state");
    let (tag_part, p1) = step_u8(part, "state");
    let f2 = check(
        f1,
        RevisionState::spec_from_tag(tag) is Some,
        PublicationRecordCodecError::UnknownDiscriminant {
            type_label: "RevisionState",
            value: tag,
        },
    );
    let p2 = check(
        p1,
        RevisionState::spec_from_tag(tag_part) is Some,
        PublicationRecordCodecError::UnknownDiscriminant {
            type_label: "RevisionState",
            value: tag_part,
        },
    );
    lemma_u64_cut(f2, p2, missing, "reference_epoch");
    let f3 = step_u64(f2, "reference_epoch").1;
    let p3 = step_u64(p2, "reference_epoch").1;
    lemma_u64_cut(f3, p3, missing, "strong_reference_count");
    let f4 = step_u64(f3, "strong_reference_count").1;
    let p4 = step_u64(p3, "strong_reference_count").1;
    lemma_optional_version_cut(f4, p4, missing, "last_zero_ref_version");
}

/// Reading the bytes of a record cut short against reading all of them.
proof fn lemma_artifact_revision_cut(whole: Seq<u8>, bytes: Seq<u8>, missing: Seq<u8>)
    requires
        whole == bytes + missing,
        missing.len() > 0,
    ensures
        parse_artifact_revision(whole) is Ok ==> cut_short(parse_artifact_revision(bytes)),
        parse_artifact_revision(bytes) is Ok ==> overlong(
            parse_artifact_revision(whole),
            missing.len(),
        ),
{
    assert(cut::<PublicationRecordCodecError>(start(whole), start(bytes), missing));
    lemma_version_cut(start(whole), start(bytes), missing);
    let f0 = step_version(start(whole));
    let p0 = step_version(start(bytes));
    let f1 = step_u64(f0, "logical_size").1;
    let p1 = step_u64(p0, "logical_size").1;
    lemma_u64_cut(f0, p0, missing, "logical_size");
    let f2 = step_string(f1, "body_digest_uri", MAX_DIGEST_URI_BYTES).1;
    let p2 = step_string(p1, "body_digest_uri", MAX_DIGEST_URI_BYTES).1;
    lemma_string_cut(f1, p1, missing, "body_digest_uri", MAX_DIGEST_URI_BYTES);
    let f3 = step_string(f2, "manifest_digest_uri", MAX_DIGEST_URI_BYTES).1;
    let p3 = step_string(p2, "manifest_digest_uri", MAX_DIGEST_URI_BYTES).1;
    lemma_string_cut(f2, p2, missing, "manifest_digest_uri", MAX_DIGEST_URI_BYTES);
    let f4 = step_u64(f3, "block_count").1;
    let p4 = step_u64(p3, "block_count").1;
    lemma_u64_cut(f3, p3, missing, "block_count");
    let (count, f5) = step_u32(f4, "dependency_count");
    let (count_part, p5) = step_u32(p4, "dependency_count");
    lemma_u32_cut(f4, p4, missing, "dependency_count");
    let (depth, f6) = step_u8(f5, "dependency_depth");
    let (depth_part, p6) = step_u8(p5, "dependency_depth");
    lemma_u8_cut(f5, p5, missing, "dependency_depth");
    let f7 = check_fault(f6, dependency_fault(count, depth));
    let p7 = check_fault(p6, dependency_fault(count_part, depth_part));
    let f8 = step_digest(f7, "dependency_digest").1;
    let p8 = step_digest(p7, "dependency_digest").1;
    lemma_digest_cut(f7, p7, missing, "dependency_digest");
    let f9 = step_string(f8, "content_type", MAX_CONTENT_TYPE_BYTES).1;
    let p9 = step_string(p8, "content_type", MAX_CONTENT_TYPE_BYTES).1;
    lemma_string_cut(f8, p8, missing, "content_type", MAX_CONTENT_TYPE_BYTES);
    let f10 = step_standing(f9).1;
    let p10 = step_standing(p9).1;
    lemma_standing_cut(f9, p9, missing);
    lemma_end_cut(f10, p10, missing);
}

/// A stored artifact revision with any of its last bytes lost is reported as truncated.
pub proof fn artifact_revision_prefixes_are_truncated(bytes: Seq<u8>, n: int)
    requires
        parse_artifact_revision(bytes) is Ok,
        0 <= n < bytes.len(),
    ensures
        cut_short(parse_artifact_revision(bytes.take(n))),
{
    lemma_split_at(bytes, n);
    lemma_artifact_revision_cut(bytes, bytes.take(n), bytes.skip(n));
}

/// A stored artifact revision with bytes behind it is refused for them, and their number is
/// reported.
pub proof fn artifact_revision_rejects_trailing_bytes(bytes: Seq<u8>, tail: Seq<u8>)
    requires
        parse_artifact_revision(bytes) is Ok,
        0 < tail.len() <= usize::MAX,
    ensures
        overlong(parse_artifact_revision(bytes + tail), tail.len()),
{
    lemma_artifact_revision_cut(bytes + tail, bytes, tail);
}

/// Reading the bytes of a record cut short against reading all of them.
proof fn lemma_gc_candidate_cut(whole: Seq<u8>, bytes: Seq<u8>, missing: Seq<u8>)
    requires
        whole == bytes + missing,
        missing.len() > 0,
    ensures
        parse_gc_candidate(whole) is Ok ==> cut_short(parse_gc_candidate(bytes)),
        parse_gc_candidate(bytes) is Ok ==> overlong(parse_gc_candidate(whole), missing.len()),
{
    assert(cut::<PublicationRecordCodecError>(start(whole), start(bytes), missing));
    lemma_version_cut(start(whole), start(bytes), missing);
    let f0 = step_version(start(whole));
    let p0 = step_version(start(bytes));
    let f1 = step_commit_version(f0, "last_zero_ref_version").1;
    let p1 = step_commit_version(p0, "last_zero_ref_version").1;
    lemma_commit_version_cut(f0, p0, missing, "last_zero_ref_version");
    let (tag, f2) = step_u8(f1, "claim_state");
    let (tag_part, p2) = step_u8(p1, "claim_state");
    lemma_u8_cut(f1, p1, missing, "claim_state");
    let state = GcClaimState::spec_from_tag(tag);
    let state_part = GcClaimState::spec_from_tag(tag_part);
    let f3 = check(
        f2,
        state is Some,
        PublicationRecordCodecError::UnknownDiscriminant { type_label: "GcClaimState", value: tag },
    );
    let p3 = check(
        p2,
        state_part is Some,
        PublicationRecordCodecError::UnknownDiscriminant {
            type_label: "GcClaimState",
            value: tag_part,
        },
    );
    let f4 = step_u32(f3, "retry_count").1;
    let p4 = step_u32(p3, "retry_count").1;
    lemma_u32_cut(f3, p3, missing, "retry_count");
    let f5 = step_optional_bytes(
        f4,
        "quarantine_evidence",
        MAX_QUARANTINE_EVIDENCE_BYTES,
    ).1;
    let p5 = step_optional_bytes(
        p4,
        "quarantine_evidence",
        MAX_QUARANTINE_EVIDENCE_BYTES,
    ).1;
    lemma_optional_bytes_cut(f4, p4, missing, "quarantine_evidence", MAX_QUARANTINE_EVIDENCE_BYTES);
    lemma_end_cut(f5, p5, missing);
}

/// A stored collection candidate with any of its last bytes lost is reported as truncated.
pub proof fn gc_candidate_prefixes_are_truncated(bytes: Seq<u8>, n: int)
    requires
        parse_gc_candidate(bytes) is Ok,
        0 <= n < bytes.len(),
    ensures
        cut_short(parse_gc_candidate(bytes.take(n))),
{
    lemma_split_at(bytes, n);
    lemma_gc_candidate_cut(bytes, bytes.take(n), bytes.skip(n));
}

/// A stored collection candidate with bytes behind it is refused for them, and their number is
/// reported.
pub proof fn gc_candidate_rejects_trailing_bytes(bytes: Seq<u8>, tail: Seq<u8>)
    requires
        parse_gc_candidate(bytes) is Ok,
        0 < tail.len() <= usize::MAX,
    ensures
        overlong(parse_gc_candidate(bytes + tail), tail.len()),
{
    lemma_gc_candidate_cut(bytes + tail, bytes, tail);
}

} // verus!
