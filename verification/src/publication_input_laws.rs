//! What a publication may be begun with again: its digests cover every input
//! of a beginning, so the same inputs are answered from the stored operation
//! and other inputs are refused.

use crate::be::{be_bytes, lemma_be_bytes_len, lemma_be_round_trip, lemma_pow256_values, pow256};
use crate::digest::sha256_of;
use crate::ids::id_bytes;
use crate::publication_digests::{authority_bytes, claim_bytes, identity_input,
    initialization_input, is_sealed};
use crate::publication_error::PublicationError;
use crate::publication_laws::beginning_is_replayed;
use crate::publication_lifecycle::{begin_fault, begin_halt, begun, replay_candidate, same_inputs,
    BeginPublishRequest};
use crate::publication_plan::StopView;
use crate::publication_store::{publish_halt, publish_key, MetaShard};
use crate::publish_records::{PublishAuthority, PublishClaim, PublishOperationRecord, PublishPhase};
use crate::text::{lemma_utf8_injective, utf8};
use crate::wire::{lemma_concat_assoc, sized};
use vstd::prelude::*;

verus! {

/// Two operations that agree in everything that a beginning fixes.
pub open spec fn same_sealed_fields(a: PublishOperationRecord, b: PublishOperationRecord) -> bool {
    &&& a.operation_id == b.operation_id
    &&& a.initiating_owner_epoch == b.initiating_owner_epoch
    &&& a.authority == b.authority
    &&& a.workbench_id@ == b.workbench_id@
    &&& a.workspace_incarnation_id == b.workspace_incarnation_id
    &&& a.path@ == b.path@
    &&& a.artifact_revision_id == b.artifact_revision_id
    &&& a.claim == b.claim
    &&& a.staged_object_count == b.staged_object_count
    &&& a.staged_object_seal@ == b.staged_object_seal@
    &&& a.manifest_row_count == b.manifest_row_count
    &&& a.manifest_seal@ == b.manifest_seal@
    &&& a.dependency_count == b.dependency_count
    &&& a.dependency_depth == b.dependency_depth
    &&& a.dependency_digest@ == b.dependency_digest@
}

/// Two different byte strings with one digest.
pub open spec fn collide(a: Seq<u8>, b: Seq<u8>) -> bool {
    a != b && sha256_of(a) == sha256_of(b)
}

/// Two operations that differ although they have the same digests.
pub open spec fn inputs_collide(a: PublishOperationRecord, b: PublishOperationRecord) -> bool {
    collide(identity_input(a), identity_input(b)) || collide(
        initialization_input(a),
        initialization_input(b),
    )
}

pub proof fn lemma_same_head(a: Seq<u8>, b: Seq<u8>, x: Seq<u8>, y: Seq<u8>)
    requires
        a + x == b + y,
        a.len() == b.len(),
    ensures
        a == b,
        x == y,
{
    assert(a =~= (a + x).take(a.len() as int));
    assert(b =~= (b + y).take(a.len() as int));
    assert(x =~= (a + x).skip(a.len() as int));
    assert(y =~= (b + y).skip(a.len() as int));
}

pub proof fn lemma_same_number(a: nat, b: nat, n: nat, x: Seq<u8>, y: Seq<u8>)
    requires
        be_bytes(a, n) + x == be_bytes(b, n) + y,
        a < pow256(n),
        b < pow256(n),
    ensures
        a == b,
        x == y,
{
    lemma_be_round_trip(a, n);
    lemma_be_round_trip(b, n);
    lemma_same_head(be_bytes(a, n), be_bytes(b, n), x, y);
}

pub proof fn lemma_same_text(a: Seq<char>, b: Seq<char>, x: Seq<u8>, y: Seq<u8>)
    requires
        sized(utf8(a)) + x == sized(utf8(b)) + y,
        utf8(a).len() <= u32::MAX,
        utf8(b).len() <= u32::MAX,
    ensures
        a == b,
        x == y,
{
    lemma_pow256_values();
    let (s, t) = (utf8(a), utf8(b));
    lemma_concat_assoc(be_bytes(s.len(), 4), s, x);
    lemma_concat_assoc(be_bytes(t.len(), 4), t, y);
    lemma_same_number(s.len(), t.len(), 4, s + x, t + y);
    lemma_same_head(s, t, x, y);
    lemma_utf8_injective(a, b);
}

proof fn lemma_same_authority(a: PublishAuthority, b: PublishAuthority, x: Seq<u8>, y: Seq<u8>)
    requires
        authority_bytes(a) + x == authority_bytes(b) + y,
    ensures
        a == b,
        x == y,
{
    broadcast use lemma_be_bytes_len;

    lemma_pow256_values();
    let (s, t) = (authority_bytes(a), authority_bytes(b));
    assert((s + x)[0] == s[0]);
    assert((t + y)[0] == t[0]);
    lemma_same_head(s, t, x, y);
    match (a, b) {
        (
            PublishAuthority::CommitStaging { commit_operation_id: i },
            PublishAuthority::CommitStaging { commit_operation_id: j },
        ) => {
            lemma_same_head(seq![3u8], seq![3u8], id_bytes(i.bits), id_bytes(j.bits));
            lemma_be_round_trip(i.bits as nat, 16);
            lemma_be_round_trip(j.bits as nat, 16);
        },
        (
            PublishAuthority::RestoreStaging { restore_operation_id: i },
            PublishAuthority::RestoreStaging { restore_operation_id: j },
        ) => {
            lemma_same_head(seq![2u8], seq![2u8], id_bytes(i.bits), id_bytes(j.bits));
            lemma_be_round_trip(i.bits as nat, 16);
            lemma_be_round_trip(j.bits as nat, 16);
        },
        _ => {},
    }
}

spec fn claim_tag(claim: PublishClaim) -> u8 {
    match claim {
        PublishClaim::CreateOnly => 1,
        PublishClaim::ReplaceOnly { .. } => 2,
        PublishClaim::Append { .. } => 3,
    }
}

proof fn lemma_same_claim(a: PublishClaim, b: PublishClaim)
    requires
        claim_bytes(a) == claim_bytes(b),
    ensures
        a == b,
{
    broadcast use {lemma_be_bytes_len, lemma_concat_assoc};

    lemma_pow256_values();
    assert(claim_bytes(a)[0] == claim_tag(a));
    assert(claim_bytes(b)[0] == claim_tag(b));
    match (a, b) {
        (
            PublishClaim::ReplaceOnly { expected_generation: i },
            PublishClaim::ReplaceOnly { expected_generation: j },
        ) => {
            lemma_same_head(
                seq![2u8],
                seq![2u8],
                be_bytes(i.value as nat, 8),
                be_bytes(j.value as nat, 8),
            );
            lemma_be_round_trip(i.value as nat, 8);
            lemma_be_round_trip(j.value as nat, 8);
        },
        (
            PublishClaim::Append { expected_generation: i, base_revision_id: k, append_offset: m },
            PublishClaim::Append { expected_generation: j, base_revision_id: l, append_offset: n },
        ) => {
            let (s3, t3) = (be_bytes(m as nat, 8), be_bytes(n as nat, 8));
            let (s2, t2) = (id_bytes(k.bits) + s3, id_bytes(l.bits) + t3);
            let (s1, t1) = (be_bytes(i.value as nat, 8) + s2, be_bytes(j.value as nat, 8) + t2);
            assert(claim_bytes(a) == seq![3u8] + s1);
            assert(claim_bytes(b) == seq![3u8] + t1);
            lemma_same_head(seq![3u8], seq![3u8], s1, t1);
            lemma_same_number(i.value as nat, j.value as nat, 8, s2, t2);
            lemma_same_number(k.bits as nat, l.bits as nat, 16, s3, t3);
            lemma_be_round_trip(m as nat, 8);
            lemma_be_round_trip(n as nat, 8);
        },
        _ => {},
    }
}

/// The digest of a publication's identity covers its id, its owner's epoch,
/// its authority, its place, its revision and its claim: what two publications
/// put into it is the same only where all of these are.
pub proof fn identity_inputs_are_injective(a: PublishOperationRecord, b: PublishOperationRecord)
    requires
        a.wf(),
        b.wf(),
        identity_input(a) == identity_input(b),
    ensures
        a.operation_id == b.operation_id,
        a.initiating_owner_epoch == b.initiating_owner_epoch,
        a.authority == b.authority,
        a.workbench_id@ == b.workbench_id@,
        a.workspace_incarnation_id == b.workspace_incarnation_id,
        a.path@ == b.path@,
        a.artifact_revision_id == b.artifact_revision_id,
        a.claim == b.claim,
{
    lemma_pow256_values();
    let domain = utf8("nokv.publish.operation.identity.v3\0"@);
    let (s8, t8) = (claim_bytes(a.claim), claim_bytes(b.claim));
    let (s7, t7) = (
        id_bytes(a.artifact_revision_id.bits) + s8,
        id_bytes(b.artifact_revision_id.bits) + t8,
    );
    let (s6, t6) = (sized(utf8(a.path@)) + s7, sized(utf8(b.path@)) + t7);
    let (s5, t5) = (
        id_bytes(a.workspace_incarnation_id.bits) + s6,
        id_bytes(b.workspace_incarnation_id.bits) + t6,
    );
    let (s4, t4) = (sized(utf8(a.workbench_id@)) + s5, sized(utf8(b.workbench_id@)) + t5);
    let (s3, t3) = (authority_bytes(a.authority) + s4, authority_bytes(b.authority) + t4);
    let (s2, t2) = (
        be_bytes(a.initiating_owner_epoch.value as nat, 8) + s3,
        be_bytes(b.initiating_owner_epoch.value as nat, 8) + t3,
    );
    let (s1, t1) = (
        id_bytes(a.operation_id.bits) + s2,
        id_bytes(b.operation_id.bits) + t2,
    );
    assert(identity_input(a) == domain + s1 && identity_input(b) == domain + t1) by {
        broadcast use lemma_concat_assoc;

    }
    lemma_same_head(domain, domain, s1, t1);
    lemma_same_number(a.operation_id.bits as nat, b.operation_id.bits as nat, 16, s2, t2);
    lemma_same_number(
        a.initiating_owner_epoch.value as nat,
        b.initiating_owner_epoch.value as nat,
        8,
        s3,
        t3,
    );
    lemma_same_authority(a.authority, b.authority, s4, t4);
    lemma_same_text(a.workbench_id@, b.workbench_id@, s5, t5);
    lemma_same_number(
        a.workspace_incarnation_id.bits as nat,
        b.workspace_incarnation_id.bits as nat,
        16,
        s6,
        t6,
    );
    lemma_same_text(a.path@, b.path@, s7, t7);
    lemma_same_number(
        a.artifact_revision_id.bits as nat,
        b.artifact_revision_id.bits as nat,
        16,
        s8,
        t8,
    );
    lemma_same_claim(a.claim, b.claim);
}

/// The digest of a publication's plan covers its owner's epoch, its authority,
/// its workbench, its ledger, its manifest and its dependencies: what two
/// publications put into it is the same only where all of these are.
pub proof fn initialization_inputs_are_injective(
    a: PublishOperationRecord,
    b: PublishOperationRecord,
)
    requires
        a.wf(),
        b.wf(),
        initialization_input(a) == initialization_input(b),
    ensures
        a.initiating_owner_epoch == b.initiating_owner_epoch,
        a.authority == b.authority,
        a.workbench_id@ == b.workbench_id@,
        a.staged_object_count == b.staged_object_count,
        a.staged_object_seal@ == b.staged_object_seal@,
        a.manifest_row_count == b.manifest_row_count,
        a.manifest_seal@ == b.manifest_seal@,
        a.dependency_count == b.dependency_count,
        a.dependency_depth == b.dependency_depth,
        a.dependency_digest@ == b.dependency_digest@,
{
    lemma_pow256_values();
    let domain = utf8("nokv.publish.operation.initialization.v3\0"@);
    let (s10, t10) = (a.dependency_digest@, b.dependency_digest@);
    let (s9, t9) = (seq![a.dependency_depth] + s10, seq![b.dependency_depth] + t10);
    let (s8, t8) = (seq![a.dependency_count] + s9, seq![b.dependency_count] + t9);
    let (s7, t7) = (a.manifest_seal@ + s8, b.manifest_seal@ + t8);
    let (s6, t6) = (
        be_bytes(a.manifest_row_count as nat, 4) + s7,
        be_bytes(b.manifest_row_count as nat, 4) + t7,
    );
    let (s5, t5) = (a.staged_object_seal@ + s6, b.staged_object_seal@ + t6);
    let (s4, t4) = (
        be_bytes(a.staged_object_count as nat, 4) + s5,
        be_bytes(b.staged_object_count as nat, 4) + t5,
    );
    let (s3, t3) = (sized(utf8(a.workbench_id@)) + s4, sized(utf8(b.workbench_id@)) + t4);
    let (s2, t2) = (authority_bytes(a.authority) + s3, authority_bytes(b.authority) + t3);
    let (s1, t1) = (
        be_bytes(a.initiating_owner_epoch.value as nat, 8) + s2,
        be_bytes(b.initiating_owner_epoch.value as nat, 8) + t2,
    );
    assert(initialization_input(a) == domain + s1 && initialization_input(b) == domain + t1) by {
        broadcast use lemma_concat_assoc;

    }
    lemma_same_head(domain, domain, s1, t1);
    lemma_same_number(
        a.initiating_owner_epoch.value as nat,
        b.initiating_owner_epoch.value as nat,
        8,
        s2,
        t2,
    );
    lemma_same_authority(a.authority, b.authority, s3, t3);
    lemma_same_text(a.workbench_id@, b.workbench_id@, s4, t4);
    lemma_same_number(a.staged_object_count as nat, b.staged_object_count as nat, 4, s5, t5);
    lemma_same_head(a.staged_object_seal@, b.staged_object_seal@, s6, t6);
    lemma_same_number(a.manifest_row_count as nat, b.manifest_row_count as nat, 4, s7, t7);
    lemma_same_head(a.manifest_seal@, b.manifest_seal@, s8, t8);
    lemma_same_head(seq![a.dependency_count], seq![b.dependency_count], s9, t9);
    assert(seq![a.dependency_count][0] == seq![b.dependency_count][0]);
    lemma_same_head(seq![a.dependency_depth], seq![b.dependency_depth], s10, t10);
    assert(seq![a.dependency_depth][0] == seq![b.dependency_depth][0]);
}

/// A sealed operation has the inputs of a request where they agree in
/// everything that a beginning fixes, however far the operation has come, and
/// only there, unless two different inputs have one digest.
pub proof fn inputs_are_the_sealed_fields(
    stored: PublishOperationRecord,
    candidate: PublishOperationRecord,
)
    requires
        stored.wf(),
        candidate.wf(),
        is_sealed(stored),
    ensures
        same_sealed_fields(stored, candidate) ==> same_inputs(stored, candidate),
        same_inputs(stored, candidate) ==> same_sealed_fields(stored, candidate) || inputs_collide(
            stored,
            candidate,
        ),
{
    if identity_input(stored) == identity_input(candidate) {
        identity_inputs_are_injective(stored, candidate);
    }
    if initialization_input(stored) == initialization_input(candidate) {
        initialization_inputs_are_injective(stored, candidate);
    }
}

/// Beginning a durable operation's id again with other inputs is answered
/// with an input mismatch.
pub proof fn other_inputs_are_refused(store: MetaShard, request: BeginPublishRequest)
    requires
        begin_fault(request) is None,
        publish_halt(
            store,
            request.context.read_version,
            publish_key(request.context, request.operation.record),
        ) is None,
        begun(store, request) is Some,
        is_sealed(begun(store, request).unwrap()),
        !same_inputs(
            begun(store, request).unwrap(),
            replay_candidate(request.operation.record, begun(store, request).unwrap()),
        ),
    ensures
        begin_halt(store, request) == Some(
            StopView::Fail(PublicationError::OperationInputMismatch),
        ),
{
}

/// Beginning a durable operation's id again with any sealed field changed is
/// answered with an input mismatch, unless two different inputs have one
/// digest. The owner epoch of a published restore manifest does not count.
pub proof fn changed_beginnings_are_refused(store: MetaShard, request: BeginPublishRequest)
    requires
        begin_fault(request) is None,
        publish_halt(
            store,
            request.context.read_version,
            publish_key(request.context, request.operation.record),
        ) is None,
        begun(store, request) is Some,
        begun(store, request).unwrap().wf(),
        request.operation.record.wf(),
        is_sealed(begun(store, request).unwrap()),
        !same_sealed_fields(
            begun(store, request).unwrap(),
            replay_candidate(request.operation.record, begun(store, request).unwrap()),
        ),
    ensures
        begin_halt(store, request) == Some(
            StopView::Fail(PublicationError::OperationInputMismatch),
        ) || inputs_collide(
            begun(store, request).unwrap(),
            replay_candidate(request.operation.record, begun(store, request).unwrap()),
        ),
{
    let stored = begun(store, request).unwrap();
    inputs_are_the_sealed_fields(stored, replay_candidate(request.operation.record, stored));
}

/// A successor owner that begins a durable operation's id again under its own
/// epoch is answered with an input mismatch, unless two different inputs have
/// one digest or the operation is a restore manifest that is published.
pub proof fn successors_cannot_begin_again(store: MetaShard, request: BeginPublishRequest)
    requires
        begin_fault(request) is None,
        publish_halt(
            store,
            request.context.read_version,
            publish_key(request.context, request.operation.record),
        ) is None,
        begun(store, request) is Some,
        begun(store, request).unwrap().wf(),
        request.operation.record.wf(),
        is_sealed(begun(store, request).unwrap()),
        begun(store, request).unwrap().initiating_owner_epoch != request.context.owner_epoch,
        !(begun(store, request).unwrap().authority is RestoreStaging) || begun(
            store,
            request,
        ).unwrap().phase != PublishPhase::Published,
    ensures
        begin_halt(store, request) == Some(
            StopView::Fail(PublicationError::OperationInputMismatch),
        ) || inputs_collide(begun(store, request).unwrap(), request.operation.record),
{
    changed_beginnings_are_refused(store, request);
}

/// The same inputs are answered from the stored operation, however far it has
/// come since.
pub proof fn progressed_operations_answer_their_beginning(
    store: MetaShard,
    request: BeginPublishRequest,
)
    requires
        begin_fault(request) is None,
        publish_halt(
            store,
            request.context.read_version,
            publish_key(request.context, request.operation.record),
        ) is None,
        begun(store, request) is Some,
        begun(store, request).unwrap().wf(),
        request.operation.record.wf(),
        is_sealed(begun(store, request).unwrap()),
        same_sealed_fields(begun(store, request).unwrap(), request.operation.record),
        !(begun(store, request).unwrap().authority is RestoreStaging),
    ensures
        begin_halt(store, request) is None,
{
    inputs_are_the_sealed_fields(begun(store, request).unwrap(), request.operation.record);
    beginning_is_replayed(store, request);
}

} // verus!
