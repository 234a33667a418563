//! What the digests of a publication cover: two calls hash the same bytes only
//! where every covered value is the same.

use crate::be::{be_bytes, lemma_be_bytes_len, lemma_be_canonical, lemma_pow256_values};
use crate::digest::{lemma_sha256_len, sha256_of};
use crate::ids::{id_bytes, ArtifactRevisionId, OperationId, RequestId, RootId};
use crate::index_keys::path_digest_of;
use crate::publication_digests::{absence_proof_of, canonical_length_fault, dependency_digest_of,
    dependency_order_fault, digest_view, manifest_digest_after, manifest_digest_fault, owners_bytes,
    payload_of, reconcile_digest_of, staged_digest_after, staged_digest_fault, ManifestRowInput};
use crate::publication_error::QuarantineReconcileResolution;
use crate::publication_index_stage::{rows_bytes, stage_intent_of, stage_request_digest,
    stage_request_id_of};
use crate::publication_input_laws::{collide, lemma_same_head, lemma_same_number, lemma_same_text};
use crate::publication_plan::PublicationContext;
use crate::publish_records::{Coded, StagedObjectRecord};
use crate::recovery::long_sized;
use crate::stored_format_laws::number_at;
use crate::text::{path_fault, utf8};
use crate::wire::{lemma_concat_assoc, lemma_concat_empty, sized};
use vstd::prelude::*;

verus! {

/// The bytes that a staged row adds to the ledger digest.
pub open spec fn staged_input(previous: Seq<u8>, staged: StagedObjectRecord) -> Seq<u8> {
    utf8("nokv.publish.staged-row.v1\0"@) + previous + id_bytes(staged.artifact_revision_id.bits)
        + be_bytes(staged.object_sequence as nat, 4) + sized(utf8(staged.object_key.text@))
        + be_bytes(staged.expected_length as nat, 8) + sized(utf8(staged.expected_digest_uri@))
}

/// The ledger digest covers the digest before it and, of the row, the revision,
/// the place, the object's key, its length and its digest: two digests are the
/// same only where all of these are, or where different bytes have one digest.
pub proof fn staged_digests_cover_their_rows(
    p: [u8; 32],
    a: Coded<StagedObjectRecord>,
    q: [u8; 32],
    b: Coded<StagedObjectRecord>,
)
    requires
        staged_digest_fault(a) is None,
        staged_digest_fault(b) is None,
        staged_digest_after(p@, a.record) == staged_digest_after(q@, b.record),
    ensures
        collide(staged_input(p@, a.record), staged_input(q@, b.record)) || {
            &&& p@ == q@
            &&& a.record.artifact_revision_id == b.record.artifact_revision_id
            &&& a.record.object_sequence == b.record.object_sequence
            &&& a.record.object_key.text@ == b.record.object_key.text@
            &&& a.record.expected_length == b.record.expected_length
            &&& a.record.expected_digest_uri@ == b.record.expected_digest_uri@
        },
{
    let (x, y) = (a.record, b.record);
    if staged_input(p@, x) == staged_input(q@, y) {
        lemma_pow256_values();
        let domain = utf8("nokv.publish.staged-row.v1\0"@);
        let (s5, t5) = (
            sized(utf8(x.expected_digest_uri@)) + Seq::<u8>::empty(),
            sized(utf8(y.expected_digest_uri@)) + Seq::<u8>::empty(),
        );
        let (s4, t4) = (
            be_bytes(x.expected_length as nat, 8) + s5,
            be_bytes(y.expected_length as nat, 8) + t5,
        );
        let (s3, t3) = (
            sized(utf8(x.object_key.text@)) + s4,
            sized(utf8(y.object_key.text@)) + t4,
        );
        let (s2, t2) = (
            be_bytes(x.object_sequence as nat, 4) + s3,
            be_bytes(y.object_sequence as nat, 4) + t3,
        );
        let (s1, t1) = (
            id_bytes(x.artifact_revision_id.bits) + s2,
            id_bytes(y.artifact_revision_id.bits) + t2,
        );
        let (s0, t0) = (p@ + s1, q@ + t1);
        assert(staged_input(p@, x) == domain + s0 && staged_input(q@, y) == domain + t0) by {
            broadcast use lemma_concat_assoc, lemma_concat_empty;

        }
        lemma_same_head(domain, domain, s0, t0);
        lemma_same_head(p@, q@, s1, t1);
        lemma_same_number(
            x.artifact_revision_id.bits as nat,
            y.artifact_revision_id.bits as nat,
            16,
            s2,
            t2,
        );
        lemma_same_number(x.object_sequence as nat, y.object_sequence as nat, 4, s3, t3);
        lemma_same_text(x.object_key.text@, y.object_key.text@, s4, t4);
        lemma_same_number(x.expected_length as nat, y.expected_length as nat, 8, s5, t5);
        lemma_same_text(
            x.expected_digest_uri@,
            y.expected_digest_uri@,
            Seq::<u8>::empty(),
            Seq::<u8>::empty(),
        );
    }
}

/// The bytes that a manifest row adds to the manifest digest.
pub open spec fn manifest_input(previous: Seq<u8>, object_index: u64, row: Seq<u8>) -> Seq<u8> {
    utf8("nokv.publish.manifest-row.v2\0"@) + previous + be_bytes(object_index as nat, 8) + sized(
        row,
    )
}

/// The manifest digest covers the digest before it, the row's place and its
/// bytes.
pub proof fn manifest_digests_cover_their_rows(
    p: [u8; 32],
    a: ManifestRowInput,
    q: [u8; 32],
    b: ManifestRowInput,
)
    requires
        manifest_digest_fault(a) is None,
        manifest_digest_fault(b) is None,
        manifest_digest_after(p@, a.object_index, payload_of(a.row)) == manifest_digest_after(
            q@,
            b.object_index,
            payload_of(b.row),
        ),
    ensures
        collide(
            manifest_input(p@, a.object_index, payload_of(a.row)),
            manifest_input(q@, b.object_index, payload_of(b.row)),
        ) || {
            &&& p@ == q@
            &&& a.object_index == b.object_index
            &&& payload_of(a.row) == payload_of(b.row)
        },
{
    let (x, y) = (payload_of(a.row), payload_of(b.row));
    if manifest_input(p@, a.object_index, x) == manifest_input(q@, b.object_index, y) {
        lemma_pow256_values();
        let domain = utf8("nokv.publish.manifest-row.v2\0"@);
        let (s1, t1) = (
            be_bytes(a.object_index as nat, 8) + sized(x),
            be_bytes(b.object_index as nat, 8) + sized(y),
        );
        let (s0, t0) = (p@ + s1, q@ + t1);
        assert(manifest_input(p@, a.object_index, x) == domain + s0 && manifest_input(
            q@,
            b.object_index,
            y,
        ) == domain + t0) by {
            broadcast use lemma_concat_assoc;

        }
        lemma_same_head(domain, domain, s0, t0);
        lemma_same_head(p@, q@, s1, t1);
        lemma_same_number(a.object_index as nat, b.object_index as nat, 8, sized(x), sized(y));
        lemma_same_number(x.len(), y.len(), 4, x, y);
    }
}

/// The bytes of a list of owner revisions, as they are hashed.
pub open spec fn dependency_input(owners: Seq<ArtifactRevisionId>) -> Seq<u8> {
    utf8("nokv.publish.dependencies.v1\0"@) + be_bytes(owners.len(), 4) + owners_bytes(owners)
}

/// The dependency digest covers every owner revision and their number.
pub proof fn dependency_digests_cover_their_owners(
    a: Seq<ArtifactRevisionId>,
    b: Seq<ArtifactRevisionId>,
)
    requires
        dependency_order_fault(a) is None,
        dependency_order_fault(b) is None,
        dependency_digest_of(a) == dependency_digest_of(b),
    ensures
        collide(dependency_input(a), dependency_input(b)) || a == b,
{
    if dependency_input(a) == dependency_input(b) {
        lemma_pow256_values();
        let domain = utf8("nokv.publish.dependencies.v1\0"@);
        let (s0, t0) = (
            be_bytes(a.len(), 4) + owners_bytes(a),
            be_bytes(b.len(), 4) + owners_bytes(b),
        );
        assert(dependency_input(a) == domain + s0 && dependency_input(b) == domain + t0) by {
            broadcast use lemma_concat_assoc;

        }
        lemma_same_head(domain, domain, s0, t0);
        lemma_same_number(a.len(), b.len(), 4, owners_bytes(a), owners_bytes(b));
        lemma_same_owners(a, b);
    }
}

proof fn lemma_owners_len(owners: Seq<ArtifactRevisionId>)
    ensures
        owners_bytes(owners).len() == 16 * owners.len(),
    decreases owners.len(),
{
    broadcast use lemma_be_bytes_len;

    if owners.len() > 0 {
        lemma_owners_len(owners.drop_last());
    }
}

proof fn lemma_same_owners(a: Seq<ArtifactRevisionId>, b: Seq<ArtifactRevisionId>)
    requires
        a.len() == b.len(),
        owners_bytes(a) == owners_bytes(b),
    ensures
        a == b,
    decreases a.len(),
{
    if a.len() > 0 {
        lemma_pow256_values();
        let (x, y) = (a.drop_last(), b.drop_last());
        lemma_owners_len(x);
        lemma_owners_len(y);
        let (s, t) = (id_bytes(a.last().bits), id_bytes(b.last().bits));
        lemma_same_head(owners_bytes(x), owners_bytes(y), s, t);
        lemma_same_owners(x, y);
        let none = Seq::<u8>::empty();
        assert(s + none =~= s && t + none =~= t);
        lemma_same_number(a.last().bits as nat, b.last().bits as nat, 16, none, none);
        assert(a =~= x.push(a.last()));
        assert(b =~= y.push(b.last()));
    } else {
        assert(a =~= b);
    }
}

/// The bytes of a takeover's proof, as they are hashed.
pub open spec fn absence_input(context: PublicationContext, payload: Seq<u8>) -> Seq<u8> {
    utf8("nokv.publish.finalization-takeover-absence.v1\0"@) + id_bytes(context.root_id.bits)
        + id_bytes(context.logical_shard_id.bits) + be_bytes(
        context.placement_generation.value as nat,
        8,
    ) + be_bytes(context.owner_epoch.value as nat, 8) + id_bytes(context.request_id.bits)
        + be_bytes(context.read_version.value as nat, 8) + sized(payload)
}

/// The proof of a takeover covers the whole fence of the takeover and the bytes
/// of the operation taken over.
pub proof fn absence_proofs_cover_the_takeover(
    a: PublicationContext,
    x: Seq<u8>,
    b: PublicationContext,
    y: Seq<u8>,
)
    requires
        canonical_length_fault(x.len()) is None,
        canonical_length_fault(y.len()) is None,
        absence_proof_of(a, x) == absence_proof_of(b, y),
    ensures
        collide(absence_input(a, x), absence_input(b, y)) || {
            &&& a.root_id == b.root_id
            &&& a.logical_shard_id == b.logical_shard_id
            &&& a.placement_generation == b.placement_generation
            &&& a.owner_epoch == b.owner_epoch
            &&& a.request_id == b.request_id
            &&& a.read_version == b.read_version
            &&& x == y
        },
{
    if absence_input(a, x) == absence_input(b, y) {
        lemma_pow256_values();
        let domain = utf8("nokv.publish.finalization-takeover-absence.v1\0"@);
        let (s5, t5) = (
            be_bytes(a.read_version.value as nat, 8) + sized(x),
            be_bytes(b.read_version.value as nat, 8) + sized(y),
        );
        let (s4, t4) = (id_bytes(a.request_id.bits) + s5, id_bytes(b.request_id.bits) + t5);
        let (s3, t3) = (
            be_bytes(a.owner_epoch.value as nat, 8) + s4,
            be_bytes(b.owner_epoch.value as nat, 8) + t4,
        );
        let (s2, t2) = (
            be_bytes(a.placement_generation.value as nat, 8) + s3,
            be_bytes(b.placement_generation.value as nat, 8) + t3,
        );
        let (s1, t1) = (
            id_bytes(a.logical_shard_id.bits) + s2,
            id_bytes(b.logical_shard_id.bits) + t2,
        );
        let (s0, t0) = (id_bytes(a.root_id.bits) + s1, id_bytes(b.root_id.bits) + t1);
        assert(absence_input(a, x) == domain + s0 && absence_input(b, y) == domain + t0) by {
            broadcast use lemma_concat_assoc;

        }
        lemma_same_head(domain, domain, s0, t0);
        lemma_same_number(a.root_id.bits as nat, b.root_id.bits as nat, 16, s1, t1);
        lemma_same_number(
            a.logical_shard_id.bits as nat,
            b.logical_shard_id.bits as nat,
            16,
            s2,
            t2,
        );
        lemma_same_number(
            a.placement_generation.value as nat,
            b.placement_generation.value as nat,
            8,
            s3,
            t3,
        );
        lemma_same_number(a.owner_epoch.value as nat, b.owner_epoch.value as nat, 8, s4, t4);
        lemma_same_number(a.request_id.bits as nat, b.request_id.bits as nat, 16, s5, t5);
        lemma_same_number(
            a.read_version.value as nat,
            b.read_version.value as nat,
            8,
            sized(x),
            sized(y),
        );
        lemma_same_number(x.len(), y.len(), 4, x, y);
    }
}

/// The bytes of an audit digest, as they are hashed.
pub open spec fn reconcile_input(
    resolution: QuarantineReconcileResolution,
    original: Option<Seq<u8>>,
    operator: Seq<u8>,
) -> Seq<u8> {
    utf8("nokv.publish.reconcile-evidence.v1\0"@) + (if resolution
        == QuarantineReconcileResolution::RevisionUnpublished {
        seq![1u8]
    } else {
        seq![2u8]
    }) + (if original is None {
        seq![0u8]
    } else {
        seq![1u8] + original.unwrap()
    }) + operator
}

/// The audit digest covers the verdict, the operator's evidence, and the
/// evidence of the quarantine.
pub proof fn audit_digests_cover_the_verdict(
    a: QuarantineReconcileResolution,
    p: Option<[u8; 32]>,
    x: [u8; 32],
    b: QuarantineReconcileResolution,
    q: Option<[u8; 32]>,
    y: [u8; 32],
)
    requires
        reconcile_digest_of(a, digest_view(p), x@) == reconcile_digest_of(b, digest_view(q), y@),
    ensures
        collide(
            reconcile_input(a, digest_view(p), x@),
            reconcile_input(b, digest_view(q), y@),
        ) || {
            &&& a == b
            &&& digest_view(p) == digest_view(q)
            &&& x@ == y@
        },
{
    let (s, t) = (
        reconcile_input(a, digest_view(p), x@),
        reconcile_input(b, digest_view(q), y@),
    );
    if s == t {
        let domain = utf8("nokv.publish.reconcile-evidence.v1\0"@);
        let n = domain.len() as int;
        assert(s[n] == t[n]);
        assert(s[n + 1] == t[n + 1]);
        if let (Some(d), Some(e)) = (p, q) {
            assert(d@ =~= s.subrange(n + 2, n + 34));
            assert(e@ =~= t.subrange(n + 2, n + 34));
        }
        assert(x@ =~= s.skip(s.len() - 32));
        assert(y@ =~= t.skip(t.len() - 32));
    }
}

/// The bytes of a stage command's identity, as they are hashed.
pub open spec fn stage_request_input(
    root_id: RootId,
    request_id: RequestId,
    operation_id: OperationId,
) -> Seq<u8> {
    utf8("nokv.metadata.secondary-index-stage.v1\0"@) + id_bytes(root_id.bits) + id_bytes(
        request_id.bits,
    ) + id_bytes(operation_id.bits)
}

/// The identity of a stage command covers the root, the request and the
/// operation.
pub proof fn stage_identities_cover_their_request(
    a: (RootId, RequestId, OperationId),
    b: (RootId, RequestId, OperationId),
)
    requires
        stage_request_digest(a.0, a.1, a.2) == stage_request_digest(b.0, b.1, b.2),
    ensures
        collide(stage_request_input(a.0, a.1, a.2), stage_request_input(b.0, b.1, b.2)) || a == b,
        number_at(stage_request_digest(a.0, a.1, a.2), 0, 16) == stage_request_id_of(
            a.0,
            a.1,
            a.2,
        ).bits,
{
    broadcast use lemma_sha256_len;

    lemma_pow256_values();
    let digest = stage_request_digest(a.0, a.1, a.2);
    assert(digest.take(16) =~= digest.subrange(0, 16));
    lemma_be_canonical(digest.take(16));
    if stage_request_input(a.0, a.1, a.2) == stage_request_input(b.0, b.1, b.2) {
        let domain = utf8("nokv.metadata.secondary-index-stage.v1\0"@);
        let none = Seq::<u8>::empty();
        let (s2, t2) = (id_bytes(a.2.bits) + none, id_bytes(b.2.bits) + none);
        let (s1, t1) = (id_bytes(a.1.bits) + s2, id_bytes(b.1.bits) + t2);
        let (s0, t0) = (id_bytes(a.0.bits) + s1, id_bytes(b.0.bits) + t1);
        assert(stage_request_input(a.0, a.1, a.2) == domain + s0 && stage_request_input(
            b.0,
            b.1,
            b.2,
        ) == domain + t0) by {
            broadcast use {lemma_concat_assoc, lemma_concat_empty};

        }
        lemma_same_head(domain, domain, s0, t0);
        lemma_same_number(a.0.bits as nat, b.0.bits as nat, 16, s1, t1);
        lemma_same_number(a.1.bits as nat, b.1.bits as nat, 16, s2, t2);
        lemma_same_number(a.2.bits as nat, b.2.bits as nat, 16, none, none);
    }
}

proof fn lemma_same_long(a: Seq<u8>, b: Seq<u8>, x: Seq<u8>, y: Seq<u8>)
    requires
        long_sized(a) + x == long_sized(b) + y,
        a.len() <= u64::MAX,
        b.len() <= u64::MAX,
    ensures
        a == b,
        x == y,
{
    lemma_pow256_values();
    lemma_concat_assoc(be_bytes(a.len(), 8), a, x);
    lemma_concat_assoc(be_bytes(b.len(), 8), b, y);
    lemma_same_number(a.len(), b.len(), 8, a + x, b + y);
    lemma_same_head(a, b, x, y);
}

/// Whether rows are short enough for their lengths to be written down.
pub open spec fn rows_have_lengths(rows: Seq<(Seq<u8>, Seq<u8>)>) -> bool {
    &&& rows.len() <= u32::MAX
    &&& forall|i: int|
        0 <= i < rows.len() ==> (#[trigger] rows[i]).0.len() <= u64::MAX && rows[i].1.len()
            <= u64::MAX
}

proof fn lemma_same_rows(
    a: Seq<(Seq<u8>, Seq<u8>)>,
    b: Seq<(Seq<u8>, Seq<u8>)>,
    n: nat,
    x: Seq<u8>,
    y: Seq<u8>,
)
    requires
        n <= a.len(),
        n <= b.len(),
        rows_have_lengths(a),
        rows_have_lengths(b),
        rows_bytes(a, n) + x == rows_bytes(b, n) + y,
    ensures
        forall|i: int| 0 <= i < n ==> a[i] == b[i],
        x == y,
    decreases n,
{
    if n == 0 {
        assert(x =~= rows_bytes(a, 0) + x);
        assert(y =~= rows_bytes(b, 0) + y);
    } else {
        let m = (n - 1) as nat;
        let (p, q) = (a[m as int], b[m as int]);
        let (s1, t1) = (long_sized(p.1) + x, long_sized(q.1) + y);
        let (s0, t0) = (long_sized(p.0) + s1, long_sized(q.0) + t1);
        assert(rows_bytes(a, n) + x == rows_bytes(a, m) + s0 && rows_bytes(b, n) + y == rows_bytes(
            b,
            m,
        ) + t0) by {
            broadcast use lemma_concat_assoc;

        }
        lemma_same_rows(a, b, m, s0, t0);
        lemma_same_long(p.0, q.0, s1, t1);
        lemma_same_long(p.1, q.1, x, y);
    }
}

/// What a stage command is to write.
pub struct StageIntent {
    pub root_id: RootId,
    pub operation_id: OperationId,
    pub keys: (Seq<u8>, Seq<u8>, Seq<u8>),
    pub locator: (Seq<u8>, Seq<u8>),
    pub rows: Seq<(Seq<u8>, Seq<u8>)>,
}

impl StageIntent {
    /// Whether every length can be written down.
    pub open spec fn wf(self) -> bool {
        &&& self.keys.0.len() <= u64::MAX
        &&& self.keys.1.len() <= u64::MAX
        &&& self.keys.2.len() <= u64::MAX
        &&& self.locator.0.len() <= u64::MAX
        &&& self.locator.1.len() <= u64::MAX
        &&& rows_have_lengths(self.rows)
    }

    /// The digest of the intent.
    pub open spec fn digest(self) -> Seq<u8> {
        stage_intent_of(
            self.root_id,
            self.operation_id,
            self.keys.0,
            self.keys.1,
            self.keys.2,
            self.locator.0,
            self.locator.1,
            self.rows,
        )
    }

    /// The bytes of the intent, as they are hashed.
    pub open spec fn input(self) -> Seq<u8> {
        utf8("nokv.metadata.secondary-index-stage-intent.v2\0"@) + id_bytes(self.root_id.bits)
            + id_bytes(self.operation_id.bits) + long_sized(self.keys.0) + long_sized(self.keys.1)
            + long_sized(self.keys.2) + long_sized(self.locator.0) + long_sized(self.locator.1)
            + be_bytes(self.rows.len(), 4) + rows_bytes(self.rows, self.rows.len())
    }
}

/// The digest of a stage command covers the root, the operation, the keys that
/// it rests on, the locator and every index row.
pub proof fn stage_intents_cover_their_rows(a: StageIntent, b: StageIntent)
    requires
        a.wf(),
        b.wf(),
        a.digest() == b.digest(),
    ensures
        collide(a.input(), b.input()) || a == b,
{
    if a.input() == b.input() {
        lemma_pow256_values();
        let domain = utf8("nokv.metadata.secondary-index-stage-intent.v2\0"@);
        let none = Seq::<u8>::empty();
        let (n, k) = (a.rows.len(), b.rows.len());
        let (s7, t7) = (rows_bytes(a.rows, n) + none, rows_bytes(b.rows, k) + none);
        let (s6, t6) = (be_bytes(n, 4) + s7, be_bytes(k, 4) + t7);
        let (s5, t5) = (long_sized(a.locator.1) + s6, long_sized(b.locator.1) + t6);
        let (s4, t4) = (long_sized(a.locator.0) + s5, long_sized(b.locator.0) + t5);
        let (s3, t3) = (long_sized(a.keys.2) + s4, long_sized(b.keys.2) + t4);
        let (s2, t2) = (long_sized(a.keys.1) + s3, long_sized(b.keys.1) + t3);
        let (s1, t1) = (long_sized(a.keys.0) + s2, long_sized(b.keys.0) + t2);
        let (s0, t0) = (
            id_bytes(a.operation_id.bits) + s1,
            id_bytes(b.operation_id.bits) + t1,
        );
        let (s, t) = (id_bytes(a.root_id.bits) + s0, id_bytes(b.root_id.bits) + t0);
        assert(a.input() == domain + s && b.input() == domain + t) by {
            broadcast use {lemma_concat_assoc, lemma_concat_empty};

        }
        lemma_same_head(domain, domain, s, t);
        lemma_same_number(a.root_id.bits as nat, b.root_id.bits as nat, 16, s0, t0);
        lemma_same_number(a.operation_id.bits as nat, b.operation_id.bits as nat, 16, s1, t1);
        lemma_same_long(a.keys.0, b.keys.0, s2, t2);
        lemma_same_long(a.keys.1, b.keys.1, s3, t3);
        lemma_same_long(a.keys.2, b.keys.2, s4, t4);
        lemma_same_long(a.locator.0, b.locator.0, s5, t5);
        lemma_same_long(a.locator.1, b.locator.1, s6, t6);
        lemma_same_number(n, k, 4, s7, t7);
        lemma_same_rows(a.rows, b.rows, n, none, none);
        assert(a.rows =~= b.rows);
        assert(a == b);
    }
}

/// The digest of a path covers its text.
pub proof fn path_digests_cover_their_path(a: Seq<char>, b: Seq<char>)
    requires
        path_fault(a) is None,
        path_fault(b) is None,
        path_digest_of(a) == path_digest_of(b),
    ensures
        ({
            let domain = utf8("nokv.metadata.path-index.v1\0"@);
            collide(domain + sized(utf8(a)), domain + sized(utf8(b))) || a == b
        }),
{
    let domain = utf8("nokv.metadata.path-index.v1\0"@);
    let (x, y) = (sized(utf8(a)), sized(utf8(b)));
    assert(path_digest_of(a) == sha256_of(domain + x) && path_digest_of(b) == sha256_of(domain + y))
        by {
        broadcast use lemma_concat_assoc;

    }
    if domain + x == domain + y {
        lemma_same_head(domain, domain, x, y);
        let none = Seq::<u8>::empty();
        assert(x + none =~= x && y + none =~= y);
        lemma_same_text(a, b, none, none);
    }
}

} // verus!
