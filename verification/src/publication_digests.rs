//! Digests that seal a publication, and the rules that its rows obey.

use crate::be::{be_bytes, put_be, put_slice, same_bytes};
use crate::digest::{sha256, sha256_of};
use crate::ids::{id_bytes, ArtifactRevisionId};
use crate::prose::{hex_text, push_hex, push_text};
use crate::publication_error::{PublicationError, QuarantineReconcileResolution};
use crate::publication_plan::PublicationContext;
use crate::publication_records::first_fault;
use crate::publish_records::{ArtifactManifestRow, Coded, PublishAuthority, PublishClaim,
    PublishOperationRecord, StagedObjectRecord};
use crate::text::utf8;
use crate::wire::{lemma_concat_assoc, put_byte, put_sized, sized};
use vstd::prelude::*;

verus! {

/// Most physical owners that a revision may depend on.
pub const MAX_PUBLISH_DEPENDENCY_COUNT: u8 = 64;

/// One ordered immutable row and its place in the manifest.
#[derive(Debug, PartialEq, Eq)]
pub struct ManifestRowInput {
    pub object_index: u64,
    pub row: Coded<ArtifactManifestRow>,
}

/// The first failure among `g(0)` to `g(n - 1)`.
pub open spec fn fault_upto<E>(g: spec_fn(int) -> Option<E>, n: nat) -> Option<E>
    decreases n,
{
    if n == 0 {
        None
    } else {
        first_fault(fault_upto(g, (n - 1) as nat), g(n - 1))
    }
}

/// A failure among the first `i` is the failure among all.
pub proof fn lemma_fault_prefix<E>(g: spec_fn(int) -> Option<E>, i: nat, n: nat)
    requires
        i <= n,
        fault_upto(g, i) is Some,
    ensures
        fault_upto(g, n) == fault_upto(g, i),
    decreases n,
{
    if i < n {
        lemma_fault_prefix(g, i, (n - 1) as nat);
    }
}

/// Where there is no failure, no item fails.
pub proof fn lemma_fault_none<E>(g: spec_fn(int) -> Option<E>, n: nat, i: int)
    requires
        fault_upto(g, n) is None,
        0 <= i < n,
    ensures
        g(i) is None,
    decreases n,
{
    if i < n - 1 {
        lemma_fault_none(g, (n - 1) as nat, i);
    }
}

/// Thirty-two zero bytes: the digest of no rows.
pub open spec fn zero_digest() -> Seq<u8> {
    Seq::new(32, |i: int| 0u8)
}

/// The bytes that a publication's authority adds to its digests.
pub open spec fn authority_bytes(authority: PublishAuthority) -> Seq<u8> {
    match authority {
        PublishAuthority::Visible => seq![1u8],
        PublishAuthority::CommitStaging { commit_operation_id } => seq![3u8] + id_bytes(
            commit_operation_id.bits,
        ),
        PublishAuthority::RestoreStaging { restore_operation_id } => seq![2u8] + id_bytes(
            restore_operation_id.bits,
        ),
    }
}

/// The bytes that a publication's claim adds to its identity.
pub open spec fn claim_bytes(claim: PublishClaim) -> Seq<u8> {
    match claim {
        PublishClaim::CreateOnly => seq![1u8],
        PublishClaim::ReplaceOnly { expected_generation } => seq![2u8] + be_bytes(
            expected_generation.value as nat,
            8,
        ),
        PublishClaim::Append { expected_generation, base_revision_id, append_offset } => seq![3u8]
            + be_bytes(expected_generation.value as nat, 8) + id_bytes(base_revision_id.bits)
            + be_bytes(append_offset as nat, 8),
    }
}

/// What identifies a publication, as the bytes of its digest.
pub open spec fn identity_input(operation: PublishOperationRecord) -> Seq<u8> {
    utf8("nokv.publish.operation.identity.v3\0"@) + id_bytes(operation.operation_id.bits)
        + be_bytes(operation.initiating_owner_epoch.value as nat, 8) + authority_bytes(
        operation.authority,
    ) + sized(utf8(operation.workbench_id@)) + id_bytes(operation.workspace_incarnation_id.bits)
        + sized(utf8(operation.path@)) + id_bytes(operation.artifact_revision_id.bits)
        + claim_bytes(operation.claim)
}

/// The digest over what identifies a publication.
pub open spec fn identity_digest_of(operation: PublishOperationRecord) -> Seq<u8> {
    sha256_of(identity_input(operation))
}

/// What a publication has planned, as the bytes of its digest.
pub open spec fn initialization_input(operation: PublishOperationRecord) -> Seq<u8> {
    utf8("nokv.publish.operation.initialization.v3\0"@) + be_bytes(
        operation.initiating_owner_epoch.value as nat,
        8,
    ) + authority_bytes(operation.authority) + sized(utf8(operation.workbench_id@)) + be_bytes(
        operation.staged_object_count as nat,
        4,
    ) + operation.staged_object_seal@ + be_bytes(operation.manifest_row_count as nat, 4)
        + operation.manifest_seal@ + seq![operation.dependency_count] + seq![
        operation.dependency_depth,
    ] + operation.dependency_digest@
}

/// The digest over what a publication has planned.
pub open spec fn initialization_digest_of(operation: PublishOperationRecord) -> Seq<u8> {
    sha256_of(initialization_input(operation))
}

fn put_authority(out: &mut Vec<u8>, authority: PublishAuthority)
    ensures
        final(out)@ == old(out)@ + authority_bytes(authority),
{
    match authority {
        PublishAuthority::Visible => put_byte(out, 1),
        PublishAuthority::CommitStaging { commit_operation_id } => {
            put_byte(out, 3);
            put_be(out, commit_operation_id.bits, 16);
            proof {
                lemma_concat_assoc(old(out)@, seq![3u8], id_bytes(commit_operation_id.bits));
            }
        },
        PublishAuthority::RestoreStaging { restore_operation_id } => {
            put_byte(out, 2);
            put_be(out, restore_operation_id.bits, 16);
            proof {
                lemma_concat_assoc(old(out)@, seq![2u8], id_bytes(restore_operation_id.bits));
            }
        },
    }
}

fn put_claim(out: &mut Vec<u8>, claim: PublishClaim)
    ensures
        final(out)@ == old(out)@ + claim_bytes(claim),
{
    broadcast use crate::wire::lemma_concat_assoc;

    match claim {
        PublishClaim::CreateOnly => put_byte(out, 1),
        PublishClaim::ReplaceOnly { expected_generation } => {
            put_byte(out, 2);
            put_be(out, expected_generation.value as u128, 8);
        },
        PublishClaim::Append { expected_generation, base_revision_id, append_offset } => {
            put_byte(out, 3);
            put_be(out, expected_generation.value as u128, 8);
            put_be(out, base_revision_id.bits, 16);
            put_be(out, append_offset as u128, 8);
        },
    }
}

/// The digest over what identifies a publication.
pub fn publish_identity_digest(operation: &PublishOperationRecord) -> (digest: [u8; 32])
    requires
        operation.wf(),
    ensures
        digest@ == identity_digest_of(*operation),
{
    let mut input: Vec<u8> = Vec::new();
    put_slice(&mut input, "nokv.publish.operation.identity.v3\0".as_bytes());
    assert(input@ =~= utf8("nokv.publish.operation.identity.v3\0"@));
    put_be(&mut input, operation.operation_id.bits, 16);
    put_be(&mut input, operation.initiating_owner_epoch.value as u128, 8);
    put_authority(&mut input, operation.authority);
    put_sized(&mut input, operation.workbench_id.as_bytes());
    put_be(&mut input, operation.workspace_incarnation_id.bits, 16);
    put_sized(&mut input, operation.path.as_bytes());
    put_be(&mut input, operation.artifact_revision_id.bits, 16);
    put_claim(&mut input, operation.claim);
    sha256(input.as_slice())
}

/// The digest over what a publication has planned.
pub fn publish_initialization_digest(operation: &PublishOperationRecord) -> (digest: [u8; 32])
    requires
        operation.wf(),
    ensures
        digest@ == initialization_digest_of(*operation),
{
    let mut input: Vec<u8> = Vec::new();
    put_slice(&mut input, "nokv.publish.operation.initialization.v3\0".as_bytes());
    assert(input@ =~= utf8("nokv.publish.operation.initialization.v3\0"@));
    put_be(&mut input, operation.initiating_owner_epoch.value as u128, 8);
    put_authority(&mut input, operation.authority);
    put_sized(&mut input, operation.workbench_id.as_bytes());
    put_be(&mut input, operation.staged_object_count as u128, 4);
    put_slice(&mut input, operation.staged_object_seal.as_slice());
    put_be(&mut input, operation.manifest_row_count as u128, 4);
    put_slice(&mut input, operation.manifest_seal.as_slice());
    put_byte(&mut input, operation.dependency_count);
    put_byte(&mut input, operation.dependency_depth);
    put_slice(&mut input, operation.dependency_digest.as_slice());
    sha256(input.as_slice())
}

/// Whether an operation carries the digests of its own contents.
pub open spec fn is_sealed(operation: PublishOperationRecord) -> bool {
    operation.identity_digest@ == identity_digest_of(operation)
        && operation.initialization_digest@ == initialization_digest_of(operation)
}

/// Seals identity and initialization digests after immutable operation inputs
/// and row and dependency seals have been assigned.
pub fn seal_publish_operation(operation: &mut PublishOperationRecord)
    requires
        old(operation).wf(),
    ensures
        final(operation).wf(),
        is_sealed(*final(operation)),
        *final(operation) == (PublishOperationRecord {
            identity_digest: final(operation).identity_digest,
            initialization_digest: final(operation).initialization_digest,
            ..*old(operation)
        }),
{
    let identity: [u8; 32] = publish_identity_digest(operation);
    operation.identity_digest = identity;
    let initialization: [u8; 32] = publish_initialization_digest(operation);
    operation.initialization_digest = initialization;
}

/// A digest as a URI.
pub open spec fn digest_uri(digest: Seq<u8>) -> Seq<char> {
    "sha256:"@ + hex_text(digest)
}

/// A digest as a URI: `sha256:` and its bytes in hexadecimal.
pub fn sha256_digest_uri(digest: [u8; 32]) -> (uri: String)
    ensures
        uri@ == digest_uri(digest@),
{
    let mut uri: String = "sha256:".to_owned();
    push_hex(&mut uri, digest.as_slice());
    uri
}

/// A byte string too long for a canonical digest.
pub open spec fn canonical_length_fault(length: nat) -> Option<PublicationError> {
    if length > u32::MAX {
        Some(PublicationError::LengthOverflow { field: "canonical bytes", length: length as usize })
    } else {
        None
    }
}

fn put_canonical(out: &mut Vec<u8>, bytes: &[u8]) -> (result: Result<(), PublicationError>)
    ensures
        match result {
            Ok(_) => canonical_length_fault(bytes@.len()) is None && final(out)@ == old(out)@
                + sized(bytes@),
            Err(error) => canonical_length_fault(bytes@.len()) == Some(error),
        },
{
    if bytes.len() > u32::MAX as usize {
        return Err(
            PublicationError::LengthOverflow { field: "canonical bytes", length: bytes.len() },
        );
    }
    put_sized(out, bytes);
    Ok(())
}

/// What the codec says against a record.
pub open spec fn validity_fault<T>(coded: Coded<T>) -> Option<PublicationError> {
    match coded.validity {
        None => None,
        Some(error) => Some(PublicationError::OperationCodec(error)),
    }
}

/// Checks what the codec says of a record.
pub fn check_validity<T>(coded: &Coded<T>) -> (result: Result<(), PublicationError>)
    ensures
        match result {
            Ok(_) => validity_fault(*coded) is None,
            Err(error) => validity_fault(*coded) == Some(error),
        },
{
    match coded.validity {
        None => Ok(()),
        Some(error) => Err(PublicationError::OperationCodec(error)),
    }
}

/// The stored form of a record that has one.
pub open spec fn payload_of<T>(coded: Coded<T>) -> Seq<u8> {
    coded.payload.unwrap()@
}

/// A record without a stored form.
pub open spec fn payload_fault<T>(coded: Coded<T>) -> Option<PublicationError> {
    match coded.payload {
        Ok(_) => None,
        Err(error) => Some(PublicationError::OperationCodec(error)),
    }
}

/// The stored form of a record.
pub fn get_payload<T>(coded: &Coded<T>) -> (result: Result<&Vec<u8>, PublicationError>)
    ensures
        match result {
            Ok(payload) => payload_fault(*coded) is None && payload@ == payload_of(*coded),
            Err(error) => payload_fault(*coded) == Some(error),
        },
{
    match &coded.payload {
        Ok(payload) => Ok(payload),
        Err(error) => Err(PublicationError::OperationCodec(*error)),
    }
}

/// The staged-ledger digest after one more row.
pub open spec fn staged_digest_after(previous: Seq<u8>, staged: StagedObjectRecord) -> Seq<u8> {
    sha256_of(
        utf8("nokv.publish.staged-row.v1\0"@) + previous + id_bytes(
            staged.artifact_revision_id.bits,
        ) + be_bytes(staged.object_sequence as nat, 4) + sized(utf8(staged.object_key.text@))
            + be_bytes(staged.expected_length as nat, 8) + sized(
            utf8(staged.expected_digest_uri@),
        ),
    )
}

/// A staged row that the ledger digest cannot cover.
pub open spec fn staged_digest_fault(staged: Coded<StagedObjectRecord>) -> Option<
    PublicationError,
> {
    first_fault(
        validity_fault(staged),
        first_fault(
            canonical_length_fault(utf8(staged.record.object_key.text@).len()),
            canonical_length_fault(utf8(staged.record.expected_digest_uri@).len()),
        ),
    )
}

/// Advances the staged-ledger digest by one canonical immutable row.
pub fn advance_staged_object_rolling_digest(
    previous: [u8; 32],
    staged: &Coded<StagedObjectRecord>,
) -> (result: Result<[u8; 32], PublicationError>)
    ensures
        match result {
            Ok(digest) => staged_digest_fault(*staged) is None && digest@ == staged_digest_after(
                previous@,
                staged.record,
            ),
            Err(error) => staged_digest_fault(*staged) == Some(error),
        },
{
    check_validity(staged)?;
    let mut input: Vec<u8> = Vec::new();
    put_slice(&mut input, "nokv.publish.staged-row.v1\0".as_bytes());
    assert(input@ =~= utf8("nokv.publish.staged-row.v1\0"@));
    put_slice(&mut input, previous.as_slice());
    put_be(&mut input, staged.record.artifact_revision_id.bits, 16);
    put_be(&mut input, staged.record.object_sequence as u128, 4);
    put_canonical(&mut input, staged.record.object_key.text.as_str().as_bytes())?;
    put_be(&mut input, staged.record.expected_length as u128, 8);
    put_canonical(&mut input, staged.record.expected_digest_uri.as_str().as_bytes())?;
    Ok(sha256(input.as_slice()))
}

/// The staged-ledger digest over the first `n` rows, from `start`.
pub open spec fn staged_digest_over(
    start: Seq<u8>,
    rows: Seq<Coded<StagedObjectRecord>>,
    n: nat,
) -> Seq<u8>
    decreases n,
{
    if n == 0 {
        start
    } else {
        staged_digest_after(staged_digest_over(start, rows, (n - 1) as nat), rows[n - 1].record)
    }
}

/// What keeps row `i` out of the ledger digest.
pub open spec fn ledger_row_fault(
    rows: Seq<Coded<StagedObjectRecord>>,
    max_staged_objects: u32,
) -> spec_fn(int) -> Option<PublicationError> {
    |i: int|
        if i > u32::MAX {
            Some(
                PublicationError::StagedObjectCountMismatch {
                    expected: max_staged_objects,
                    actual: rows.len() as usize,
                },
            )
        } else if rows[i].record.object_sequence != i {
            Some(
                PublicationError::StagedObjectSequenceMismatch {
                    expected: i as u32,
                    actual: rows[i].record.object_sequence,
                },
            )
        } else {
            staged_digest_fault(rows[i])
        }
}

/// Canonical digest of immutable staged-object ownership fields, of rows that
/// are numbered from zero.
pub fn staged_object_ledger_digest(
    staged_objects: &Vec<Coded<StagedObjectRecord>>,
    max_staged_objects: u32,
) -> (result: Result<[u8; 32], PublicationError>)
    ensures
        ({
            let fault = fault_upto(
                ledger_row_fault(staged_objects@, max_staged_objects),
                staged_objects@.len(),
            );
            match result {
                Ok(digest) => fault is None && digest@ == staged_digest_over(
                    zero_digest(),
                    staged_objects@,
                    staged_objects@.len(),
                ),
                Err(error) => fault == Some(error),
            }
        }),
{
    let ghost rows = staged_objects@;
    let ghost g = ledger_row_fault(rows, max_staged_objects);
    let mut digest: [u8; 32] = [0; 32];
    assert(digest@ =~= zero_digest());
    let mut i: usize = 0;
    while i < staged_objects.len()
        invariant
            i <= rows.len(),
            rows == staged_objects@,
            g == ledger_row_fault(rows, max_staged_objects),
            fault_upto(g, i as nat) is None,
            digest@ == staged_digest_over(zero_digest(), rows, i as nat),
        decreases rows.len() - i,
    {
        proof {
            if fault_upto(g, (i + 1) as nat) is Some {
                lemma_fault_prefix(g, (i + 1) as nat, rows.len());
            }
        }
        if i > u32::MAX as usize {
            return Err(
                PublicationError::StagedObjectCountMismatch {
                    expected: max_staged_objects,
                    actual: staged_objects.len(),
                },
            );
        }
        let sequence: u32 = staged_objects[i].record.object_sequence;
        if sequence != i as u32 {
            return Err(
                PublicationError::StagedObjectSequenceMismatch {
                    expected: i as u32,
                    actual: sequence,
                },
            );
        }
        digest = advance_staged_object_rolling_digest(digest, &staged_objects[i])?;
        i = i + 1;
    }
    Ok(digest)
}

/// The manifest digest after one more row.
pub open spec fn manifest_digest_after(previous: Seq<u8>, object_index: u64, row: Seq<u8>) -> Seq<
    u8,
> {
    sha256_of(
        utf8("nokv.publish.manifest-row.v2\0"@) + previous + be_bytes(object_index as nat, 8)
            + sized(row),
    )
}

/// A manifest row that the manifest digest cannot cover.
pub open spec fn manifest_digest_fault(input: ManifestRowInput) -> Option<PublicationError> {
    first_fault(
        validity_fault(input.row),
        first_fault(
            payload_fault(input.row),
            canonical_length_fault(payload_of(input.row).len()),
        ),
    )
}

/// Advances the manifest digest by one ordered key and strict row payload.
pub fn advance_manifest_rolling_digest(previous: [u8; 32], input: &ManifestRowInput) -> (result:
    Result<[u8; 32], PublicationError>)
    ensures
        match result {
            Ok(digest) => manifest_digest_fault(*input) is None && digest@ == manifest_digest_after(
                previous@,
                input.object_index,
                payload_of(input.row),
            ),
            Err(error) => manifest_digest_fault(*input) == Some(error),
        },
{
    check_validity(&input.row)?;
    let mut hashed: Vec<u8> = Vec::new();
    put_slice(&mut hashed, "nokv.publish.manifest-row.v2\0".as_bytes());
    assert(hashed@ =~= utf8("nokv.publish.manifest-row.v2\0"@));
    put_slice(&mut hashed, previous.as_slice());
    put_be(&mut hashed, input.object_index as u128, 8);
    let payload: &Vec<u8> = get_payload(&input.row)?;
    put_canonical(&mut hashed, payload.as_slice())?;
    Ok(sha256(hashed.as_slice()))
}

/// The manifest digest over the first `n` rows, from `start`.
pub open spec fn manifest_digest_over(start: Seq<u8>, rows: Seq<ManifestRowInput>, n: nat) -> Seq<u8>
    decreases n,
{
    if n == 0 {
        start
    } else {
        manifest_digest_after(
            manifest_digest_over(start, rows, (n - 1) as nat),
            rows[n - 1].object_index,
            payload_of(rows[n - 1].row),
        )
    }
}

/// What the codec says against row `i`.
pub open spec fn manifest_validity_fault(rows: Seq<ManifestRowInput>) -> spec_fn(int) -> Option<
    PublicationError,
> {
    |i: int| validity_fault(rows[i].row)
}

/// A row that does not follow the row before it: its index must be larger, and
/// its logical range must start where the other ends.
pub open spec fn manifest_succession_fault(rows: Seq<ManifestRowInput>) -> spec_fn(int) -> Option<
    PublicationError,
> {
    |i: int|
        if i == 0 {
            None
        } else if rows[i - 1].object_index >= rows[i].object_index {
            Some(PublicationError::ManifestOrder)
        } else if rows[i].row.record.logical_offset != rows[i - 1].row.record.logical_offset
            + rows[i - 1].row.record.length {
            Some(
                PublicationError::ManifestLogicalOffsetMismatch {
                    expected: (rows[i - 1].row.record.logical_offset
                        + rows[i - 1].row.record.length) as u64,
                    actual: rows[i].row.record.logical_offset,
                },
            )
        } else {
            None
        }
}

/// What is wrong with the order of manifest rows, if anything.
pub open spec fn manifest_order_fault(rows: Seq<ManifestRowInput>, max_manifest_rows: u32) -> Option<
    PublicationError,
> {
    if rows.len() > max_manifest_rows {
        Some(
            PublicationError::ManifestCountMismatch {
                expected: max_manifest_rows,
                actual: rows.len() as usize,
            },
        )
    } else {
        first_fault(
            fault_upto(manifest_validity_fault(rows), rows.len()),
            fault_upto(manifest_succession_fault(rows), rows.len()),
        )
    }
}

/// Rows whose valid ones have a logical range.
pub open spec fn manifest_rows_wf(rows: Seq<ManifestRowInput>) -> bool {
    forall|i: int| 0 <= i < rows.len() ==> (#[trigger] rows[i]).row.wf()
}

/// Checks that manifest rows are valid and follow each other.
pub fn validate_manifest_order(rows: &Vec<ManifestRowInput>, max_manifest_rows: u32) -> (result:
    Result<(), PublicationError>)
    requires
        manifest_rows_wf(rows@),
    ensures
        match result {
            Ok(_) => manifest_order_fault(rows@, max_manifest_rows) is None,
            Err(error) => manifest_order_fault(rows@, max_manifest_rows) == Some(error),
        },
{
    if rows.len() > max_manifest_rows as usize {
        return Err(
            PublicationError::ManifestCountMismatch {
                expected: max_manifest_rows,
                actual: rows.len(),
            },
        );
    }
    let ghost v = manifest_validity_fault(rows@);
    let ghost s = manifest_succession_fault(rows@);
    let mut i: usize = 0;
    while i < rows.len()
        invariant
            i <= rows@.len(),
            rows@.len() <= max_manifest_rows,
            v == manifest_validity_fault(rows@),
            fault_upto(v, i as nat) is None,
        decreases rows@.len() - i,
    {
        proof {
            if fault_upto(v, (i + 1) as nat) is Some {
                lemma_fault_prefix(v, (i + 1) as nat, rows@.len());
            }
        }
        check_validity(&rows[i].row)?;
        i = i + 1;
    }
    let mut i: usize = 0;
    while i < rows.len()
        invariant
            i <= rows@.len(),
            rows@.len() <= max_manifest_rows,
            manifest_rows_wf(rows@),
            v == manifest_validity_fault(rows@),
            fault_upto(v, rows@.len()) is None,
            s == manifest_succession_fault(rows@),
            fault_upto(s, i as nat) is None,
        decreases rows@.len() - i,
    {
        proof {
            if fault_upto(s, (i + 1) as nat) is Some {
                lemma_fault_prefix(s, (i + 1) as nat, rows@.len());
            }
        }
        if i > 0 {
            proof {
                lemma_fault_none(v, rows@.len(), i - 1);
                assert(rows@[i - 1].row.wf());
            }
            if rows[i - 1].object_index >= rows[i].object_index {
                return Err(PublicationError::ManifestOrder);
            }
            let expected: u64 = rows[i - 1].row.record.logical_offset
                + rows[i - 1].row.record.length;
            if rows[i].row.record.logical_offset != expected {
                return Err(
                    PublicationError::ManifestLogicalOffsetMismatch {
                        expected,
                        actual: rows[i].row.record.logical_offset,
                    },
                );
            }
        }
        i = i + 1;
    }
    Ok(())
}

/// What keeps row `i` out of the manifest digest.
pub open spec fn manifest_digest_faults(rows: Seq<ManifestRowInput>) -> spec_fn(int) -> Option<
    PublicationError,
> {
    |i: int| manifest_digest_fault(rows[i])
}

/// What keeps rows from making up a whole manifest.
pub open spec fn manifest_rows_fault(rows: Seq<ManifestRowInput>, max_manifest_rows: u32) -> Option<
    PublicationError,
> {
    first_fault(
        manifest_order_fault(rows, max_manifest_rows),
        first_fault(
            if rows.len() > 0 && rows[0].row.record.logical_offset != 0 {
                Some(
                    PublicationError::ManifestLogicalOffsetMismatch {
                        expected: 0,
                        actual: rows[0].row.record.logical_offset,
                    },
                )
            } else {
                None
            },
            fault_upto(manifest_digest_faults(rows), rows.len()),
        ),
    )
}

/// Canonical digest of ordered manifest keys and strict row payloads.
pub fn manifest_rows_digest(rows: &Vec<ManifestRowInput>, max_manifest_rows: u32) -> (result:
    Result<[u8; 32], PublicationError>)
    requires
        manifest_rows_wf(rows@),
    ensures
        match result {
            Ok(digest) => {
                &&& manifest_rows_fault(rows@, max_manifest_rows) is None
                &&& digest@ == manifest_digest_over(zero_digest(), rows@, rows@.len())
            },
            Err(error) => manifest_rows_fault(rows@, max_manifest_rows) == Some(error),
        },
{
    validate_manifest_order(rows, max_manifest_rows)?;
    if rows.len() > 0 && rows[0].row.record.logical_offset != 0 {
        return Err(
            PublicationError::ManifestLogicalOffsetMismatch {
                expected: 0,
                actual: rows[0].row.record.logical_offset,
            },
        );
    }
    let ghost g = manifest_digest_faults(rows@);
    let mut digest: [u8; 32] = [0; 32];
    assert(digest@ =~= zero_digest());
    let mut i: usize = 0;
    while i < rows.len()
        invariant
            i <= rows@.len(),
            g == manifest_digest_faults(rows@),
            manifest_order_fault(rows@, max_manifest_rows) is None,
            rows@.len() > 0 ==> rows@[0].row.record.logical_offset == 0,
            fault_upto(g, i as nat) is None,
            digest@ == manifest_digest_over(zero_digest(), rows@, i as nat),
        decreases rows@.len() - i,
    {
        proof {
            if fault_upto(g, (i + 1) as nat) is Some {
                lemma_fault_prefix(g, (i + 1) as nat, rows@.len());
            }
        }
        digest = advance_manifest_rolling_digest(digest, &rows[i])?;
        i = i + 1;
    }
    Ok(digest)
}

/// Whether owner revisions are distinct and sorted.
pub open spec fn owners_sorted(owners: Seq<ArtifactRevisionId>) -> bool {
    forall|i: int, j: int| 0 <= i < j < owners.len() ==> owners[i].bits < owners[j].bits
}

/// What is wrong with a list of owner revisions, if anything.
pub open spec fn dependency_order_fault(owners: Seq<ArtifactRevisionId>) -> Option<
    PublicationError,
> {
    if owners.len() > MAX_PUBLISH_DEPENDENCY_COUNT {
        Some(
            PublicationError::DependencyCountMismatch {
                expected: MAX_PUBLISH_DEPENDENCY_COUNT,
                actual: owners.len() as usize,
            },
        )
    } else if !owners_sorted(owners) {
        Some(PublicationError::DependencyOrder)
    } else {
        None
    }
}

/// Checks that owner revisions are few, distinct and sorted.
pub fn validate_dependency_order(owners: &Vec<ArtifactRevisionId>) -> (result: Result<
    (),
    PublicationError,
>)
    ensures
        match result {
            Ok(_) => dependency_order_fault(owners@) is None,
            Err(error) => dependency_order_fault(owners@) == Some(error),
        },
{
    if owners.len() > MAX_PUBLISH_DEPENDENCY_COUNT as usize {
        return Err(
            PublicationError::DependencyCountMismatch {
                expected: MAX_PUBLISH_DEPENDENCY_COUNT,
                actual: owners.len(),
            },
        );
    }
    let mut i: usize = 1;
    while i < owners.len()
        invariant
            1 <= i,
            owners@.len() <= MAX_PUBLISH_DEPENDENCY_COUNT,
            forall|a: int, b: int|
                0 <= a < b < i && b < owners@.len() ==> owners@[a].bits < owners@[b].bits,
        decreases owners@.len() - i,
    {
        if owners[i - 1].bits >= owners[i].bits {
            assert(!owners_sorted(owners@));
            return Err(PublicationError::DependencyOrder);
        }
        i = i + 1;
    }
    Ok(())
}

/// The identities of owner revisions, one after the other.
pub open spec fn owners_bytes(owners: Seq<ArtifactRevisionId>) -> Seq<u8>
    decreases owners.len(),
{
    if owners.len() == 0 {
        Seq::empty()
    } else {
        owners_bytes(owners.drop_last()) + id_bytes(owners.last().bits)
    }
}

/// The digest over a set of owner revisions.
pub open spec fn dependency_digest_of(owners: Seq<ArtifactRevisionId>) -> Seq<u8> {
    sha256_of(
        utf8("nokv.publish.dependencies.v1\0"@) + be_bytes(owners.len(), 4) + owners_bytes(owners),
    )
}

/// Canonical digest of the sorted, distinct dependency owner set.
pub fn dependency_owner_digest(owners: &Vec<ArtifactRevisionId>) -> (result: Result<
    [u8; 32],
    PublicationError,
>)
    ensures
        match result {
            Ok(digest) => dependency_order_fault(owners@) is None && digest@
                == dependency_digest_of(owners@),
            Err(error) => dependency_order_fault(owners@) == Some(error),
        },
{
    validate_dependency_order(owners)?;
    let mut input: Vec<u8> = Vec::new();
    put_slice(&mut input, "nokv.publish.dependencies.v1\0".as_bytes());
    assert(input@ =~= utf8("nokv.publish.dependencies.v1\0"@));
    put_be(&mut input, owners.len() as u128, 4);
    let ghost head = input@;
    let mut i: usize = 0;
    assert(head + owners_bytes(owners@.take(0)) =~= head);
    while i < owners.len()
        invariant
            i <= owners@.len(),
            input@ == head + owners_bytes(owners@.take(i as int)),
        decreases owners@.len() - i,
    {
        proof {
            let part = owners@.take(i + 1);
            assert(part.drop_last() =~= owners@.take(i as int));
            lemma_concat_assoc(
                head,
                owners_bytes(owners@.take(i as int)),
                id_bytes(owners@[i as int].bits),
            );
        }
        put_be(&mut input, owners[i].bits, 16);
        i = i + 1;
    }
    assert(owners@.take(i as int) =~= owners@);
    Ok(sha256(input.as_slice()))
}

/// Owner revisions that are not the ones an operation has sealed.
pub open spec fn dependency_seal_fault(
    operation: PublishOperationRecord,
    owners: Seq<ArtifactRevisionId>,
) -> Option<PublicationError> {
    if owners.len() != operation.dependency_count {
        Some(
            PublicationError::DependencyCountMismatch {
                expected: operation.dependency_count,
                actual: owners.len() as usize,
            },
        )
    } else {
        first_fault(
            dependency_order_fault(owners),
            if dependency_digest_of(owners) != operation.dependency_digest@ {
                Some(PublicationError::DependencyDigestMismatch)
            } else {
                None
            },
        )
    }
}

/// Checks owner revisions against the seal of an operation.
pub fn validate_dependency_seal(
    operation: &PublishOperationRecord,
    owners: &Vec<ArtifactRevisionId>,
) -> (result: Result<(), PublicationError>)
    ensures
        match result {
            Ok(_) => dependency_seal_fault(*operation, owners@) is None,
            Err(error) => dependency_seal_fault(*operation, owners@) == Some(error),
        },
{
    if owners.len() != operation.dependency_count as usize {
        return Err(
            PublicationError::DependencyCountMismatch {
                expected: operation.dependency_count,
                actual: owners.len(),
            },
        );
    }
    let digest: [u8; 32] = dependency_owner_digest(owners)?;
    if !same_bytes(digest.as_slice(), operation.dependency_digest.as_slice()) {
        return Err(PublicationError::DependencyDigestMismatch);
    }
    Ok(())
}

proof fn lemma_staged_digest_prefix(
    start: Seq<u8>,
    a: Seq<Coded<StagedObjectRecord>>,
    b: Seq<Coded<StagedObjectRecord>>,
    n: nat,
)
    requires
        n <= a.len(),
    ensures
        staged_digest_over(start, a + b, n) == staged_digest_over(start, a, n),
    decreases n,
{
    if n > 0 {
        lemma_staged_digest_prefix(start, a, b, (n - 1) as nat);
        assert((a + b)[n - 1] == a[n - 1]);
    }
}

proof fn lemma_staged_digest_suffix(
    start: Seq<u8>,
    a: Seq<Coded<StagedObjectRecord>>,
    b: Seq<Coded<StagedObjectRecord>>,
    n: nat,
)
    requires
        n <= b.len(),
    ensures
        staged_digest_over(start, a + b, a.len() + n) == staged_digest_over(
            staged_digest_over(start, a, a.len()),
            b,
            n,
        ),
    decreases n,
{
    if n == 0 {
        lemma_staged_digest_prefix(start, a, b, a.len());
    } else {
        lemma_staged_digest_suffix(start, a, b, (n - 1) as nat);
        assert((a + b)[a.len() + n - 1] == b[n - 1]);
    }
}

/// A staged-object ledger has one rolling digest, however it is cut into
/// batches: the second batch resumes where the first has left off.
pub proof fn staged_digests_resume(
    start: Seq<u8>,
    a: Seq<Coded<StagedObjectRecord>>,
    b: Seq<Coded<StagedObjectRecord>>,
)
    ensures
        staged_digest_over(start, a + b, (a + b).len()) == staged_digest_over(
            staged_digest_over(start, a, a.len()),
            b,
            b.len(),
        ),
{
    lemma_staged_digest_suffix(start, a, b, b.len());
}

proof fn lemma_manifest_digest_prefix(
    start: Seq<u8>,
    a: Seq<ManifestRowInput>,
    b: Seq<ManifestRowInput>,
    n: nat,
)
    requires
        n <= a.len(),
    ensures
        manifest_digest_over(start, a + b, n) == manifest_digest_over(start, a, n),
    decreases n,
{
    if n > 0 {
        lemma_manifest_digest_prefix(start, a, b, (n - 1) as nat);
        assert((a + b)[n - 1] == a[n - 1]);
    }
}

proof fn lemma_manifest_digest_suffix(
    start: Seq<u8>,
    a: Seq<ManifestRowInput>,
    b: Seq<ManifestRowInput>,
    n: nat,
)
    requires
        n <= b.len(),
    ensures
        manifest_digest_over(start, a + b, a.len() + n) == manifest_digest_over(
            manifest_digest_over(start, a, a.len()),
            b,
            n,
        ),
    decreases n,
{
    if n == 0 {
        lemma_manifest_digest_prefix(start, a, b, a.len());
    } else {
        lemma_manifest_digest_suffix(start, a, b, (n - 1) as nat);
        assert((a + b)[a.len() + n - 1] == b[n - 1]);
    }
}

/// A manifest has one rolling digest, however it is cut into batches.
pub proof fn manifest_digests_resume(
    start: Seq<u8>,
    a: Seq<ManifestRowInput>,
    b: Seq<ManifestRowInput>,
)
    ensures
        manifest_digest_over(start, a + b, (a + b).len()) == manifest_digest_over(
            manifest_digest_over(start, a, a.len()),
            b,
            b.len(),
        ),
{
    lemma_manifest_digest_suffix(start, a, b, b.len());
}

/// The array that holds the given bytes.
pub open spec fn digest_array(bytes: Seq<u8>) -> [u8; 32] {
    choose|array: [u8; 32]| array@ == bytes
}

/// An array is determined by its bytes.
pub broadcast proof fn lemma_digest_array(array: [u8; 32])
    ensures
        #[trigger] digest_array(array@) == array,
{
    let other = digest_array(array@);
    assert(other@ == array@);
    assert(other =~= array) by {
        assert forall|i: int| 0 <= i < 32 implies other[i] == array[i] by {
            assert(other@[i] == array@[i]);
        }
    }
}

/// An operation that does not carry its own digests.
pub open spec fn seal_mismatch(operation: PublishOperationRecord) -> Option<PublicationError> {
    if operation.identity_digest@ != identity_digest_of(operation) {
        Some(PublicationError::InvalidOperationSeal { seal: "identity" })
    } else if operation.initialization_digest@ != initialization_digest_of(operation) {
        Some(PublicationError::InvalidOperationSeal { seal: "initialization" })
    } else {
        None
    }
}

/// Checks that an operation carries its own digests.
pub fn check_operation_seals(operation: &PublishOperationRecord) -> (result: Result<
    (),
    PublicationError,
>)
    requires
        operation.wf(),
    ensures
        match result {
            Ok(_) => seal_mismatch(*operation) is None,
            Err(error) => seal_mismatch(*operation) == Some(error),
        },
{
    let identity: [u8; 32] = publish_identity_digest(operation);
    if !same_bytes(operation.identity_digest.as_slice(), identity.as_slice()) {
        return Err(PublicationError::InvalidOperationSeal { seal: "identity" });
    }
    let initialization: [u8; 32] = publish_initialization_digest(operation);
    if !same_bytes(operation.initialization_digest.as_slice(), initialization.as_slice()) {
        return Err(PublicationError::InvalidOperationSeal { seal: "initialization" });
    }
    Ok(())
}

/// An operation that is invalid or does not carry its own digests.
pub open spec fn seals_fault(operation: Coded<PublishOperationRecord>) -> Option<
    PublicationError,
> {
    first_fault(validity_fault(operation), seal_mismatch(operation.record))
}

/// Checks that an operation is valid and carries its own digests.
pub fn validate_operation_seals(operation: &Coded<PublishOperationRecord>) -> (result: Result<
    (),
    PublicationError,
>)
    requires
        operation.record.wf(),
    ensures
        match result {
            Ok(_) => seals_fault(*operation) is None,
            Err(error) => seals_fault(*operation) == Some(error),
        },
{
    check_validity(operation)?;
    check_operation_seals(&operation.record)
}

/// The proof that a finalizing operation was not published when it was taken
/// over: a digest over the fence of the takeover and the operation's bytes.
pub open spec fn absence_proof_of(context: PublicationContext, payload: Seq<u8>) -> Seq<u8> {
    sha256_of(
        utf8("nokv.publish.finalization-takeover-absence.v1\0"@) + id_bytes(context.root_id.bits)
            + id_bytes(context.logical_shard_id.bits) + be_bytes(
            context.placement_generation.value as nat,
            8,
        ) + be_bytes(context.owner_epoch.value as nat, 8) + id_bytes(context.request_id.bits)
            + be_bytes(context.read_version.value as nat, 8) + sized(payload),
    )
}

/// Derives the proof that a finalizing operation was not published.
pub fn finalization_takeover_absence_proof(
    context: PublicationContext,
    finalizing_payload: &[u8],
) -> (result: Result<[u8; 32], PublicationError>)
    ensures
        match result {
            Ok(proof_digest) => {
                &&& canonical_length_fault(finalizing_payload@.len()) is None
                &&& proof_digest@ == absence_proof_of(context, finalizing_payload@)
            },
            Err(error) => canonical_length_fault(finalizing_payload@.len()) == Some(error),
        },
{
    let mut input: Vec<u8> = Vec::new();
    put_slice(&mut input, "nokv.publish.finalization-takeover-absence.v1\0".as_bytes());
    assert(input@ =~= utf8("nokv.publish.finalization-takeover-absence.v1\0"@));
    put_be(&mut input, context.root_id.bits, 16);
    put_be(&mut input, context.logical_shard_id.bits, 16);
    put_be(&mut input, context.placement_generation.value as u128, 8);
    put_be(&mut input, context.owner_epoch.value as u128, 8);
    put_be(&mut input, context.request_id.bits, 16);
    put_be(&mut input, context.read_version.value as u128, 8);
    put_canonical(&mut input, finalizing_payload)?;
    Ok(sha256(input.as_slice()))
}

/// How a verdict is named in an audit message.
pub open spec fn resolution_label(resolution: QuarantineReconcileResolution) -> Seq<char> {
    match resolution {
        QuarantineReconcileResolution::RevisionUnpublished => "revision-unpublished"@,
        QuarantineReconcileResolution::RevisionPublished => "revision-published"@,
    }
}

/// The audit message of an operator's reconciliation.
pub open spec fn reconcile_message_of(
    resolution: QuarantineReconcileResolution,
    reason: Seq<char>,
) -> Seq<char> {
    "operator reconciliation ("@ + resolution_label(resolution) + "): "@ + reason
}

/// The audit message of an operator's reconciliation.
pub fn reconcile_terminal_message(resolution: QuarantineReconcileResolution, reason: &str) -> (text:
    String)
    ensures
        text@ == reconcile_message_of(resolution, reason@),
{
    let mut text: String = "operator reconciliation (".to_owned();
    match resolution {
        QuarantineReconcileResolution::RevisionUnpublished => push_text(
            &mut text,
            "revision-unpublished",
        ),
        QuarantineReconcileResolution::RevisionPublished => push_text(
            &mut text,
            "revision-published",
        ),
    }
    push_text(&mut text, "): ");
    push_text(&mut text, reason);
    text
}

/// The audit digest that binds a verdict, the operator's evidence, and the
/// evidence of the quarantine.
pub open spec fn reconcile_digest_of(
    resolution: QuarantineReconcileResolution,
    original: Option<Seq<u8>>,
    operator: Seq<u8>,
) -> Seq<u8> {
    sha256_of(
        utf8("nokv.publish.reconcile-evidence.v1\0"@) + (match resolution {
            QuarantineReconcileResolution::RevisionUnpublished => seq![1u8],
            QuarantineReconcileResolution::RevisionPublished => seq![2u8],
        }) + (match original {
            None => seq![0u8],
            Some(digest) => seq![1u8] + digest,
        }) + operator,
    )
}

/// An optional digest as a sequence.
pub open spec fn digest_view(digest: Option<[u8; 32]>) -> Option<Seq<u8>> {
    match digest {
        None => None,
        Some(digest) => Some(digest@),
    }
}

/// Deterministic audit digest of an operator's reconciliation.
pub fn reconcile_evidence_digest(
    resolution: QuarantineReconcileResolution,
    original_evidence_digest: Option<[u8; 32]>,
    operator_evidence_digest: [u8; 32],
) -> (digest: [u8; 32])
    ensures
        digest@ == reconcile_digest_of(
            resolution,
            digest_view(original_evidence_digest),
            operator_evidence_digest@,
        ),
{
    let mut input: Vec<u8> = Vec::new();
    put_slice(&mut input, "nokv.publish.reconcile-evidence.v1\0".as_bytes());
    assert(input@ =~= utf8("nokv.publish.reconcile-evidence.v1\0"@));
    match resolution {
        QuarantineReconcileResolution::RevisionUnpublished => put_byte(&mut input, 1),
        QuarantineReconcileResolution::RevisionPublished => put_byte(&mut input, 2),
    }
    match original_evidence_digest {
        None => put_byte(&mut input, 0),
        Some(digest) => {
            let ghost head = input@;
            put_byte(&mut input, 1);
            put_slice(&mut input, digest.as_slice());
            proof {
                lemma_concat_assoc(head, seq![1u8], digest@);
            }
        },
    }
    put_slice(&mut input, operator_evidence_digest.as_slice());
    sha256(input.as_slice())
}

} // verus!
