//! Rules that decide single steps of a publication.

use crate::ids::{ArtifactRevisionId, Generation};
use crate::publication_digests::{check_validity, validity_fault};
use crate::publication_error::PublicationError;
use crate::publication_records::{first_fault, optional_text, PathEntryView};
use crate::publish_records::{Coded, CommitManifestCondition, PublishClaim, PublishOperationRecord,
    PublishPhase, PublishTransition, RestoreCommitProvenance, RestoreDestinationBinding,
    RestoreManifestIdentity, RestoreManifestPublication, RestoreOperationRecord,
    StagedCleanupState, StagedObjectRecord, StagedProviderState};
use crate::text::same_text;
use vstd::prelude::*;

verus! {

/// Maximum rows admitted by one recoverable publication batch.
pub const MAX_PUBLICATION_BATCH_ROWS: usize = 192;

/// An operation that is not in the phase that a step needs.
pub open spec fn phase_fault(operation: PublishOperationRecord, expected: PublishPhase) -> Option<
    PublicationError,
> {
    if operation.phase == expected {
        None
    } else {
        Some(PublicationError::InvalidOperationPhase { expected, actual: operation.phase })
    }
}

pub fn require_operation_phase(operation: &PublishOperationRecord, expected: PublishPhase) -> (result:
    Result<(), PublicationError>)
    ensures
        match result {
            Ok(_) => phase_fault(*operation, expected) is None,
            Err(error) => phase_fault(*operation, expected) == Some(error),
        },
{
    if operation.phase == expected {
        Ok(())
    } else {
        Err(PublicationError::InvalidOperationPhase { expected, actual: operation.phase })
    }
}

/// A batch that is empty or too large.
pub open spec fn batch_size_fault(batch: &'static str, count: nat) -> Option<PublicationError> {
    if count == 0 {
        Some(PublicationError::EmptyBatch { batch })
    } else if count > MAX_PUBLICATION_BATCH_ROWS {
        Some(
            PublicationError::BatchTooLarge {
                batch,
                count: count as usize,
                max: MAX_PUBLICATION_BATCH_ROWS,
            },
        )
    } else {
        None
    }
}

pub fn validate_batch_size(batch: &'static str, count: usize) -> (result: Result<
    (),
    PublicationError,
>)
    ensures
        match result {
            Ok(_) => batch_size_fault(batch, count as nat) is None,
            Err(error) => batch_size_fault(batch, count as nat) == Some(error),
        },
{
    if count == 0 {
        return Err(PublicationError::EmptyBatch { batch });
    }
    if count > MAX_PUBLICATION_BATCH_ROWS {
        return Err(
            PublicationError::BatchTooLarge { batch, count, max: MAX_PUBLICATION_BATCH_ROWS },
        );
    }
    Ok(())
}

/// A batch that runs past what was planned.
pub open spec fn batch_cursor_fault(
    batch: &'static str,
    cursor: u32,
    count: nat,
    planned: u32,
) -> Option<PublicationError> {
    if cursor + count > planned {
        Some(
            PublicationError::BatchExceedsPlannedCount {
                batch,
                cursor,
                count: count as usize,
                planned,
            },
        )
    } else {
        None
    }
}

/// The cursor after a batch that stays within what was planned.
pub fn checked_batch_cursor(batch: &'static str, cursor: u32, count: usize, planned: u32) -> (result:
    Result<u32, PublicationError>)
    ensures
        match result {
            Ok(next) => batch_cursor_fault(batch, cursor, count as nat, planned) is None && next
                == cursor + count,
            Err(error) => batch_cursor_fault(batch, cursor, count as nat, planned) == Some(error),
        },
{
    if cursor > planned || count > (planned - cursor) as usize {
        return Err(PublicationError::BatchExceedsPlannedCount { batch, cursor, count, planned });
    }
    Ok(cursor + count as u32)
}

/// Whether the provider state of a staged object may change so.
pub open spec fn provider_may_become(expected: StagedProviderState, next: StagedProviderState) -> bool {
    expected == next || match expected {
        StagedProviderState::Planned => next != StagedProviderState::Aborted,
        StagedProviderState::Uploading => next == StagedProviderState::Uploaded || next
            == StagedProviderState::AbortPending || next == StagedProviderState::Ambiguous,
        StagedProviderState::Uploaded => next == StagedProviderState::AbortPending || next
            == StagedProviderState::Aborted || next == StagedProviderState::Ambiguous,
        StagedProviderState::AbortPending => next == StagedProviderState::Aborted || next
            == StagedProviderState::Ambiguous,
        StagedProviderState::Aborted => false,
        StagedProviderState::Ambiguous => false,
    }
}

pub fn valid_provider_transition(expected: StagedProviderState, next: StagedProviderState) -> (valid:
    bool)
    ensures
        valid == provider_may_become(expected, next),
{
    expected == next || match expected {
        StagedProviderState::Planned => match next {
            StagedProviderState::Uploading
            | StagedProviderState::Uploaded
            | StagedProviderState::AbortPending
            | StagedProviderState::Ambiguous => true,
            _ => false,
        },
        StagedProviderState::Uploading => match next {
            StagedProviderState::Uploaded
            | StagedProviderState::AbortPending
            | StagedProviderState::Ambiguous => true,
            _ => false,
        },
        StagedProviderState::Uploaded => match next {
            StagedProviderState::AbortPending
            | StagedProviderState::Aborted
            | StagedProviderState::Ambiguous => true,
            _ => false,
        },
        StagedProviderState::AbortPending => match next {
            StagedProviderState::Aborted | StagedProviderState::Ambiguous => true,
            _ => false,
        },
        _ => false,
    }
}

/// Whether the cleanup state of a staged object may change so.
pub open spec fn cleanup_may_become(expected: StagedCleanupState, next: StagedCleanupState) -> bool {
    expected == next || match expected {
        StagedCleanupState::Owned => next == StagedCleanupState::DeletePending || next
            == StagedCleanupState::Quarantined,
        StagedCleanupState::DeletePending => next == StagedCleanupState::Deleted || next
            == StagedCleanupState::Quarantined,
        StagedCleanupState::Deleted => false,
        StagedCleanupState::Quarantined => false,
    }
}

pub fn valid_cleanup_transition(expected: StagedCleanupState, next: StagedCleanupState) -> (valid:
    bool)
    ensures
        valid == cleanup_may_become(expected, next),
{
    expected == next || match expected {
        StagedCleanupState::Owned => match next {
            StagedCleanupState::DeletePending | StagedCleanupState::Quarantined => true,
            _ => false,
        },
        StagedCleanupState::DeletePending => match next {
            StagedCleanupState::Deleted | StagedCleanupState::Quarantined => true,
            _ => false,
        },
        _ => false,
    }
}

/// A provider state is never entered again once it was left, and an aborted or
/// ambiguous object stays so.
pub proof fn provider_states_never_return(
    a: StagedProviderState,
    b: StagedProviderState,
    c: StagedProviderState,
)
    requires
        provider_may_become(a, b),
        provider_may_become(b, c),
        a != b,
    ensures
        c != a,
        a != StagedProviderState::Aborted,
        a != StagedProviderState::Ambiguous,
{
}

/// A cleanup state is never entered again once it was left, and a deleted or
/// quarantined object stays so.
pub proof fn cleanup_states_never_return(
    a: StagedCleanupState,
    b: StagedCleanupState,
    c: StagedCleanupState,
)
    requires
        cleanup_may_become(a, b),
        cleanup_may_become(b, c),
        a != b,
    ensures
        c != a,
        a != StagedCleanupState::Deleted,
        a != StagedCleanupState::Quarantined,
{
}

/// Whether two records stage the same object: everything that does not change
/// while it is uploaded or cleaned up.
pub open spec fn same_staged_object(a: StagedObjectRecord, b: StagedObjectRecord) -> bool {
    &&& a.artifact_revision_id == b.artifact_revision_id
    &&& a.object_sequence == b.object_sequence
    &&& a.object_key.text@ == b.object_key.text@
    &&& a.expected_length == b.expected_length
    &&& a.expected_digest_uri@ == b.expected_digest_uri@
}

fn stages_same_object(a: &StagedObjectRecord, b: &StagedObjectRecord) -> (same: bool)
    ensures
        same == same_staged_object(*a, *b),
{
    a.artifact_revision_id == b.artifact_revision_id && a.object_sequence == b.object_sequence
        && same_text(a.object_key.text.as_str(), b.object_key.text.as_str()) && a.expected_length
        == b.expected_length && same_text(
        a.expected_digest_uri.as_str(),
        b.expected_digest_uri.as_str(),
    )
}

fn same_optional_text(a: &Option<String>, b: &Option<String>) -> (same: bool)
    ensures
        same == (optional_text(*a) == optional_text(*b)),
{
    match (a, b) {
        (None, None) => true,
        (Some(a), Some(b)) => same_text(a.as_str(), b.as_str()),
        _ => false,
    }
}

/// A cleanup proof that is none: it must keep the object and its upload, and
/// end with the object aborted and deleted.
pub open spec fn cleanup_update_fault(
    expected: Coded<StagedObjectRecord>,
    next: Coded<StagedObjectRecord>,
) -> Option<PublicationError> {
    first_fault(
        validity_fault(expected),
        first_fault(
            validity_fault(next),
            if !same_staged_object(expected.record, next.record) || optional_text(
                expected.record.multipart_upload_id,
            ) != optional_text(next.record.multipart_upload_id) || next.record.provider_state
                != StagedProviderState::Aborted || next.record.cleanup_state
                != StagedCleanupState::Deleted {
                Some(
                    PublicationError::InvalidStagedObjectTransition {
                        sequence: expected.record.object_sequence,
                    },
                )
            } else {
                None
            },
        ),
    )
}

pub fn validate_cleanup_update(
    expected: &Coded<StagedObjectRecord>,
    next: &Coded<StagedObjectRecord>,
) -> (result: Result<(), PublicationError>)
    ensures
        match result {
            Ok(_) => cleanup_update_fault(*expected, *next) is None,
            Err(error) => cleanup_update_fault(*expected, *next) == Some(error),
        },
{
    check_validity(expected)?;
    check_validity(next)?;
    if !stages_same_object(&expected.record, &next.record) || !same_optional_text(
        &expected.record.multipart_upload_id,
        &next.record.multipart_upload_id,
    ) || next.record.provider_state != StagedProviderState::Aborted || next.record.cleanup_state
        != StagedCleanupState::Deleted {
        return Err(
            PublicationError::InvalidStagedObjectTransition {
                sequence: expected.record.object_sequence,
            },
        );
    }
    Ok(())
}

/// A staged update that is none: it must change something, keep the object and
/// a known upload, and move both states forward.
pub open spec fn staged_update_fault(
    expected: Coded<StagedObjectRecord>,
    next: Coded<StagedObjectRecord>,
) -> Option<PublicationError> {
    let (a, b) = (expected.record, next.record);
    let unchanged = same_staged_object(a, b) && optional_text(a.multipart_upload_id)
        == optional_text(b.multipart_upload_id) && a.provider_state == b.provider_state
        && a.cleanup_state == b.cleanup_state;
    first_fault(
        validity_fault(expected),
        first_fault(
            validity_fault(next),
            if unchanged || !same_staged_object(a, b) || (a.multipart_upload_id is Some
                && optional_text(a.multipart_upload_id) != optional_text(b.multipart_upload_id))
                || !provider_may_become(a.provider_state, b.provider_state) || !cleanup_may_become(
                a.cleanup_state,
                b.cleanup_state,
            ) {
                Some(
                    PublicationError::InvalidStagedObjectTransition { sequence: a.object_sequence },
                )
            } else {
                None
            },
        ),
    )
}

pub fn validate_staged_update(
    expected: &Coded<StagedObjectRecord>,
    next: &Coded<StagedObjectRecord>,
) -> (result: Result<(), PublicationError>)
    ensures
        match result {
            Ok(_) => staged_update_fault(*expected, *next) is None,
            Err(error) => staged_update_fault(*expected, *next) == Some(error),
        },
{
    check_validity(expected)?;
    check_validity(next)?;
    let a: &StagedObjectRecord = &expected.record;
    let b: &StagedObjectRecord = &next.record;
    let same_object: bool = stages_same_object(a, b);
    let same_upload: bool = same_optional_text(&a.multipart_upload_id, &b.multipart_upload_id);
    let unchanged: bool = same_object && same_upload && a.provider_state == b.provider_state
        && a.cleanup_state == b.cleanup_state;
    if unchanged || !same_object || (a.multipart_upload_id.is_some() && !same_upload)
        || !valid_provider_transition(a.provider_state, b.provider_state)
        || !valid_cleanup_transition(a.cleanup_state, b.cleanup_state) {
        return Err(
            PublicationError::InvalidStagedObjectTransition { sequence: a.object_sequence },
        );
    }
    Ok(())
}

/// Whether a publication's claim is the one that a commit build expects.
pub open spec fn manifest_claim_matches(
    expected: CommitManifestCondition,
    actual: PublishClaim,
) -> bool {
    match (expected, actual) {
        (CommitManifestCondition::CreateOnly, PublishClaim::CreateOnly) => true,
        (
            CommitManifestCondition::ReplaceOnly { expected_generation },
            PublishClaim::ReplaceOnly { expected_generation: actual_generation },
        ) => expected_generation == actual_generation,
        _ => false,
    }
}

pub fn commit_manifest_claim_matches(
    expected: CommitManifestCondition,
    actual: &PublishClaim,
) -> (matches: bool)
    ensures
        matches == manifest_claim_matches(expected, *actual),
{
    match (expected, actual) {
        (CommitManifestCondition::CreateOnly, PublishClaim::CreateOnly) => true,
        (
            CommitManifestCondition::ReplaceOnly { expected_generation },
            PublishClaim::ReplaceOnly { expected_generation: actual_generation },
        ) => expected_generation == *actual_generation,
        _ => false,
    }
}

/// Which of its two manifests a restore publishes.
#[derive(Clone, Copy, Debug, PartialEq, Eq, Structural)]
pub enum RestoreManifestKind {
    Run,
    Restore,
}

/// Whether a command moves a publication forward or sheds it.
#[derive(Clone, Copy, Debug, PartialEq, Eq, Structural)]
pub enum PublicationAuthorityPurpose {
    Forward,
    Cleanup,
}

/// What a transition is for.
pub open spec fn purpose_of(transition: PublishTransition) -> PublicationAuthorityPurpose {
    match transition {
        PublishTransition::BeginFinalization => PublicationAuthorityPurpose::Forward,
        PublishTransition::Publish { .. } => PublicationAuthorityPurpose::Forward,
        _ => PublicationAuthorityPurpose::Cleanup,
    }
}

pub fn transition_authority_purpose(transition: &PublishTransition) -> (purpose:
    PublicationAuthorityPurpose)
    ensures
        purpose == purpose_of(*transition),
{
    match transition {
        PublishTransition::BeginFinalization => PublicationAuthorityPurpose::Forward,
        PublishTransition::Publish { .. } => PublicationAuthorityPurpose::Forward,
        PublishTransition::BeginAbort { .. } => PublicationAuthorityPurpose::Cleanup,
        PublishTransition::BeginCleaning => PublicationAuthorityPurpose::Cleanup,
        PublishTransition::FinishCleanup => PublicationAuthorityPurpose::Cleanup,
        PublishTransition::Quarantine { .. } => PublicationAuthorityPurpose::Cleanup,
    }
}

/// The binding of a restore's destination, where it has one.
pub open spec fn binding_of(restore: RestoreOperationRecord) -> Option<RestoreDestinationBinding> {
    match restore.commit_provenance {
        RestoreCommitProvenance::V5 { destination_binding } => destination_binding,
        RestoreCommitProvenance::Other => None,
    }
}

pub fn restore_destination_binding(restore: &RestoreOperationRecord) -> (result: Result<
    &RestoreDestinationBinding,
    PublicationError,
>)
    ensures
        match result {
            Ok(binding) => binding_of(*restore) == Some(*binding),
            Err(error) => binding_of(*restore) is None && error
                == PublicationError::RestoreAuthorityMismatch,
        },
{
    match &restore.commit_provenance {
        RestoreCommitProvenance::V5 { destination_binding } => match destination_binding {
            Some(binding) => Ok(binding),
            None => Err(PublicationError::RestoreAuthorityMismatch),
        },
        RestoreCommitProvenance::Other => Err(PublicationError::RestoreAuthorityMismatch),
    }
}

/// The identity that a restore reserves for a manifest.
pub open spec fn manifest_identity(binding: RestoreDestinationBinding, kind: RestoreManifestKind) -> RestoreManifestIdentity {
    match kind {
        RestoreManifestKind::Run => binding.run_manifest_identity,
        RestoreManifestKind::Restore => binding.restore_manifest_identity,
    }
}

pub fn expected_restore_manifest_identity(
    binding: &RestoreDestinationBinding,
    kind: RestoreManifestKind,
) -> (identity: RestoreManifestIdentity)
    ensures
        identity == manifest_identity(*binding, kind),
{
    match kind {
        RestoreManifestKind::Run => binding.run_manifest_identity,
        RestoreManifestKind::Restore => binding.restore_manifest_identity,
    }
}

/// The manifest that a restore has published, where it has.
pub open spec fn manifest_publication(
    binding: RestoreDestinationBinding,
    kind: RestoreManifestKind,
) -> Option<RestoreManifestPublication> {
    match binding.manifests {
        None => None,
        Some(manifests) => match kind {
            RestoreManifestKind::Run => Some(manifests.run_manifest),
            RestoreManifestKind::Restore => Some(manifests.restore_manifest),
        },
    }
}

pub fn actual_restore_manifest_publication(
    binding: &RestoreDestinationBinding,
    kind: RestoreManifestKind,
) -> (publication: Option<&RestoreManifestPublication>)
    ensures
        match publication {
            Some(publication) => manifest_publication(*binding, kind) == Some(*publication),
            None => manifest_publication(*binding, kind) is None,
        },
{
    match &binding.manifests {
        None => None,
        Some(manifests) => match kind {
            RestoreManifestKind::Run => Some(&manifests.run_manifest),
            RestoreManifestKind::Restore => Some(&manifests.restore_manifest),
        },
    }
}

/// A claim that the current path entry does not meet.
pub open spec fn path_claim_fault(claim: PublishClaim, current: Option<PathEntryView>) -> Option<
    PublicationError,
> {
    match (claim, current) {
        (PublishClaim::CreateOnly, None) => None,
        (PublishClaim::CreateOnly, Some(_)) => Some(PublicationError::PathAlreadyExists),
        (_, None) => Some(PublicationError::PathNotFound),
        (PublishClaim::ReplaceOnly { expected_generation }, Some(entry)) => generation_fault(
            expected_generation,
            entry.generation,
        ),
        (
            PublishClaim::Append { expected_generation, base_revision_id, append_offset },
            Some(entry),
        ) => first_fault(
            generation_fault(expected_generation, entry.generation),
            if entry.artifact_revision_id != base_revision_id {
                Some(PublicationError::AppendBaseRevisionMismatch)
            } else {
                None
            },
        ),
    }
}

/// A current generation that is not the expected one, or is the last one.
pub open spec fn generation_fault(expected: Generation, current: Generation) -> Option<
    PublicationError,
> {
    if current != expected {
        Some(
            PublicationError::PathGenerationMismatch {
                expected: expected.value,
                actual: current.value,
            },
        )
    } else if expected.value == u64::MAX {
        Some(PublicationError::PathGenerationOverflow)
    } else {
        None
    }
}

/// The generation of a path after a publication that its claim admits.
pub open spec fn claimed_generation(claim: PublishClaim) -> u64 {
    match claim {
        PublishClaim::CreateOnly => 1,
        PublishClaim::ReplaceOnly { expected_generation } => (expected_generation.value + 1) as u64,
        PublishClaim::Append { expected_generation, .. } => (expected_generation.value + 1) as u64,
    }
}

fn next_generation(expected: Generation, current: Generation) -> (result: Result<
    Generation,
    PublicationError,
>)
    ensures
        match result {
            Ok(next) => generation_fault(expected, current) is None && next.value == expected.value
                + 1,
            Err(error) => generation_fault(expected, current) == Some(error),
        },
{
    if current.value != expected.value {
        return Err(
            PublicationError::PathGenerationMismatch {
                expected: expected.value,
                actual: current.value,
            },
        );
    }
    if expected.value == u64::MAX {
        return Err(PublicationError::PathGenerationOverflow);
    }
    Ok(Generation { value: expected.value + 1 })
}

/// Checks a claim against the current path entry, and gives the next
/// generation.
pub fn validate_path_claim(
    claim: &PublishClaim,
    current: Option<&crate::publication_records::PathEntry>,
) -> (result: Result<Generation, PublicationError>)
    ensures
        ({
            let entry = match current {
                None => None,
                Some(entry) => Some(entry@),
            };
            match result {
                Ok(generation) => path_claim_fault(*claim, entry) is None && generation.value
                    == claimed_generation(*claim),
                Err(error) => path_claim_fault(*claim, entry) == Some(error),
            }
        }),
{
    match (claim, current) {
        (PublishClaim::CreateOnly, None) => Ok(Generation { value: 1 }),
        (PublishClaim::CreateOnly, Some(_)) => Err(PublicationError::PathAlreadyExists),
        (_, None) => Err(PublicationError::PathNotFound),
        (PublishClaim::ReplaceOnly { expected_generation }, Some(entry)) => next_generation(
            *expected_generation,
            entry.generation,
        ),
        (
            PublishClaim::Append { expected_generation, base_revision_id, append_offset },
            Some(entry),
        ) => {
            let generation: Generation = next_generation(*expected_generation, entry.generation)?;
            if entry.artifact_revision_id != *base_revision_id {
                return Err(PublicationError::AppendBaseRevisionMismatch);
            }
            Ok(generation)
        },
    }
}

/// A publication that its claim admits gives its path a later generation.
pub proof fn path_generations_advance(claim: PublishClaim, current: PathEntryView)
    requires
        path_claim_fault(claim, Some(current)) is None,
    ensures
        claimed_generation(claim) == current.generation.value + 1,
{
}

/// Whether `revision` is among `owners`.
pub fn contains_revision(
    owners: &Vec<ArtifactRevisionId>,
    revision: ArtifactRevisionId,
) -> (contained: bool)
    ensures
        contained == owners@.contains(revision),
{
    let mut i: usize = 0;
    while i < owners.len()
        invariant
            i <= owners@.len(),
            forall|k: int| 0 <= k < i ==> owners@[k] != revision,
        decreases owners@.len() - i,
    {
        if owners[i] == revision {
            assert(owners@[i as int] == revision);
            return true;
        }
        i = i + 1;
    }
    false
}

} // verus!
