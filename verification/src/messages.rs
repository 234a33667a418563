//! Failures in words.

use crate::command::RecoveryCodecError;
use crate::ids::{id_bytes, MetadataFamily};
use crate::prose::{decimal_text, hex_byte, hex_list, hex_text, push_byte_digits, push_decimal,
    push_hex, push_hex_list, push_text};
use crate::publication_error::{PublicationError, QuarantineReconcileResolution};
use crate::publication_records::PublicationRecordCodecError;
use crate::publication_store::PublicationPolicy;
use crate::publish_records::PublishPhase;
use crate::query_records::QueryRecordError;
use vstd::prelude::*;

verus! {

/// The name of a phase.
pub open spec fn phase_name(value: PublishPhase) -> Seq<char> {
    match value {
        PublishPhase::Uploading => "Uploading"@,
        PublishPhase::Finalizing => "Finalizing"@,
        PublishPhase::Published => "Published"@,
        PublishPhase::Aborting => "Aborting"@,
        PublishPhase::Cleaning => "Cleaning"@,
        PublishPhase::Cleaned => "Cleaned"@,
        PublishPhase::Quarantined => "Quarantined"@,
    }
}

fn name_phase(value: PublishPhase) -> (name: &'static str)
    ensures
        name@ == phase_name(value),
{
    match value {
        PublishPhase::Uploading => "Uploading",
        PublishPhase::Finalizing => "Finalizing",
        PublishPhase::Published => "Published",
        PublishPhase::Aborting => "Aborting",
        PublishPhase::Cleaning => "Cleaning",
        PublishPhase::Cleaned => "Cleaned",
        PublishPhase::Quarantined => "Quarantined",
    }
}

/// The name of a family.
pub open spec fn family_name(value: MetadataFamily) -> Seq<char> {
    match value {
        MetadataFamily::WorkspaceCurrent => "WorkspaceCurrent"@,
        MetadataFamily::PathCurrent => "PathCurrent"@,
        MetadataFamily::PathIndexLocator => "PathIndexLocator"@,
        MetadataFamily::SecondaryIndex => "SecondaryIndex"@,
        MetadataFamily::ArtifactRevision => "ArtifactRevision"@,
        MetadataFamily::ArtifactManifest => "ArtifactManifest"@,
        MetadataFamily::RevisionRef => "RevisionRef"@,
        MetadataFamily::GcCandidate => "GcCandidate"@,
        MetadataFamily::StagedObject => "StagedObject"@,
        MetadataFamily::Commit => "Commit"@,
        MetadataFamily::WorkbenchCommitHead => "WorkbenchCommitHead"@,
        MetadataFamily::Operation => "Operation"@,
    }
}

fn name_family(value: MetadataFamily) -> (name: &'static str)
    ensures
        name@ == family_name(value),
{
    match value {
        MetadataFamily::WorkspaceCurrent => "WorkspaceCurrent",
        MetadataFamily::PathCurrent => "PathCurrent",
        MetadataFamily::PathIndexLocator => "PathIndexLocator",
        MetadataFamily::SecondaryIndex => "SecondaryIndex",
        MetadataFamily::ArtifactRevision => "ArtifactRevision",
        MetadataFamily::ArtifactManifest => "ArtifactManifest",
        MetadataFamily::RevisionRef => "RevisionRef",
        MetadataFamily::GcCandidate => "GcCandidate",
        MetadataFamily::StagedObject => "StagedObject",
        MetadataFamily::Commit => "Commit",
        MetadataFamily::WorkbenchCommitHead => "WorkbenchCommitHead",
        MetadataFamily::Operation => "Operation",
    }
}

/// The name of a verdict.
pub open spec fn resolution_name(value: QuarantineReconcileResolution) -> Seq<char> {
    match value {
        QuarantineReconcileResolution::RevisionUnpublished => "RevisionUnpublished"@,
        QuarantineReconcileResolution::RevisionPublished => "RevisionPublished"@,
    }
}

fn name_resolution(value: QuarantineReconcileResolution) -> (name: &'static str)
    ensures
        name@ == resolution_name(value),
{
    match value {
        QuarantineReconcileResolution::RevisionUnpublished => "RevisionUnpublished",
        QuarantineReconcileResolution::RevisionPublished => "RevisionPublished",
    }
}

/// A truth value in words.
pub open spec fn bool_name(value: bool) -> Seq<char> {
    if value {
        "true"@
    } else {
        "false"@
    }
}

fn name_bool(value: bool) -> (name: &'static str)
    ensures
        name@ == bool_name(value),
{
    if value {
        "true"
    } else {
        "false"
    }
}

/// A failure of a publication record codec in words.
pub open spec fn record_message(error: PublicationRecordCodecError) -> Seq<char> {
    match error {
        PublicationRecordCodecError::UnsupportedValueVersion { actual, expected } => {
            "unsupported publication value format version "@ + decimal_text(actual as nat)
                + ", expected "@ + decimal_text(expected as nat)
        },
        PublicationRecordCodecError::UnknownDiscriminant { type_label, value } => {
            "unknown "@ + type_label@ + " discriminant "@ + decimal_text(value as nat)
        },
        PublicationRecordCodecError::ZeroScalar { field } => field@ + " must be non-zero"@,
        PublicationRecordCodecError::InvalidOptionalTag { field, value } => {
            "invalid optional tag "@ + decimal_text(value as nat) + " for "@ + field@
        },
        PublicationRecordCodecError::LengthLimit { field, length, max } => {
            field@ + " length "@ + decimal_text(length as nat) + " exceeds maximum "@
                + decimal_text(max as nat)
        },
        PublicationRecordCodecError::InvalidUtf8 { field } => field@ + " is not valid UTF-8"@,
        PublicationRecordCodecError::InvalidWorkbenchId { reason } => {
            "invalid claimed workbench id: "@ + reason@
        },
        PublicationRecordCodecError::EmptyString { field } => field@ + " must not be empty"@,
        PublicationRecordCodecError::ContainsNul { field, index } => {
            field@ + " contains NUL at byte offset "@ + decimal_text(index as nat)
        },
        PublicationRecordCodecError::DependencyCountLimit { count, max } => {
            "dependency count "@ + decimal_text(count as nat) + " exceeds maximum "@
                + decimal_text(max as nat)
        },
        PublicationRecordCodecError::DependencyDepthLimit { depth, max } => {
            "dependency depth "@ + decimal_text(depth as nat) + " exceeds maximum "@
                + decimal_text(max as nat)
        },
        PublicationRecordCodecError::InvalidDependencyShape => {
            "dependency count and depth must either both be zero or both be non-zero"@
        },
        PublicationRecordCodecError::Truncated { field, needed, remaining } => {
            "truncated "@ + field@ + ": need "@ + decimal_text(needed as nat) + " bytes, have "@
                + decimal_text(remaining as nat)
        },
        PublicationRecordCodecError::TrailingBytes { count } => {
            "publication value has "@ + decimal_text(count as nat) + " trailing bytes"@
        },
    }
}

impl PublicationRecordCodecError {
    /// The failure in words.
    pub fn message(&self) -> (text: String)
        ensures
            text@ == record_message(*self),
    {
        match *self {
            PublicationRecordCodecError::UnsupportedValueVersion { actual, expected } => {
                let mut out: String = "unsupported publication value format version ".to_owned();
                push_decimal(&mut out, actual as u64);
                push_text(&mut out, ", expected ");
                push_decimal(&mut out, expected as u64);
                out
            },
            PublicationRecordCodecError::UnknownDiscriminant { type_label, value } => {
                let mut out: String = "unknown ".to_owned();
                push_text(&mut out, type_label);
                push_text(&mut out, " discriminant ");
                push_decimal(&mut out, value as u64);
                out
            },
            PublicationRecordCodecError::ZeroScalar { field } => {
                let mut out: String = field.to_owned();
                push_text(&mut out, " must be non-zero");
                out
            },
            PublicationRecordCodecError::InvalidOptionalTag { field, value } => {
                let mut out: String = "invalid optional tag ".to_owned();
                push_decimal(&mut out, value as u64);
                push_text(&mut out, " for ");
                push_text(&mut out, field);
                out
            },
            PublicationRecordCodecError::LengthLimit { field, length, max } => {
                let mut out: String = field.to_owned();
                push_text(&mut out, " length ");
                push_decimal(&mut out, length as u64);
                push_text(&mut out, " exceeds maximum ");
                push_decimal(&mut out, max as u64);
                out
            },
            PublicationRecordCodecError::InvalidUtf8 { field } => {
                let mut out: String = field.to_owned();
                push_text(&mut out, " is not valid UTF-8");
                out
            },
            PublicationRecordCodecError::InvalidWorkbenchId { reason } => {
                let mut out: String = "invalid claimed workbench id: ".to_owned();
                push_text(&mut out, reason);
                out
            },
            PublicationRecordCodecError::EmptyString { field } => {
                let mut out: String = field.to_owned();
                push_text(&mut out, " must not be empty");
                out
            },
            PublicationRecordCodecError::ContainsNul { field, index } => {
                let mut out: String = field.to_owned();
                push_text(&mut out, " contains NUL at byte offset ");
                push_decimal(&mut out, index as u64);
                out
            },
            PublicationRecordCodecError::DependencyCountLimit { count, max } => {
                let mut out: String = "dependency count ".to_owned();
                push_decimal(&mut out, count as u64);
                push_text(&mut out, " exceeds maximum ");
                push_decimal(&mut out, max as u64);
                out
            },
            PublicationRecordCodecError::DependencyDepthLimit { depth, max } => {
                let mut out: String = "dependency depth ".to_owned();
                push_decimal(&mut out, depth as u64);
                push_text(&mut out, " exceeds maximum ");
                push_decimal(&mut out, max as u64);
                out
            },
            PublicationRecordCodecError::InvalidDependencyShape => {
                "dependency count and depth must either both be zero or both be non-zero".to_owned()
            },
            PublicationRecordCodecError::Truncated { field, needed, remaining } => {
                let mut out: String = "truncated ".to_owned();
                push_text(&mut out, field);
                push_text(&mut out, ": need ");
                push_decimal(&mut out, needed as u64);
                push_text(&mut out, " bytes, have ");
                push_decimal(&mut out, remaining as u64);
                out
            },
            PublicationRecordCodecError::TrailingBytes { count } => {
                let mut out: String = "publication value has ".to_owned();
                push_decimal(&mut out, count as u64);
                push_text(&mut out, " trailing bytes");
                out
            },
        }
    }
}

/// A failure of a query record codec in words.
pub open spec fn query_message(error: QueryRecordError) -> Seq<char> {
    match error {
        QueryRecordError::UnsupportedValueVersion { actual, expected } => {
            "unsupported query value format version "@ + decimal_text(actual as nat)
                + ", expected "@ + decimal_text(expected as nat)
        },
        QueryRecordError::UnknownDiscriminant { type_label, value } => {
            "unknown "@ + type_label@ + " discriminant "@ + decimal_text(value as nat)
        },
        QueryRecordError::EmptyFieldId => "query field id must not be empty"@,
        QueryRecordError::InvalidFieldId { index, byte } => {
            "query field id has unsupported byte 0x"@ + hex_byte(byte) + " at offset "@
                + decimal_text(index as nat)
        },
        QueryRecordError::ReservedFieldId { field_id } => {
            "typed projection shadows built-in field "@ + field_id@
        },
        QueryRecordError::FieldCountLimit { count, max } => {
            "typed projection has "@ + decimal_text(count as nat) + " fields, maximum is "@
                + decimal_text(max as nat)
        },
        QueryRecordError::LengthLimit { field, length, max } => {
            field@ + " length "@ + decimal_text(length as nat) + " exceeds maximum "@
                + decimal_text(max as nat)
        },
        QueryRecordError::InvalidUtf8 { field } => field@ + " is not valid UTF-8"@,
        QueryRecordError::InvalidBoolean { value } => {
            "boolean discriminant "@ + decimal_text(value as nat) + " is invalid"@
        },
        QueryRecordError::NonFiniteFloat => "query float must be finite"@,
        QueryRecordError::NonCanonicalFloatZero => "query float negative zero is not canonical"@,
        QueryRecordError::ZeroScalar { field } => field@ + " must be non-zero"@,
        QueryRecordError::InvalidOptionalTag { field, value } => {
            "invalid optional tag "@ + decimal_text(value as nat) + " for "@ + field@
        },
        QueryRecordError::InvalidPath { reason } => "invalid event path: "@ + reason@,
        QueryRecordError::InvalidWorkbenchId { reason } => {
            "invalid event workbench id: "@ + reason@
        },
        QueryRecordError::NonCanonicalFieldOrder => {
            "typed projection fields are not strictly ordered"@
        },
        QueryRecordError::NonCanonicalEncoding => "typed query payload is not canonically encoded"@,
        QueryRecordError::Truncated { field, needed, remaining } => {
            "truncated "@ + field@ + ": need "@ + decimal_text(needed as nat) + " bytes, have "@
                + decimal_text(remaining as nat)
        },
        QueryRecordError::TrailingBytes { count } => {
            "typed query payload has "@ + decimal_text(count as nat) + " trailing bytes"@
        },
    }
}

impl QueryRecordError {
    /// The failure in words.
    pub fn message(&self) -> (text: String)
        ensures
            text@ == query_message(*self),
    {
        match *self {
            QueryRecordError::UnsupportedValueVersion { actual, expected } => {
                let mut out: String = "unsupported query value format version ".to_owned();
                push_decimal(&mut out, actual as u64);
                push_text(&mut out, ", expected ");
                push_decimal(&mut out, expected as u64);
                out
            },
            QueryRecordError::UnknownDiscriminant { type_label, value } => {
                let mut out: String = "unknown ".to_owned();
                push_text(&mut out, type_label);
                push_text(&mut out, " discriminant ");
                push_decimal(&mut out, value as u64);
                out
            },
            QueryRecordError::EmptyFieldId => "query field id must not be empty".to_owned(),
            QueryRecordError::InvalidFieldId { index, byte } => {
                let mut out: String = "query field id has unsupported byte 0x".to_owned();
                push_byte_digits(&mut out, byte);
                push_text(&mut out, " at offset ");
                push_decimal(&mut out, index as u64);
                out
            },
            QueryRecordError::ReservedFieldId { field_id } => {
                let mut out: String = "typed projection shadows built-in field ".to_owned();
                push_text(&mut out, field_id);
                out
            },
            QueryRecordError::FieldCountLimit { count, max } => {
                let mut out: String = "typed projection has ".to_owned();
                push_decimal(&mut out, count as u64);
                push_text(&mut out, " fields, maximum is ");
                push_decimal(&mut out, max as u64);
                out
            },
            QueryRecordError::LengthLimit { field, length, max } => {
                let mut out: String = field.to_owned();
                push_text(&mut out, " length ");
                push_decimal(&mut out, length as u64);
                push_text(&mut out, " exceeds maximum ");
                push_decimal(&mut out, max as u64);
                out
            },
            QueryRecordError::InvalidUtf8 { field } => {
                let mut out: String = field.to_owned();
                push_text(&mut out, " is not valid UTF-8");
                out
            },
            QueryRecordError::InvalidBoolean { value } => {
                let mut out: String = "boolean discriminant ".to_owned();
                push_decimal(&mut out, value as u64);
                push_text(&mut out, " is invalid");
                out
            },
            QueryRecordError::NonFiniteFloat => "query float must be finite".to_owned(),
            QueryRecordError::NonCanonicalFloatZero => {
                "query float negative zero is not canonical".to_owned()
            },
            QueryRecordError::ZeroScalar { field } => {
                let mut out: String = field.to_owned();
                push_text(&mut out, " must be non-zero");
                out
            },
            QueryRecordError::InvalidOptionalTag { field, value } => {
                let mut out: String = "invalid optional tag ".to_owned();
                push_decimal(&mut out, value as u64);
                push_text(&mut out, " for ");
                push_text(&mut out, field);
                out
            },
            QueryRecordError::InvalidPath { reason } => {
                let mut out: String = "invalid event path: ".to_owned();
                push_text(&mut out, reason);
                out
            },
            QueryRecordError::InvalidWorkbenchId { reason } => {
                let mut out: String = "invalid event workbench id: ".to_owned();
                push_text(&mut out, reason);
                out
            },
            QueryRecordError::NonCanonicalFieldOrder => {
                "typed projection fields are not strictly ordered".to_owned()
            },
            QueryRecordError::NonCanonicalEncoding => {
                "typed query payload is not canonically encoded".to_owned()
            },
            QueryRecordError::Truncated { field, needed, remaining } => {
                let mut out: String = "truncated ".to_owned();
                push_text(&mut out, field);
                push_text(&mut out, ": need ");
                push_decimal(&mut out, needed as u64);
                push_text(&mut out, " bytes, have ");
                push_decimal(&mut out, remaining as u64);
                out
            },
            QueryRecordError::TrailingBytes { count } => {
                let mut out: String = "typed query payload has ".to_owned();
                push_decimal(&mut out, count as u64);
                push_text(&mut out, " trailing bytes");
                out
            },
        }
    }
}

/// A failure of a recovery codec in words.
pub open spec fn recovery_message(error: RecoveryCodecError) -> Seq<char> {
    match error {
        RecoveryCodecError::UnsupportedVersion { actual, expected } => {
            "unsupported recovery format version "@ + decimal_text(actual as nat) + ", expected "@
                + decimal_text(expected as nat)
        },
        RecoveryCodecError::UnknownDiscriminant { type_label, value } => {
            "unknown "@ + type_label@ + " discriminant "@ + decimal_text(value as nat)
        },
        RecoveryCodecError::ZeroScalar { field } => field@ + " must be non-zero"@,
        RecoveryCodecError::InvalidValue { field } => "invalid "@ + field@,
        RecoveryCodecError::LengthOverflow { field, length } => {
            field@ + " length "@ + decimal_text(length as nat) + " exceeds u32"@
        },
        RecoveryCodecError::LengthBound { field, length, max } => {
            field@ + " length "@ + decimal_text(length as nat) + " exceeds "@
                + decimal_text(max as nat)
        },
        RecoveryCodecError::Truncated { field, needed, remaining } => {
            "truncated "@ + field@ + ": need "@ + decimal_text(needed as nat) + " bytes, have "@
                + decimal_text(remaining as nat)
        },
        RecoveryCodecError::TrailingBytes { count } => {
            "recovery value has "@ + decimal_text(count as nat) + " trailing bytes"@
        },
        RecoveryCodecError::ChainDigestMismatch => "recovery chain digest mismatch"@,
        RecoveryCodecError::EmptySegment => "recovery segment is empty"@,
        RecoveryCodecError::DuplicateRecoveryLsn { lsn } => {
            "recovery segment contains duplicate LSN "@ + decimal_text(lsn as nat)
        },
        RecoveryCodecError::RecoveryLsnGap { expected, actual } => {
            "recovery segment expected LSN "@ + decimal_text(expected as nat) + ", found "@
                + decimal_text(actual as nat)
        },
        RecoveryCodecError::RecoveryLsnRegression { previous, actual } => {
            "recovery segment LSN regressed from "@ + decimal_text(previous as nat) + " to "@
                + decimal_text(actual as nat)
        },
        RecoveryCodecError::UnexpectedLogicalShard { expected, actual } => {
            "recovery command targets logical shard "@ + hex_text(id_bytes(actual.bits))
                + ", expected "@ + hex_text(id_bytes(expected.bits))
        },
        RecoveryCodecError::SegmentHeaderMismatch => {
            "recovery segment header does not match its records"@
        },
        RecoveryCodecError::SegmentDigestMismatch => "recovery segment digest mismatch"@,
    }
}

impl RecoveryCodecError {
    /// The failure in words.
    pub fn message(&self) -> (text: String)
        ensures
            text@ == recovery_message(*self),
    {
        match *self {
            RecoveryCodecError::UnsupportedVersion { actual, expected } => {
                let mut out: String = "unsupported recovery format version ".to_owned();
                push_decimal(&mut out, actual as u64);
                push_text(&mut out, ", expected ");
                push_decimal(&mut out, expected as u64);
                out
            },
            RecoveryCodecError::UnknownDiscriminant { type_label, value } => {
                let mut out: String = "unknown ".to_owned();
                push_text(&mut out, type_label);
                push_text(&mut out, " discriminant ");
                push_decimal(&mut out, value as u64);
                out
            },
            RecoveryCodecError::ZeroScalar { field } => {
                let mut out: String = field.to_owned();
                push_text(&mut out, " must be non-zero");
                out
            },
            RecoveryCodecError::InvalidValue { field } => {
                let mut out: String = "invalid ".to_owned();
                push_text(&mut out, field);
                out
            },
            RecoveryCodecError::LengthOverflow { field, length } => {
                let mut out: String = field.to_owned();
                push_text(&mut out, " length ");
                push_decimal(&mut out, length as u64);
                push_text(&mut out, " exceeds u32");
                out
            },
            RecoveryCodecError::LengthBound { field, length, max } => {
                let mut out: String = field.to_owned();
                push_text(&mut out, " length ");
                push_decimal(&mut out, length as u64);
                push_text(&mut out, " exceeds ");
                push_decimal(&mut out, max as u64);
                out
            },
            RecoveryCodecError::Truncated { field, needed, remaining } => {
                let mut out: String = "truncated ".to_owned();
                push_text(&mut out, field);
                push_text(&mut out, ": need ");
                push_decimal(&mut out, needed as u64);
                push_text(&mut out, " bytes, have ");
                push_decimal(&mut out, remaining as u64);
                out
            },
            RecoveryCodecError::TrailingBytes { count } => {
                let mut out: String = "recovery value has ".to_owned();
                push_decimal(&mut out, count as u64);
                push_text(&mut out, " trailing bytes");
                out
            },
            RecoveryCodecError::ChainDigestMismatch => "recovery chain digest mismatch".to_owned(),
            RecoveryCodecError::EmptySegment => "recovery segment is empty".to_owned(),
            RecoveryCodecError::DuplicateRecoveryLsn { lsn } => {
                let mut out: String = "recovery segment contains duplicate LSN ".to_owned();
                push_decimal(&mut out, lsn);
                out
            },
            RecoveryCodecError::RecoveryLsnGap { expected, actual } => {
                let mut out: String = "recovery segment expected LSN ".to_owned();
                push_decimal(&mut out, expected);
                push_text(&mut out, ", found ");
                push_decimal(&mut out, actual);
                out
            },
            RecoveryCodecError::RecoveryLsnRegression { previous, actual } => {
                let mut out: String = "recovery segment LSN regressed from ".to_owned();
                push_decimal(&mut out, previous);
                push_text(&mut out, " to ");
                push_decimal(&mut out, actual);
                out
            },
            RecoveryCodecError::UnexpectedLogicalShard { expected, actual } => {
                let mut out: String = "recovery command targets logical shard ".to_owned();
                push_hex(&mut out, actual.as_bytes().as_slice());
                push_text(&mut out, ", expected ");
                push_hex(&mut out, expected.as_bytes().as_slice());
                out
            },
            RecoveryCodecError::SegmentHeaderMismatch => {
                "recovery segment header does not match its records".to_owned()
            },
            RecoveryCodecError::SegmentDigestMismatch => {
                "recovery segment digest mismatch".to_owned()
            },
        }
    }
}

/// A publication failure in words; `nested` is what the caller says of a failure
/// that it keeps itself.
pub open spec fn publication_message(error: PublicationError, policy: PublicationPolicy, nested: Seq<char>) -> Seq<char> {
    match error {
        PublicationError::Meta(_) => nested,
        PublicationError::OperationCodec(_) => nested,
        PublicationError::RecordCodec(error) => record_message(error),
        PublicationError::QueryRecord(error) => query_message(error),
        PublicationError::CommitOperationCodec(_) => nested,
        PublicationError::RestoreCodec(_) => nested,
        PublicationError::InvalidOperationSeal { seal } => {
            "publish operation "@ + seal@ + " seal mismatch"@
        },
        PublicationError::InvalidOperationPhase { expected, actual } => {
            "publish operation phase must be "@ + phase_name(expected) + ", found "@
                + phase_name(actual)
        },
        PublicationError::ConcurrentMutation => "publication state changed concurrently"@,
        PublicationError::InitiatingOwnerEpochMismatch { expected, actual } => {
            "publish initiating owner epoch must be "@ + decimal_text(expected.value as nat)
                + ", found "@ + decimal_text(actual.value as nat)
        },
        PublicationError::OwnerTakeoverNotAllowed { initiating, current } => {
            "publish owner takeover cannot use epoch "@ + decimal_text(current.value as nat)
                + " older than initiating epoch "@ + decimal_text(initiating.value as nat)
        },
        PublicationError::HeartbeatOwnerMismatch { initiating, current } => {
            "publish heartbeat requires initiating owner epoch "@
                + decimal_text(initiating.value as nat) + ", found "@
                + decimal_text(current.value as nat)
        },
        PublicationError::ActivityDeadlineNotExtended { current, requested } => {
            "publish activity deadline "@ + decimal_text(requested as nat)
                + " does not extend current deadline "@ + decimal_text(current as nat)
        },
        PublicationError::ActivityDeadlineNotFuture { clock, requested } => {
            "publish activity deadline "@ + decimal_text(requested as nat)
                + " is not newer than lease clock "@ + decimal_text(clock as nat)
        },
        PublicationError::ActivityLeaseNotExpired { deadline_ms, lease_clock_ms, maximum_clock_skew_ms } => {
            "publish activity deadline "@ + decimal_text(deadline_ms as nat)
                + " plus clock-skew grace "@ + decimal_text(maximum_clock_skew_ms as nat)
                + " is newer than lease clock "@ + decimal_text(lease_clock_ms as nat)
        },
        PublicationError::HeartbeatPhase { actual } => {
            "publish phase "@ + phase_name(actual) + " is not eligible for activity heartbeat"@
        },
        PublicationError::OwnerTakeoverPhase { actual } => {
            "publish phase "@ + phase_name(actual) + " is not eligible for owner takeover"@
        },
        PublicationError::EmptyBatch { batch } => batch@ + " batch must not be empty"@,
        PublicationError::BatchTooLarge { batch, count, max } => {
            batch@ + " batch has "@ + decimal_text(count as nat) + " rows, maximum is "@
                + decimal_text(max as nat)
        },
        PublicationError::BatchExceedsPlannedCount { batch, cursor, count, planned } => {
            batch@ + " batch at cursor "@ + decimal_text(cursor as nat) + " with "@
                + decimal_text(count as nat) + " rows exceeds planned count "@
                + decimal_text(planned as nat)
        },
        PublicationError::StagedObjectCountMismatch { expected, actual } => {
            "staged-object count mismatch: expected "@ + decimal_text(expected as nat) + ", found "@
                + decimal_text(actual as nat)
        },
        PublicationError::StagedObjectSequenceMismatch { expected, actual } => {
            "staged-object sequence mismatch: expected "@ + decimal_text(expected as nat)
                + ", found "@ + decimal_text(actual as nat)
        },
        PublicationError::StagedObjectRevisionMismatch => {
            "staged object belongs to a different artifact revision"@
        },
        PublicationError::StagedObjectKeyMismatch { sequence } => {
            "staged object "@ + decimal_text(sequence as nat)
                + " does not use its canonical shard/root/revision key"@
        },
        PublicationError::InvalidStagedObjectTransition { sequence } => {
            "invalid staged-object transition at sequence "@ + decimal_text(sequence as nat)
        },
        PublicationError::StagedObjectNotUploaded { sequence } => {
            "staged object "@ + decimal_text(sequence as nat) + " is not uploaded and owned"@
        },
        PublicationError::ManifestCountMismatch { expected, actual } => {
            "manifest-row count mismatch: expected "@ + decimal_text(expected as nat) + ", found "@
                + decimal_text(actual as nat)
        },
        PublicationError::ManifestOrder => {
            "manifest rows must be strictly ordered by object index"@
        },
        PublicationError::ManifestPositionMismatch => {
            "manifest batch does not continue after the durable manifest position"@
        },
        PublicationError::ManifestLogicalOffsetMismatch { expected, actual } => {
            "manifest logical offset mismatch: expected "@ + decimal_text(expected as nat)
                + ", found "@ + decimal_text(actual as nat)
        },
        PublicationError::ManifestDigestMismatch => {
            "manifest-row digest does not match operation seal"@
        },
        PublicationError::ManifestPhysicalOwnerMissing { owner } => {
            "manifest physical owner "@ + hex_list(id_bytes(owner.bits))
                + " is not the new revision or a sealed dependency"@
        },
        PublicationError::ManifestOwnershipMismatch { object_index, reason } => {
            "manifest row "@ + decimal_text(object_index as nat)
                + " does not match its physical object ownership: "@ + reason@
        },
        PublicationError::DuplicateStagedObjectKey { sequence } => {
            "staged object "@ + decimal_text(sequence as nat)
                + " repeats an object key in its batch"@
        },
        PublicationError::DependencyCountMismatch { expected, actual } => {
            "dependency count mismatch: expected "@ + decimal_text(expected as nat) + ", found "@
                + decimal_text(actual as nat)
        },
        PublicationError::DependencyOrder => {
            "dependency owner revisions must be strictly increasing"@
        },
        PublicationError::DependencyDigestMismatch => {
            "dependency digest does not match operation seal"@
        },
        PublicationError::DependencyDepthMismatch { expected, actual } => {
            "dependency depth mismatch: expected "@ + decimal_text(expected as nat) + ", derived "@
                + decimal_text(actual as nat)
        },
        PublicationError::WorkspaceNotFound => "workspace marker not found"@,
        PublicationError::WorkspaceUnavailable => "workspace is not visible"@,
        PublicationError::WorkspaceIncarnationMismatch => {
            "workspace marker names a different incarnation"@
        },
        PublicationError::ReservedManifestAuthorityRequired => {
            "canonical Workbench manifests require their lifecycle-owned staging authority"@
        },
        PublicationError::CommitOperationMissing => "owning commit operation is missing"@,
        PublicationError::CommitAuthorityMismatch => {
            "publication does not match its commit staging authority"@
        },
        PublicationError::CommitManifestClosureMismatch => {
            "run manifest artifact does not match the commit-owned staging closure"@
        },
        PublicationError::RestoreOperationMissing => "owning restore operation is missing"@,
        PublicationError::RestoreAuthorityMismatch => {
            "publication does not match the hidden restore authority"@
        },
        PublicationError::RestoreManifestPathRequired => {
            "restore-staging publication must create "@ + policy.run_manifest_path@ + " or "@
                + policy.restore_manifest_path@
        },
        PublicationError::RestoreManifestClosureMismatch => {
            "destination manifest artifact does not match the sealed restore authority"@
        },
        PublicationError::WorkspaceRevisionOverflow => "workspace revision overflow"@,
        PublicationError::PathAlreadyExists => "path already exists"@,
        PublicationError::PathNotFound => "path does not exist"@,
        PublicationError::PathGenerationMismatch { expected, actual } => {
            "path generation mismatch: expected "@ + decimal_text(expected as nat) + ", found "@
                + decimal_text(actual as nat)
        },
        PublicationError::AppendBaseRevisionMismatch => {
            "append base revision does not match current path"@
        },
        PublicationError::PathGenerationOverflow => "path generation overflow"@,
        PublicationError::RevisionAlreadyExists => "artifact revision identity already exists"@,
        PublicationError::RevisionClaimHeld { revision, operation_id } => {
            "artifact revision "@ + hex_list(id_bytes(revision.bits))
                + " is claimed by in-flight publish operation "@
                + hex_list(id_bytes(operation_id.bits))
        },
        PublicationError::ReconcileResolutionMismatch { resolution, revision_published } => {
            "operator resolution "@ + resolution_name(resolution)
                + " contradicts the authoritative revision state (published: "@
                + bool_name(revision_published) + ")"@
        },
        PublicationError::ReconcileManifestRowsRemain { remaining } => {
            "quarantined operation still owns "@ + decimal_text(remaining as nat)
                + " manifest rows under a published revision; those rows are the published manifest and reconciliation refuses to touch them"@
        },
        PublicationError::RevisionNotFound { revision } => {
            "artifact revision "@ + hex_list(id_bytes(revision.bits)) + " not found"@
        },
        PublicationError::RevisionUnavailable { revision } => {
            "artifact revision "@ + hex_list(id_bytes(revision.bits)) + " is not Available"@
        },
        PublicationError::RevisionIdentityCollision => {
            "new revision collides with a referenced revision"@
        },
        PublicationError::RevisionReferenceMissing => {
            "current path strong-reference row is missing"@
        },
        PublicationError::RevisionReferenceEpochAhead => {
            "reference row epoch is newer than its artifact revision"@
        },
        PublicationError::ReferenceCountUnderflow { revision } => {
            "artifact revision "@ + hex_list(id_bytes(revision.bits))
                + " strong-reference count underflow"@
        },
        PublicationError::ReferenceCountOverflow { revision } => {
            "artifact revision "@ + hex_list(id_bytes(revision.bits))
                + " strong-reference count overflow"@
        },
        PublicationError::ReferenceEpochOverflow { revision } => {
            "artifact revision "@ + hex_list(id_bytes(revision.bits)) + " reference epoch overflow"@
        },
        PublicationError::CommitVersionOverflow => "metadata commit version overflow"@,
        PublicationError::LengthOverflow { field, length } => {
            field@ + " length "@ + decimal_text(length as nat) + " exceeds u32"@
        },
        PublicationError::CommandItemLimit { field, count, max } => {
            field@ + " count "@ + decimal_text(count as nat) + " exceeds "@
                + decimal_text(max as nat)
        },
        PublicationError::DuplicateCommandKey { family } => {
            "duplicate command key in "@ + family_name(family)
        },
        PublicationError::OperationInputMismatch => {
            "publish operation id was reused with different immutable inputs"@
        },
        PublicationError::ReplayResultMismatch => {
            "stored deterministic publication result is inconsistent"@
        },
        PublicationError::MetadataLastFinalizationRequired => {
            "Published is installed only by finalize_publish with metadata-last closure"@
        },
    }
}

impl PublicationError {
    /// The failure in words; `nested` is what the caller says of a failure that
    /// it keeps itself.
    pub fn message(&self, policy: &PublicationPolicy, nested: &str) -> (text: String)
        ensures
            text@ == publication_message(*self, *policy, nested@),
    {
        match *self {
            PublicationError::Meta(_) => nested.to_owned(),
            PublicationError::OperationCodec(_) => nested.to_owned(),
            PublicationError::RecordCodec(error) => error.message(),
            PublicationError::QueryRecord(error) => error.message(),
            PublicationError::CommitOperationCodec(_) => nested.to_owned(),
            PublicationError::RestoreCodec(_) => nested.to_owned(),
            PublicationError::InvalidOperationSeal { seal } => {
                let mut out: String = "publish operation ".to_owned();
                push_text(&mut out, seal);
                push_text(&mut out, " seal mismatch");
                out
            },
            PublicationError::InvalidOperationPhase { expected, actual } => {
                let mut out: String = "publish operation phase must be ".to_owned();
                push_text(&mut out, name_phase(expected));
                push_text(&mut out, ", found ");
                push_text(&mut out, name_phase(actual));
                out
            },
            PublicationError::ConcurrentMutation => {
                "publication state changed concurrently".to_owned()
            },
            PublicationError::InitiatingOwnerEpochMismatch { expected, actual } => {
                let mut out: String = "publish initiating owner epoch must be ".to_owned();
                push_decimal(&mut out, expected.value);
                push_text(&mut out, ", found ");
                push_decimal(&mut out, actual.value);
                out
            },
            PublicationError::OwnerTakeoverNotAllowed { initiating, current } => {
                let mut out: String = "publish owner takeover cannot use epoch ".to_owned();
                push_decimal(&mut out, current.value);
                push_text(&mut out, " older than initiating epoch ");
                push_decimal(&mut out, initiating.value);
                out
            },
            PublicationError::HeartbeatOwnerMismatch { initiating, current } => {
                let mut out: String = "publish heartbeat requires initiating owner epoch ".to_owned();
                push_decimal(&mut out, initiating.value);
                push_text(&mut out, ", found ");
                push_decimal(&mut out, current.value);
                out
            },
            PublicationError::ActivityDeadlineNotExtended { current, requested } => {
                let mut out: String = "publish activity deadline ".to_owned();
                push_decimal(&mut out, requested);
                push_text(&mut out, " does not extend current deadline ");
                push_decimal(&mut out, current);
                out
            },
            PublicationError::ActivityDeadlineNotFuture { clock, requested } => {
                let mut out: String = "publish activity deadline ".to_owned();
                push_decimal(&mut out, requested);
                push_text(&mut out, " is not newer than lease clock ");
                push_decimal(&mut out, clock);
                out
            },
            PublicationError::ActivityLeaseNotExpired { deadline_ms, lease_clock_ms, maximum_clock_skew_ms } => {
                let mut out: String = "publish activity deadline ".to_owned();
                push_decimal(&mut out, deadline_ms);
                push_text(&mut out, " plus clock-skew grace ");
                push_decimal(&mut out, maximum_clock_skew_ms);
                push_text(&mut out, " is newer than lease clock ");
                push_decimal(&mut out, lease_clock_ms);
                out
            },
            PublicationError::HeartbeatPhase { actual } => {
                let mut out: String = "publish phase ".to_owned();
                push_text(&mut out, name_phase(actual));
                push_text(&mut out, " is not eligible for activity heartbeat");
                out
            },
            PublicationError::OwnerTakeoverPhase { actual } => {
                let mut out: String = "publish phase ".to_owned();
                push_text(&mut out, name_phase(actual));
                push_text(&mut out, " is not eligible for owner takeover");
                out
            },
            PublicationError::EmptyBatch { batch } => {
                let mut out: String = batch.to_owned();
                push_text(&mut out, " batch must not be empty");
                out
            },
            PublicationError::BatchTooLarge { batch, count, max } => {
                let mut out: String = batch.to_owned();
                push_text(&mut out, " batch has ");
                push_decimal(&mut out, count as u64);
                push_text(&mut out, " rows, maximum is ");
                push_decimal(&mut out, max as u64);
                out
            },
            PublicationError::BatchExceedsPlannedCount { batch, cursor, count, planned } => {
                let mut out: String = batch.to_owned();
                push_text(&mut out, " batch at cursor ");
                push_decimal(&mut out, cursor as u64);
                push_text(&mut out, " with ");
                push_decimal(&mut out, count as u64);
                push_text(&mut out, " rows exceeds planned count ");
                push_decimal(&mut out, planned as u64);
                out
            },
            PublicationError::StagedObjectCountMismatch { expected, actual } => {
                let mut out: String = "staged-object count mismatch: expected ".to_owned();
                push_decimal(&mut out, expected as u64);
                push_text(&mut out, ", found ");
                push_decimal(&mut out, actual as u64);
                out
            },
            PublicationError::StagedObjectSequenceMismatch { expected, actual } => {
                let mut out: String = "staged-object sequence mismatch: expected ".to_owned();
                push_decimal(&mut out, expected as u64);
                push_text(&mut out, ", found ");
                push_decimal(&mut out, actual as u64);
                out
            },
            PublicationError::StagedObjectRevisionMismatch => {
                "staged object belongs to a different artifact revision".to_owned()
            },
            PublicationError::StagedObjectKeyMismatch { sequence } => {
                let mut out: String = "staged object ".to_owned();
                push_decimal(&mut out, sequence as u64);
                push_text(&mut out, " does not use its canonical shard/root/revision key");
                out
            },
            PublicationError::InvalidStagedObjectTransition { sequence } => {
                let mut out: String = "invalid staged-object transition at sequence ".to_owned();
                push_decimal(&mut out, sequence as u64);
                out
            },
            PublicationError::StagedObjectNotUploaded { sequence } => {
                let mut out: String = "staged object ".to_owned();
                push_decimal(&mut out, sequence as u64);
                push_text(&mut out, " is not uploaded and owned");
                out
            },
            PublicationError::ManifestCountMismatch { expected, actual } => {
                let mut out: String = "manifest-row count mismatch: expected ".to_owned();
                push_decimal(&mut out, expected as u64);
                push_text(&mut out, ", found ");
                push_decimal(&mut out, actual as u64);
                out
            },
            PublicationError::ManifestOrder => {
                "manifest rows must be strictly ordered by object index".to_owned()
            },
            PublicationError::ManifestPositionMismatch => {
                "manifest batch does not continue after the durable manifest position".to_owned()
            },
            PublicationError::ManifestLogicalOffsetMismatch { expected, actual } => {
                let mut out: String = "manifest logical offset mismatch: expected ".to_owned();
                push_decimal(&mut out, expected);
                push_text(&mut out, ", found ");
                push_decimal(&mut out, actual);
                out
            },
            PublicationError::ManifestDigestMismatch => {
                "manifest-row digest does not match operation seal".to_owned()
            },
            PublicationError::ManifestPhysicalOwnerMissing { owner } => {
                let mut out: String = "manifest physical owner ".to_owned();
                push_hex_list(&mut out, owner.as_bytes().as_slice());
                push_text(&mut out, " is not the new revision or a sealed dependency");
                out
            },
            PublicationError::ManifestOwnershipMismatch { object_index, reason } => {
                let mut out: String = "manifest row ".to_owned();
                push_decimal(&mut out, object_index);
                push_text(&mut out, " does not match its physical object ownership: ");
                push_text(&mut out, reason);
                out
            },
            PublicationError::DuplicateStagedObjectKey { sequence } => {
                let mut out: String = "staged object ".to_owned();
                push_decimal(&mut out, sequence as u64);
                push_text(&mut out, " repeats an object key in its batch");
                out
            },
            PublicationError::DependencyCountMismatch { expected, actual } => {
                let mut out: String = "dependency count mismatch: expected ".to_owned();
                push_decimal(&mut out, expected as u64);
                push_text(&mut out, ", found ");
                push_decimal(&mut out, actual as u64);
                out
            },
            PublicationError::DependencyOrder => {
                "dependency owner revisions must be strictly increasing".to_owned()
            },
            PublicationError::DependencyDigestMismatch => {
                "dependency digest does not match operation seal".to_owned()
            },
            PublicationError::DependencyDepthMismatch { expected, actual } => {
                let mut out: String = "dependency depth mismatch: expected ".to_owned();
                push_decimal(&mut out, expected as u64);
                push_text(&mut out, ", derived ");
                push_decimal(&mut out, actual as u64);
                out
            },
            PublicationError::WorkspaceNotFound => "workspace marker not found".to_owned(),
            PublicationError::WorkspaceUnavailable => "workspace is not visible".to_owned(),
            PublicationError::WorkspaceIncarnationMismatch => {
                "workspace marker names a different incarnation".to_owned()
            },
            PublicationError::ReservedManifestAuthorityRequired => {
                "canonical Workbench manifests require their lifecycle-owned staging authority".to_owned()
            },
            PublicationError::CommitOperationMissing => {
                "owning commit operation is missing".to_owned()
            },
            PublicationError::CommitAuthorityMismatch => {
                "publication does not match its commit staging authority".to_owned()
            },
            PublicationError::CommitManifestClosureMismatch => {
                "run manifest artifact does not match the commit-owned staging closure".to_owned()
            },
            PublicationError::RestoreOperationMissing => {
                "owning restore operation is missing".to_owned()
            },
            PublicationError::RestoreAuthorityMismatch => {
                "publication does not match the hidden restore authority".to_owned()
            },
            PublicationError::RestoreManifestPathRequired => {
                let mut out: String = "restore-staging publication must create ".to_owned();
                push_text(&mut out, policy.run_manifest_path.as_str());
                push_text(&mut out, " or ");
                push_text(&mut out, policy.restore_manifest_path.as_str());
                out
            },
            PublicationError::RestoreManifestClosureMismatch => {
                "destination manifest artifact does not match the sealed restore authority".to_owned()
            },
            PublicationError::WorkspaceRevisionOverflow => "workspace revision overflow".to_owned(),
            PublicationError::PathAlreadyExists => "path already exists".to_owned(),
            PublicationError::PathNotFound => "path does not exist".to_owned(),
            PublicationError::PathGenerationMismatch { expected, actual } => {
                let mut out: String = "path generation mismatch: expected ".to_owned();
                push_decimal(&mut out, expected);
                push_text(&mut out, ", found ");
                push_decimal(&mut out, actual);
                out
            },
            PublicationError::AppendBaseRevisionMismatch => {
                "append base revision does not match current path".to_owned()
            },
            PublicationError::PathGenerationOverflow => "path generation overflow".to_owned(),
            PublicationError::RevisionAlreadyExists => {
                "artifact revision identity already exists".to_owned()
            },
            PublicationError::RevisionClaimHeld { revision, operation_id } => {
                let mut out: String = "artifact revision ".to_owned();
                push_hex_list(&mut out, revision.as_bytes().as_slice());
                push_text(&mut out, " is claimed by in-flight publish operation ");
                push_hex_list(&mut out, operation_id.as_bytes().as_slice());
                out
            },
            PublicationError::ReconcileResolutionMismatch { resolution, revision_published } => {
                let mut out: String = "operator resolution ".to_owned();
                push_text(&mut out, name_resolution(resolution));
                push_text(&mut out, " contradicts the authoritative revision state (published: ");
                push_text(&mut out, name_bool(revision_published));
                push_text(&mut out, ")");
                out
            },
            PublicationError::ReconcileManifestRowsRemain { remaining } => {
                let mut out: String = "quarantined operation still owns ".to_owned();
                push_decimal(&mut out, remaining as u64);
                push_text(&mut out, " manifest rows under a published revision; those rows are the published manifest and reconciliation refuses to touch them");
                out
            },
            PublicationError::RevisionNotFound { revision } => {
                let mut out: String = "artifact revision ".to_owned();
                push_hex_list(&mut out, revision.as_bytes().as_slice());
                push_text(&mut out, " not found");
                out
            },
            PublicationError::RevisionUnavailable { revision } => {
                let mut out: String = "artifact revision ".to_owned();
                push_hex_list(&mut out, revision.as_bytes().as_slice());
                push_text(&mut out, " is not Available");
                out
            },
            PublicationError::RevisionIdentityCollision => {
                "new revision collides with a referenced revision".to_owned()
            },
            PublicationError::RevisionReferenceMissing => {
                "current path strong-reference row is missing".to_owned()
            },
            PublicationError::RevisionReferenceEpochAhead => {
                "reference row epoch is newer than its artifact revision".to_owned()
            },
            PublicationError::ReferenceCountUnderflow { revision } => {
                let mut out: String = "artifact revision ".to_owned();
                push_hex_list(&mut out, revision.as_bytes().as_slice());
                push_text(&mut out, " strong-reference count underflow");
                out
            },
            PublicationError::ReferenceCountOverflow { revision } => {
                let mut out: String = "artifact revision ".to_owned();
                push_hex_list(&mut out, revision.as_bytes().as_slice());
                push_text(&mut out, " strong-reference count overflow");
                out
            },
            PublicationError::ReferenceEpochOverflow { revision } => {
                let mut out: String = "artifact revision ".to_owned();
                push_hex_list(&mut out, revision.as_bytes().as_slice());
                push_text(&mut out, " reference epoch overflow");
                out
            },
            PublicationError::CommitVersionOverflow => {
                "metadata commit version overflow".to_owned()
            },
            PublicationError::LengthOverflow { field, length } => {
                let mut out: String = field.to_owned();
                push_text(&mut out, " length ");
                push_decimal(&mut out, length as u64);
                push_text(&mut out, " exceeds u32");
                out
            },
            PublicationError::CommandItemLimit { field, count, max } => {
                let mut out: String = field.to_owned();
                push_text(&mut out, " count ");
                push_decimal(&mut out, count as u64);
                push_text(&mut out, " exceeds ");
                push_decimal(&mut out, max as u64);
                out
            },
            PublicationError::DuplicateCommandKey { family } => {
                let mut out: String = "duplicate command key in ".to_owned();
                push_text(&mut out, name_family(family));
                out
            },
            PublicationError::OperationInputMismatch => {
                "publish operation id was reused with different immutable inputs".to_owned()
            },
            PublicationError::ReplayResultMismatch => {
                "stored deterministic publication result is inconsistent".to_owned()
            },
            PublicationError::MetadataLastFinalizationRequired => {
                "Published is installed only by finalize_publish with metadata-last closure".to_owned()
            },
        }
    }
}

} // verus!
