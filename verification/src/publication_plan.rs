//! Plans of metadata commands, and the questions that planning asks.
//!
//! A plan names rows by what they are. The caller's key codec turns a
//! [`RowKey`] into bytes; distinct row keys stand for distinct rows.

use crate::be::{copy_bytes, same_bytes};
use crate::command::{CommandMutation, CommandPredicate, EventProjection, HistoryProjection,
    MetadataCommand, RootFenceAction, SCHEMA_ID};
use crate::ids::{ArtifactRevisionId, CommandDigest, CommitId, LogicalShardId, MetadataFamily,
    ObjectNamespaceId, OperationId, OwnerEpoch, PlacementGeneration, ReadVersion, ReferenceEpoch,
    RequestId, RootId, WorkspaceIncarnationId};
use crate::publication_error::PublicationError;
use crate::publish_records::{PublishOperationRecord, PublishTerminalError, PublishTransition};
use crate::text::{same_text, NormalizedRelativePath, WorkbenchId};
use vstd::prelude::*;

verus! {

/// Most items of one kind in a command.
pub const MAX_COMMAND_ITEMS: usize = 256;

/// Root-owner and request fence shared by one publication command.
#[derive(Clone, Copy, Debug, PartialEq, Eq, Structural)]
pub struct PublicationContext {
    pub root_id: RootId,
    pub logical_shard_id: LogicalShardId,
    pub object_namespace_id: ObjectNamespaceId,
    pub placement_generation: PlacementGeneration,
    pub owner_epoch: OwnerEpoch,
    pub request_id: RequestId,
    /// Exact current metadata clock observed before command construction.
    pub read_version: ReadVersion,
}

/// Kind of a durable operation.
#[derive(Clone, Copy, Debug, PartialEq, Eq, Structural)]
pub enum OperationKind {
    Publish,
    Restore,
    BuildCommit,
}

/// The row that a command reads or writes.
#[derive(Clone, Debug, PartialEq, Eq)]
pub enum RowKey {
    Operation { root_id: RootId, kind: OperationKind, operation_id: OperationId },
    ArtifactRevisionClaim { root_id: RootId, revision: ArtifactRevisionId },
    ArtifactRevision { root_id: RootId, revision: ArtifactRevisionId },
    StagedObject { root_id: RootId, operation_id: OperationId, sequence: u64 },
    ArtifactManifest { root_id: RootId, revision: ArtifactRevisionId, object_index: u64 },
    PathCurrent {
        root_id: RootId,
        incarnation: WorkspaceIncarnationId,
        path: NormalizedRelativePath,
    },
    WorkspaceCurrent { root_id: RootId, workbench_id: WorkbenchId },
    PathRevisionRef {
        root_id: RootId,
        incarnation: WorkspaceIncarnationId,
        path: NormalizedRelativePath,
        revision: ArtifactRevisionId,
    },
    DependencyRef { root_id: RootId, revision: ArtifactRevisionId, dependency: ArtifactRevisionId },
    CommitRef { root_id: RootId, commit_id: CommitId, revision: ArtifactRevisionId },
    GcCandidate { root_id: RootId, revision: ArtifactRevisionId, epoch: ReferenceEpoch },
    /// A row whose key is already in bytes.
    Raw { family: MetadataFamily, key: Vec<u8> },
}

/// A row key with its texts and bytes as sequences.
#[verifier::ext_equal]
pub enum RowKeyView {
    Operation { root_id: RootId, kind: OperationKind, operation_id: OperationId },
    ArtifactRevisionClaim { root_id: RootId, revision: ArtifactRevisionId },
    ArtifactRevision { root_id: RootId, revision: ArtifactRevisionId },
    StagedObject { root_id: RootId, operation_id: OperationId, sequence: u64 },
    ArtifactManifest { root_id: RootId, revision: ArtifactRevisionId, object_index: u64 },
    PathCurrent { root_id: RootId, incarnation: WorkspaceIncarnationId, path: Seq<char> },
    WorkspaceCurrent { root_id: RootId, workbench_id: Seq<char> },
    PathRevisionRef {
        root_id: RootId,
        incarnation: WorkspaceIncarnationId,
        path: Seq<char>,
        revision: ArtifactRevisionId,
    },
    DependencyRef { root_id: RootId, revision: ArtifactRevisionId, dependency: ArtifactRevisionId },
    CommitRef { root_id: RootId, commit_id: Seq<u8>, revision: ArtifactRevisionId },
    GcCandidate { root_id: RootId, revision: ArtifactRevisionId, epoch: ReferenceEpoch },
    Raw { family: MetadataFamily, key: Seq<u8> },
}

impl View for RowKey {
    type V = RowKeyView;

    open spec fn view(&self) -> RowKeyView {
        match *self {
            RowKey::Operation { root_id, kind, operation_id } => RowKeyView::Operation {
                root_id,
                kind,
                operation_id,
            },
            RowKey::ArtifactRevisionClaim { root_id, revision } =>
                RowKeyView::ArtifactRevisionClaim { root_id, revision },
            RowKey::ArtifactRevision { root_id, revision } => RowKeyView::ArtifactRevision {
                root_id,
                revision,
            },
            RowKey::StagedObject { root_id, operation_id, sequence } => RowKeyView::StagedObject {
                root_id,
                operation_id,
                sequence,
            },
            RowKey::ArtifactManifest { root_id, revision, object_index } =>
                RowKeyView::ArtifactManifest { root_id, revision, object_index },
            RowKey::PathCurrent { root_id, incarnation, path } => RowKeyView::PathCurrent {
                root_id,
                incarnation,
                path: path@,
            },
            RowKey::WorkspaceCurrent { root_id, workbench_id } => RowKeyView::WorkspaceCurrent {
                root_id,
                workbench_id: workbench_id@,
            },
            RowKey::PathRevisionRef { root_id, incarnation, path, revision } =>
                RowKeyView::PathRevisionRef { root_id, incarnation, path: path@, revision },
            RowKey::DependencyRef { root_id, revision, dependency } => RowKeyView::DependencyRef {
                root_id,
                revision,
                dependency,
            },
            RowKey::CommitRef { root_id, commit_id, revision } => RowKeyView::CommitRef {
                root_id,
                commit_id: commit_id.bytes@,
                revision,
            },
            RowKey::GcCandidate { root_id, revision, epoch } => RowKeyView::GcCandidate {
                root_id,
                revision,
                epoch,
            },
            RowKey::Raw { family, key } => RowKeyView::Raw { family, key: key@ },
        }
    }
}

impl RowKeyView {
    /// The family that a row stands in.
    pub open spec fn family(self) -> MetadataFamily {
        match self {
            RowKeyView::Operation { .. } => MetadataFamily::Operation,
            RowKeyView::ArtifactRevisionClaim { .. } => MetadataFamily::ArtifactRevision,
            RowKeyView::ArtifactRevision { .. } => MetadataFamily::ArtifactRevision,
            RowKeyView::StagedObject { .. } => MetadataFamily::StagedObject,
            RowKeyView::ArtifactManifest { .. } => MetadataFamily::ArtifactManifest,
            RowKeyView::PathCurrent { .. } => MetadataFamily::PathCurrent,
            RowKeyView::WorkspaceCurrent { .. } => MetadataFamily::WorkspaceCurrent,
            RowKeyView::PathRevisionRef { .. } => MetadataFamily::RevisionRef,
            RowKeyView::DependencyRef { .. } => MetadataFamily::RevisionRef,
            RowKeyView::CommitRef { .. } => MetadataFamily::RevisionRef,
            RowKeyView::GcCandidate { .. } => MetadataFamily::GcCandidate,
            RowKeyView::Raw { family, .. } => family,
        }
    }
}

impl RowKey {
    /// The family that the row stands in.
    pub fn family(&self) -> (family: MetadataFamily)
        ensures
            family == self@.family(),
    {
        match self {
            RowKey::Operation { .. } => MetadataFamily::Operation,
            RowKey::ArtifactRevisionClaim { .. } => MetadataFamily::ArtifactRevision,
            RowKey::ArtifactRevision { .. } => MetadataFamily::ArtifactRevision,
            RowKey::StagedObject { .. } => MetadataFamily::StagedObject,
            RowKey::ArtifactManifest { .. } => MetadataFamily::ArtifactManifest,
            RowKey::PathCurrent { .. } => MetadataFamily::PathCurrent,
            RowKey::WorkspaceCurrent { .. } => MetadataFamily::WorkspaceCurrent,
            RowKey::PathRevisionRef { .. } => MetadataFamily::RevisionRef,
            RowKey::DependencyRef { .. } => MetadataFamily::RevisionRef,
            RowKey::CommitRef { .. } => MetadataFamily::RevisionRef,
            RowKey::GcCandidate { .. } => MetadataFamily::GcCandidate,
            RowKey::Raw { family, .. } => *family,
        }
    }

    /// Whether two keys name the same row.
    pub fn same(&self, other: &RowKey) -> (same: bool)
        ensures
            same == (self@ == other@),
    {
        match (self, other) {
            (
                RowKey::Operation { root_id: a, kind: b, operation_id: c },
                RowKey::Operation { root_id: x, kind: y, operation_id: z },
            ) => *a == *x && *b == *y && *c == *z,
            (
                RowKey::ArtifactRevisionClaim { root_id: a, revision: b },
                RowKey::ArtifactRevisionClaim { root_id: x, revision: y },
            ) => *a == *x && *b == *y,
            (
                RowKey::ArtifactRevision { root_id: a, revision: b },
                RowKey::ArtifactRevision { root_id: x, revision: y },
            ) => *a == *x && *b == *y,
            (
                RowKey::StagedObject { root_id: a, operation_id: b, sequence: c },
                RowKey::StagedObject { root_id: x, operation_id: y, sequence: z },
            ) => *a == *x && *b == *y && *c == *z,
            (
                RowKey::ArtifactManifest { root_id: a, revision: b, object_index: c },
                RowKey::ArtifactManifest { root_id: x, revision: y, object_index: z },
            ) => *a == *x && *b == *y && *c == *z,
            (
                RowKey::PathCurrent { root_id: a, incarnation: b, path: c },
                RowKey::PathCurrent { root_id: x, incarnation: y, path: z },
            ) => *a == *x && *b == *y && same_text(c.as_str(), z.as_str()),
            (
                RowKey::WorkspaceCurrent { root_id: a, workbench_id: b },
                RowKey::WorkspaceCurrent { root_id: x, workbench_id: y },
            ) => *a == *x && same_text(b.as_str(), y.as_str()),
            (
                RowKey::PathRevisionRef { root_id: a, incarnation: b, path: c, revision: d },
                RowKey::PathRevisionRef { root_id: x, incarnation: y, path: z, revision: w },
            ) => *a == *x && *b == *y && same_text(c.as_str(), z.as_str()) && *d == *w,
            (
                RowKey::DependencyRef { root_id: a, revision: b, dependency: c },
                RowKey::DependencyRef { root_id: x, revision: y, dependency: z },
            ) => *a == *x && *b == *y && *c == *z,
            (
                RowKey::CommitRef { root_id: a, commit_id: b, revision: c },
                RowKey::CommitRef { root_id: x, commit_id: y, revision: z },
            ) => *a == *x && same_bytes(b.bytes.as_slice(), y.bytes.as_slice()) && *c == *z,
            (
                RowKey::GcCandidate { root_id: a, revision: b, epoch: c },
                RowKey::GcCandidate { root_id: x, revision: y, epoch: z },
            ) => *a == *x && *b == *y && *c == *z,
            (RowKey::Raw { family: a, key: b }, RowKey::Raw { family: x, key: y }) => *a == *x
                && same_bytes(b.as_slice(), y.as_slice()),
            _ => false,
        }
    }

    pub fn duplicate(&self) -> (copy: RowKey)
        ensures
            copy@ == self@,
    {
        match self {
            RowKey::Operation { root_id, kind, operation_id } => RowKey::Operation {
                root_id: *root_id,
                kind: *kind,
                operation_id: *operation_id,
            },
            RowKey::ArtifactRevisionClaim { root_id, revision } => RowKey::ArtifactRevisionClaim {
                root_id: *root_id,
                revision: *revision,
            },
            RowKey::ArtifactRevision { root_id, revision } => RowKey::ArtifactRevision {
                root_id: *root_id,
                revision: *revision,
            },
            RowKey::StagedObject { root_id, operation_id, sequence } => RowKey::StagedObject {
                root_id: *root_id,
                operation_id: *operation_id,
                sequence: *sequence,
            },
            RowKey::ArtifactManifest { root_id, revision, object_index } =>
                RowKey::ArtifactManifest {
                root_id: *root_id,
                revision: *revision,
                object_index: *object_index,
            },
            RowKey::PathCurrent { root_id, incarnation, path } => RowKey::PathCurrent {
                root_id: *root_id,
                incarnation: *incarnation,
                path: path.clone(),
            },
            RowKey::WorkspaceCurrent { root_id, workbench_id } => RowKey::WorkspaceCurrent {
                root_id: *root_id,
                workbench_id: workbench_id.clone(),
            },
            RowKey::PathRevisionRef { root_id, incarnation, path, revision } =>
                RowKey::PathRevisionRef {
                root_id: *root_id,
                incarnation: *incarnation,
                path: path.clone(),
                revision: *revision,
            },
            RowKey::DependencyRef { root_id, revision, dependency } => RowKey::DependencyRef {
                root_id: *root_id,
                revision: *revision,
                dependency: *dependency,
            },
            RowKey::CommitRef { root_id, commit_id, revision } => RowKey::CommitRef {
                root_id: *root_id,
                commit_id: *commit_id,
                revision: *revision,
            },
            RowKey::GcCandidate { root_id, revision, epoch } => RowKey::GcCandidate {
                root_id: *root_id,
                revision: *revision,
                epoch: *epoch,
            },
            RowKey::Raw { family, key } => RowKey::Raw {
                family: *family,
                key: copy_bytes(key.as_slice()),
            },
        }
    }
}

/// Rows that stand together under one operation or revision.
#[derive(Clone, Copy, Debug, PartialEq, Eq, Structural)]
pub enum RowPrefix {
    StagedObjects { root_id: RootId, operation_id: OperationId },
    ArtifactManifest { root_id: RootId, revision: ArtifactRevisionId },
}

/// What a planned command expects of the store.
#[derive(Clone, Debug, PartialEq, Eq)]
pub enum PlanPredicate {
    /// The row is exactly `expected`; `None` says that it is absent.
    Value { key: RowKey, expected: Option<Vec<u8>> },
    /// No row stands under `prefix`.
    PrefixEmpty { prefix: RowPrefix },
}

/// A planned predicate with its bytes as sequences.
#[verifier::ext_equal]
pub enum PlanPredicateView {
    Value { key: RowKeyView, expected: Option<Seq<u8>> },
    PrefixEmpty { prefix: RowPrefix },
}

impl View for PlanPredicate {
    type V = PlanPredicateView;

    open spec fn view(&self) -> PlanPredicateView {
        match self {
            PlanPredicate::Value { key, expected } => PlanPredicateView::Value {
                key: key@,
                expected: crate::publication_records::optional_bytes(*expected),
            },
            PlanPredicate::PrefixEmpty { prefix } => PlanPredicateView::PrefixEmpty {
                prefix: *prefix,
            },
        }
    }
}

/// What a planned command changes.
#[derive(Clone, Debug, PartialEq, Eq)]
pub enum PlanMutation {
    Put { key: RowKey, value: Vec<u8> },
    Delete { key: RowKey },
}

/// A planned mutation with its bytes as sequences.
#[verifier::ext_equal]
pub enum PlanMutationView {
    Put { key: RowKeyView, value: Seq<u8> },
    Delete { key: RowKeyView },
}

impl View for PlanMutation {
    type V = PlanMutationView;

    open spec fn view(&self) -> PlanMutationView {
        match self {
            PlanMutation::Put { key, value } => PlanMutationView::Put { key: key@, value: value@ },
            PlanMutation::Delete { key } => PlanMutationView::Delete { key: key@ },
        }
    }
}

impl PlanMutationView {
    /// The row that is changed.
    pub open spec fn key(self) -> RowKeyView {
        match self {
            PlanMutationView::Put { key, value } => key,
            PlanMutationView::Delete { key } => key,
        }
    }
}

/// A command under construction.
#[derive(Clone, Debug, PartialEq, Eq)]
pub struct CommandPlan {
    pub predicates: Vec<PlanPredicate>,
    pub mutations: Vec<PlanMutation>,
    pub history: Vec<RowKey>,
    pub events: Vec<Vec<u8>>,
}

/// A plan with everything as sequences.
#[verifier::ext_equal]
pub struct PlanView {
    pub predicates: Seq<PlanPredicateView>,
    pub mutations: Seq<PlanMutationView>,
    pub history: Seq<RowKeyView>,
    pub events: Seq<Seq<u8>>,
}

/// Values seen through their views.
pub open spec fn views<T: View>(items: Seq<T>) -> Seq<T::V> {
    items.map_values(|item: T| item@)
}

impl View for CommandPlan {
    type V = PlanView;

    open spec fn view(&self) -> PlanView {
        PlanView {
            predicates: views(self.predicates@),
            mutations: views(self.mutations@),
            history: views(self.history@),
            events: views(self.events@),
        }
    }
}

/// A plan with nothing in it.
pub open spec fn empty_plan() -> PlanView {
    PlanView {
        predicates: Seq::empty(),
        mutations: Seq::empty(),
        history: Seq::empty(),
        events: Seq::empty(),
    }
}

/// Whether a predicate pins the row under `key`.
pub open spec fn pins(predicate: PlanPredicateView, key: RowKeyView) -> bool {
    predicate is Value && predicate->key == key
}

/// Whether some predicate of the plan pins the row under `key`.
pub open spec fn key_taken(plan: PlanView, key: RowKeyView) -> bool {
    exists|i: int| 0 <= i < plan.predicates.len() && pins(#[trigger] plan.predicates[i], key)
}

/// A plan that can be carried out as one compare-and-set: no row is pinned
/// twice, every changed row is pinned, and so is every row that history keeps.
pub open spec fn plan_sound(plan: PlanView) -> bool {
    &&& forall|i: int, j: int|
        0 <= i < j < plan.predicates.len() ==> !(pins(
            #[trigger] plan.predicates[i],
            plan.predicates[j]->key,
        ) && #[trigger] plan.predicates[j] is Value)
    &&& forall|i: int|
        0 <= i < plan.mutations.len() ==> key_taken(plan, #[trigger] plan.mutations[i].key())
    &&& forall|i: int|
        0 <= i < plan.history.len() ==> key_taken(plan, #[trigger] plan.history[i])
}

/// A finished plan with the fence it runs under and the result it returns.
#[derive(Clone, Debug, PartialEq, Eq)]
pub struct PlannedCommand {
    pub context: PublicationContext,
    pub plan: CommandPlan,
    pub deterministic_result: Vec<u8>,
    /// The lease clock must not have reached this when the command commits.
    pub lease_deadline_ms: Option<u64>,
}

/// A planned command with everything as sequences.
#[verifier::ext_equal]
pub struct PlannedCommandView {
    pub context: PublicationContext,
    pub plan: PlanView,
    pub deterministic_result: Seq<u8>,
    pub lease_deadline_ms: Option<u64>,
}

impl View for PlannedCommand {
    type V = PlannedCommandView;

    open spec fn view(&self) -> PlannedCommandView {
        PlannedCommandView {
            context: self.context,
            plan: self.plan@,
            deterministic_result: self.deterministic_result@,
            lease_deadline_ms: self.lease_deadline_ms,
        }
    }
}

/// What planning needs next, or why it failed.
#[derive(Clone, Debug, PartialEq, Eq)]
pub enum Stop {
    Fail(PublicationError),
    /// The row under `key` at `version`.
    Read { version: ReadVersion, key: RowKey },
    /// The high-water mark of the lease clock.
    LeaseClock,
    /// The shard's current read version; asked twice by some plans.
    CurrentVersion { again: bool },
    /// The lease clock after observing `now_ms`.
    ObserveClock { now_ms: u64 },
    /// Up to `limit` manifest rows of a revision at `version`.
    ScanManifest { version: ReadVersion, revision: ArtifactRevisionId, limit: usize },
    /// The stored result of an earlier request, marked as replayed, if there
    /// is one.
    RequestResult { request_id: RequestId },
    /// The stored form of an operation.
    Encode { operation: PublishOperationRecord },
    /// An operation after a step of its life.
    Transition { operation: PublishOperationRecord, transition: PublishTransition },
    /// A finalizing operation after a newer owner took it over.
    TakeOver {
        operation: PublishOperationRecord,
        proof: [u8; 32],
        terminal_error: PublishTerminalError,
    },
    /// A quarantined operation after an operator resolved it.
    Reconcile { operation: PublishOperationRecord, terminal_error: PublishTerminalError },
    /// The stored form of the owning commit build with its run manifest bound
    /// and its reference count advanced.
    EncodeCommit {
        logical_size: u64,
        body_digest_uri: String,
        manifest_digest_uri: String,
        content_type: String,
        revision_ref_count: u64,
    },
    /// The byte forms of the keys of three rows.
    StageKeys { operation: RowKey, workspace: RowKey, path: RowKey },
    /// The result of running `command` now.
    Execute { command: PlannedCommand },
}

/// A stop with its bytes as sequences.
#[verifier::ext_equal]
pub enum StopView {
    Fail(PublicationError),
    Read { version: ReadVersion, key: RowKeyView },
    LeaseClock,
    CurrentVersion { again: bool },
    ObserveClock { now_ms: u64 },
    ScanManifest { version: ReadVersion, revision: ArtifactRevisionId, limit: usize },
    RequestResult { request_id: RequestId },
    Encode { operation: PublishOperationRecord },
    Transition { operation: PublishOperationRecord, transition: PublishTransition },
    TakeOver {
        operation: PublishOperationRecord,
        proof: Seq<u8>,
        terminal_error: PublishTerminalError,
    },
    Reconcile {
        operation: PublishOperationRecord,
        kind: crate::publish_records::PublishTerminalErrorKind,
        message: Seq<char>,
        evidence_digest: Seq<u8>,
    },
    EncodeCommit {
        logical_size: u64,
        body_digest_uri: Seq<char>,
        manifest_digest_uri: Seq<char>,
        content_type: Seq<char>,
        revision_ref_count: u64,
    },
    StageKeys { operation: RowKeyView, workspace: RowKeyView, path: RowKeyView },
    Execute { command: PlannedCommandView },
}

impl View for Stop {
    type V = StopView;

    open spec fn view(&self) -> StopView {
        match *self {
            Stop::Fail(error) => StopView::Fail(error),
            Stop::Read { version, key } => StopView::Read { version, key: key@ },
            Stop::LeaseClock => StopView::LeaseClock,
            Stop::CurrentVersion { again } => StopView::CurrentVersion { again },
            Stop::ObserveClock { now_ms } => StopView::ObserveClock { now_ms },
            Stop::ScanManifest { version, revision, limit } => StopView::ScanManifest {
                version,
                revision,
                limit,
            },
            Stop::RequestResult { request_id } => StopView::RequestResult { request_id },
            Stop::Encode { operation } => StopView::Encode { operation },
            Stop::Transition { operation, transition } => StopView::Transition {
                operation,
                transition,
            },
            Stop::TakeOver { operation, proof, terminal_error } => StopView::TakeOver {
                operation,
                proof: proof@,
                terminal_error,
            },
            Stop::Reconcile { operation, terminal_error } => StopView::Reconcile {
                operation,
                kind: terminal_error.kind,
                message: terminal_error.message@,
                evidence_digest: terminal_error.evidence_digest.unwrap()@,
            },
            Stop::EncodeCommit {
                logical_size,
                body_digest_uri,
                manifest_digest_uri,
                content_type,
                revision_ref_count,
            } => StopView::EncodeCommit {
                logical_size,
                body_digest_uri: body_digest_uri@,
                manifest_digest_uri: manifest_digest_uri@,
                content_type: content_type@,
                revision_ref_count,
            },
            Stop::StageKeys { operation, workspace, path } => StopView::StageKeys {
                operation: operation@,
                workspace: workspace@,
                path: path@,
            },
            Stop::Execute { command } => StopView::Execute { command: command@ },
        }
    }
}

/// A failure as a stop, if there is one.
pub open spec fn failing(fault: Option<PublicationError>) -> Option<StopView> {
    match fault {
        None => None,
        Some(error) => Some(StopView::Fail(error)),
    }
}

/// A result of a check, its failure as a stop.
pub fn lift<T>(result: Result<T, PublicationError>) -> (lifted: Result<T, Stop>)
    ensures
        match result {
            Ok(value) => lifted == Ok::<T, Stop>(value),
            Err(error) => lifted == Err::<T, Stop>(Stop::Fail(error)),
        },
{
    match result {
        Ok(value) => Ok(value),
        Err(error) => Err(Stop::Fail(error)),
    }
}

/// Planning in progress: the plan so far, or what stopped it. A stopped draft
/// stays as it is.
#[verifier::ext_equal]
pub struct Draft {
    pub halt: Option<StopView>,
    pub plan: PlanView,
}

/// A draft that nothing has stopped.
pub open spec fn live(plan: PlanView) -> Draft {
    Draft { halt: None, plan }
}

/// Stops the draft if there is a reason.
pub open spec fn halted(draft: Draft, halt: Option<StopView>) -> Draft {
    if draft.halt is Some || halt is None {
        draft
    } else {
        Draft { halt, plan: draft.plan }
    }
}

/// Pins a row.
pub open spec fn asserting(draft: Draft, key: RowKeyView, expected: Option<Seq<u8>>) -> Draft {
    if draft.halt is Some {
        draft
    } else if key_taken(draft.plan, key) {
        halted(
            draft,
            Some(StopView::Fail(PublicationError::DuplicateCommandKey { family: key.family() })),
        )
    } else {
        live(
            PlanView {
                predicates: draft.plan.predicates.push(PlanPredicateView::Value { key, expected }),
                ..draft.plan
            },
        )
    }
}

/// Pins the absence of every row under a prefix.
pub open spec fn prefix_empty(draft: Draft, prefix: RowPrefix) -> Draft {
    if draft.halt is Some {
        draft
    } else {
        live(
            PlanView {
                predicates: draft.plan.predicates.push(PlanPredicateView::PrefixEmpty { prefix }),
                ..draft.plan
            },
        )
    }
}

/// Adds a mutation of a pinned row.
pub open spec fn mutating(draft: Draft, mutation: PlanMutationView) -> Draft {
    if draft.halt is Some {
        draft
    } else {
        live(PlanView { mutations: draft.plan.mutations.push(mutation), ..draft.plan })
    }
}

/// Keeps the former value of a row in history.
pub open spec fn recording(draft: Draft, key: RowKeyView) -> Draft {
    if draft.halt is Some {
        draft
    } else {
        live(PlanView { history: draft.plan.history.push(key), ..draft.plan })
    }
}

/// Creates an absent row.
pub open spec fn put_absent(draft: Draft, key: RowKeyView, value: Seq<u8>) -> Draft {
    mutating(asserting(draft, key, None), PlanMutationView::Put { key, value })
}

/// Replaces a row that is exactly `expected`.
pub open spec fn replacing(draft: Draft, key: RowKeyView, expected: Seq<u8>, value: Seq<u8>) -> Draft {
    recording(
        mutating(asserting(draft, key, Some(expected)), PlanMutationView::Put { key, value }),
        key,
    )
}

/// Deletes a row that is exactly `expected`.
pub open spec fn deleting(draft: Draft, key: RowKeyView, expected: Seq<u8>) -> Draft {
    recording(
        mutating(asserting(draft, key, Some(expected)), PlanMutationView::Delete { key }),
        key,
    )
}

/// Emits a change event.
pub open spec fn emitting(draft: Draft, payload: Seq<u8>) -> Draft {
    if draft.halt is Some {
        draft
    } else {
        live(PlanView { events: draft.plan.events.push(payload), ..draft.plan })
    }
}

/// The draft after the first `n` steps.
pub open spec fn stepped(step: spec_fn(int, Draft) -> Draft, n: nat, draft: Draft) -> Draft
    decreases n,
{
    if n == 0 {
        draft
    } else {
        step(n - 1, stepped(step, (n - 1) as nat, draft))
    }
}

/// Whether a step leaves a stopped draft as it is.
pub open spec fn keeps_halts(step: spec_fn(int, Draft) -> Draft) -> bool {
    forall|i: int, draft: Draft| draft.halt is Some ==> #[trigger] step(i, draft) == draft
}

/// Once stopped, a draft stays as it is through every later step.
pub proof fn lemma_stepped_halt(
    step: spec_fn(int, Draft) -> Draft,
    i: nat,
    n: nat,
    draft: Draft,
)
    requires
        keeps_halts(step),
        i <= n,
        stepped(step, i, draft).halt is Some,
    ensures
        stepped(step, n, draft) == stepped(step, i, draft),
    decreases n,
{
    if i < n {
        lemma_stepped_halt(step, i, (n - 1) as nat, draft);
    }
}

/// A list of a plan that has too many items.
pub open spec fn item_limit_fault(field: &'static str, count: nat) -> Option<PublicationError> {
    if count > MAX_COMMAND_ITEMS {
        Some(
            PublicationError::CommandItemLimit {
                field,
                count: count as usize,
                max: MAX_COMMAND_ITEMS,
            },
        )
    } else {
        None
    }
}

/// The first list of a plan that has too many items.
pub open spec fn bounds_fault(plan: PlanView) -> Option<PublicationError> {
    crate::publication_records::first_fault(
        item_limit_fault("predicates", plan.predicates.len()),
        crate::publication_records::first_fault(
            item_limit_fault("mutations", plan.mutations.len()),
            crate::publication_records::first_fault(
                item_limit_fault("history projections", plan.history.len()),
                item_limit_fault("event projections", plan.events.len()),
            ),
        ),
    )
}

fn check_item_limit(field: &'static str, count: usize) -> (result: Result<(), PublicationError>)
    ensures
        match result {
            Ok(_) => item_limit_fault(field, count as nat) is None,
            Err(error) => item_limit_fault(field, count as nat) == Some(error),
        },
{
    if count > MAX_COMMAND_ITEMS {
        return Err(PublicationError::CommandItemLimit { field, count, max: MAX_COMMAND_ITEMS });
    }
    Ok(())
}

impl CommandPlan {
    /// The plan can be carried out as one compare-and-set.
    pub open spec fn wf(self) -> bool {
        plan_sound(self@)
    }

    pub fn new() -> (plan: CommandPlan)
        ensures
            plan.wf(),
            plan@ == empty_plan(),
    {
        let plan = CommandPlan {
            predicates: Vec::new(),
            mutations: Vec::new(),
            history: Vec::new(),
            events: Vec::new(),
        };
        assert(plan@ =~= empty_plan());
        plan
    }

    /// Whether the plan pins the row under `key`.
    pub fn pins_key(&self, key: &RowKey) -> (taken: bool)
        ensures
            taken == key_taken(self@, key@),
    {
        let ghost preds = self@.predicates;
        let mut i: usize = 0;
        while i < self.predicates.len()
            invariant
                i <= preds.len(),
                preds == views(self.predicates@),
                preds == self@.predicates,
                forall|k: int| 0 <= k < i ==> !pins(#[trigger] preds[k], key@),
            decreases preds.len() - i,
        {
            assert(preds[i as int] == self.predicates@[i as int]@);
            match &self.predicates[i] {
                PlanPredicate::Value { key: own, expected } => {
                    if own.same(key) {
                        assert(pins(preds[i as int], key@));
                        return true;
                    }
                },
                PlanPredicate::PrefixEmpty { .. } => {},
            }
            i = i + 1;
        }
        false
    }

    /// Pins a row to a value, or to its absence.
    pub fn assert_value(&mut self, key: RowKey, expected: Option<Vec<u8>>) -> (result: Result<
        (),
        Stop,
    >)
        requires
            old(self).wf(),
        ensures
            final(self).wf(),
            match result {
                Ok(_) => {
                    &&& asserting(
                        live(old(self)@),
                        key@,
                        crate::publication_records::optional_bytes(expected),
                    ) == live(final(self)@)
                    &&& key_taken(final(self)@, key@)
                },
                Err(stop) => asserting(
                    live(old(self)@),
                    key@,
                    crate::publication_records::optional_bytes(expected),
                ).halt == Some(stop@),
            },
    {
        if self.pins_key(&key) {
            return Err(
                Stop::Fail(PublicationError::DuplicateCommandKey { family: key.family() }),
            );
        }
        let ghost before = self@;
        let ghost pushed = PlanPredicateView::Value {
            key: key@,
            expected: crate::publication_records::optional_bytes(expected),
        };
        self.predicates.push(PlanPredicate::Value { key, expected });
        proof {
            assert(self@.predicates =~= before.predicates.push(pushed));
            lemma_pin_keeps_sound(before, pushed);
            assert(self@ =~= PlanView { predicates: before.predicates.push(pushed), ..before });
            assert(pins(self@.predicates[before.predicates.len() as int], pushed->key));
        }
        Ok(())
    }

    /// Pins the absence of every row under a prefix.
    pub fn prefix_empty(&mut self, prefix: RowPrefix)
        requires
            old(self).wf(),
        ensures
            final(self).wf(),
            prefix_empty(live(old(self)@), prefix) == live(final(self)@),
    {
        let ghost before = self@;
        let ghost pushed = PlanPredicateView::PrefixEmpty { prefix };
        self.predicates.push(PlanPredicate::PrefixEmpty { prefix });
        proof {
            assert(self@.predicates =~= before.predicates.push(pushed));
            lemma_pin_keeps_sound(before, pushed);
            assert(self@ =~= PlanView { predicates: before.predicates.push(pushed), ..before });
        }
    }

    fn mutate(&mut self, mutation: PlanMutation)
        requires
            old(self).wf(),
            key_taken(old(self)@, mutation@.key()),
        ensures
            final(self).wf(),
            mutating(live(old(self)@), mutation@) == live(final(self)@),
            key_taken(final(self)@, mutation@.key()),
    {
        let ghost before = self@;
        let ghost pushed = mutation@;
        self.mutations.push(mutation);
        proof {
            assert(self@.mutations =~= before.mutations.push(pushed));
            assert(self@ =~= PlanView { mutations: before.mutations.push(pushed), ..before });
            lemma_mutation_keeps_sound(before, pushed);
        }
    }

    fn record(&mut self, key: RowKey)
        requires
            old(self).wf(),
            key_taken(old(self)@, key@),
        ensures
            final(self).wf(),
            recording(live(old(self)@), key@) == live(final(self)@),
            key_taken(final(self)@, key@),
    {
        let ghost before = self@;
        let ghost pushed = key@;
        self.history.push(key);
        proof {
            assert(self@.history =~= before.history.push(pushed));
            assert(self@ =~= PlanView { history: before.history.push(pushed), ..before });
            lemma_history_keeps_sound(before, pushed);
        }
    }

    /// Creates an absent row.
    pub fn put_absent(&mut self, key: RowKey, value: Vec<u8>) -> (result: Result<(), Stop>)
        requires
            old(self).wf(),
        ensures
            final(self).wf(),
            match result {
                Ok(_) => put_absent(live(old(self)@), key@, value@) == live(final(self)@),
                Err(stop) => put_absent(live(old(self)@), key@, value@).halt == Some(stop@),
            },
    {
        let copy: RowKey = key.duplicate();
        self.assert_value(copy, None)?;
        self.mutate(PlanMutation::Put { key, value });
        Ok(())
    }

    /// Replaces a row that is exactly `expected`.
    pub fn replace(&mut self, key: RowKey, expected: Vec<u8>, value: Vec<u8>) -> (result: Result<
        (),
        Stop,
    >)
        requires
            old(self).wf(),
        ensures
            final(self).wf(),
            match result {
                Ok(_) => replacing(live(old(self)@), key@, expected@, value@) == live(final(self)@),
                Err(stop) => replacing(live(old(self)@), key@, expected@, value@).halt == Some(
                    stop@,
                ),
            },
    {
        let pinned: RowKey = key.duplicate();
        let kept: RowKey = key.duplicate();
        self.assert_value(pinned, Some(expected))?;
        self.mutate(PlanMutation::Put { key, value });
        self.record(kept);
        Ok(())
    }

    /// Deletes a row that is exactly `expected`.
    pub fn delete(&mut self, key: RowKey, expected: Vec<u8>) -> (result: Result<(), Stop>)
        requires
            old(self).wf(),
        ensures
            final(self).wf(),
            match result {
                Ok(_) => deleting(live(old(self)@), key@, expected@) == live(final(self)@),
                Err(stop) => deleting(live(old(self)@), key@, expected@).halt == Some(stop@),
            },
    {
        let pinned: RowKey = key.duplicate();
        let kept: RowKey = key.duplicate();
        self.assert_value(pinned, Some(expected))?;
        self.mutate(PlanMutation::Delete { key });
        self.record(kept);
        Ok(())
    }

    /// Emits a change event.
    pub fn emit(&mut self, payload: Vec<u8>)
        requires
            old(self).wf(),
        ensures
            final(self).wf(),
            emitting(live(old(self)@), payload@) == live(final(self)@),
    {
        let ghost before = self@;
        let ghost pushed = payload@;
        self.events.push(payload);
        proof {
            assert(self@.events =~= before.events.push(pushed));
            assert(self@ =~= PlanView { events: before.events.push(pushed), ..before });
            lemma_event_keeps_sound(before, pushed);
        }
    }

    /// Checks that no list has too many items.
    pub fn validate_bounds(&self) -> (result: Result<(), PublicationError>)
        ensures
            match result {
                Ok(_) => bounds_fault(self@) is None,
                Err(error) => bounds_fault(self@) == Some(error),
            },
    {
        check_item_limit("predicates", self.predicates.len())?;
        check_item_limit("mutations", self.mutations.len())?;
        check_item_limit("history projections", self.history.len())?;
        check_item_limit("event projections", self.events.len())
    }
}

proof fn lemma_pin_keeps_sound(plan: PlanView, predicate: PlanPredicateView)
    requires
        plan_sound(plan),
        predicate is Value ==> !key_taken(plan, predicate->key),
    ensures
        plan_sound(PlanView { predicates: plan.predicates.push(predicate), ..plan }),
{
    let next = PlanView { predicates: plan.predicates.push(predicate), ..plan };
    let n = plan.predicates.len();
    assert forall|i: int, j: int| 0 <= i < j < next.predicates.len() implies !(pins(
        #[trigger] next.predicates[i],
        next.predicates[j]->key,
    ) && #[trigger] next.predicates[j] is Value) by {
        assert(next.predicates[i] == plan.predicates[i]);
        if j < n {
            assert(next.predicates[j] == plan.predicates[j]);
        } else if pins(next.predicates[i], predicate->key) && predicate is Value {
            assert(pins(plan.predicates[i], predicate->key));
            assert(key_taken(plan, predicate->key));
        }
    }
    assert forall|key: RowKeyView| key_taken(plan, key) implies #[trigger] key_taken(next, key) by {
        let i = choose|i: int|
            0 <= i < plan.predicates.len() && pins(#[trigger] plan.predicates[i], key);
        assert(pins(next.predicates[i], key));
    }
    assert forall|i: int| 0 <= i < next.mutations.len() implies key_taken(
        next,
        #[trigger] next.mutations[i].key(),
    ) by {
        assert(key_taken(plan, plan.mutations[i].key()));
    }
    assert forall|i: int| 0 <= i < next.history.len() implies key_taken(
        next,
        #[trigger] next.history[i],
    ) by {
        assert(key_taken(plan, plan.history[i]));
    }
}

proof fn lemma_same_pins(a: PlanView, b: PlanView, key: RowKeyView)
    requires
        a.predicates == b.predicates,
    ensures
        key_taken(a, key) == key_taken(b, key),
{
}

proof fn lemma_mutation_keeps_sound(plan: PlanView, mutation: PlanMutationView)
    requires
        plan_sound(plan),
        key_taken(plan, mutation.key()),
    ensures
        plan_sound(PlanView { mutations: plan.mutations.push(mutation), ..plan }),
        key_taken(PlanView { mutations: plan.mutations.push(mutation), ..plan }, mutation.key()),
{
    let next = PlanView { mutations: plan.mutations.push(mutation), ..plan };
    lemma_same_pins(plan, next, mutation.key());
    assert forall|i: int| 0 <= i < next.mutations.len() implies key_taken(
        next,
        #[trigger] next.mutations[i].key(),
    ) by {
        if i < plan.mutations.len() {
            assert(next.mutations[i] == plan.mutations[i]);
            assert(key_taken(plan, plan.mutations[i].key()));
            lemma_same_pins(plan, next, plan.mutations[i].key());
        }
    }
    assert forall|i: int| 0 <= i < next.history.len() implies key_taken(
        next,
        #[trigger] next.history[i],
    ) by {
        lemma_same_pins(plan, next, plan.history[i]);
    }
}

proof fn lemma_history_keeps_sound(plan: PlanView, key: RowKeyView)
    requires
        plan_sound(plan),
        key_taken(plan, key),
    ensures
        plan_sound(PlanView { history: plan.history.push(key), ..plan }),
        key_taken(PlanView { history: plan.history.push(key), ..plan }, key),
{
    let next = PlanView { history: plan.history.push(key), ..plan };
    lemma_same_pins(plan, next, key);
    assert forall|i: int| 0 <= i < next.mutations.len() implies key_taken(
        next,
        #[trigger] next.mutations[i].key(),
    ) by {
        assert(key_taken(plan, plan.mutations[i].key()));
        lemma_same_pins(plan, next, plan.mutations[i].key());
    }
    assert forall|i: int| 0 <= i < next.history.len() implies key_taken(
        next,
        #[trigger] next.history[i],
    ) by {
        if i < plan.history.len() {
            assert(next.history[i] == plan.history[i]);
            lemma_same_pins(plan, next, plan.history[i]);
        }
    }
}

proof fn lemma_event_keeps_sound(plan: PlanView, payload: Seq<u8>)
    requires
        plan_sound(plan),
    ensures
        plan_sound(PlanView { events: plan.events.push(payload), ..plan }),
{
    let next = PlanView { events: plan.events.push(payload), ..plan };
    assert forall|i: int| 0 <= i < next.mutations.len() implies key_taken(
        next,
        #[trigger] next.mutations[i].key(),
    ) by {
        assert(key_taken(plan, plan.mutations[i].key()));
        lemma_same_pins(plan, next, plan.mutations[i].key());
    }
    assert forall|i: int| 0 <= i < next.history.len() implies key_taken(
        next,
        #[trigger] next.history[i],
    ) by {
        lemma_same_pins(plan, next, plan.history[i]);
    }
}

/// A planned command around the rows that its plan names, which the caller's
/// key codec has turned into bytes. Its digest is still blank: the caller seals
/// it.
pub fn command_frame(
    planned: &PlannedCommand,
    predicates: Vec<CommandPredicate>,
    mutations: Vec<CommandMutation>,
    history: Vec<HistoryProjection>,
    events: Vec<EventProjection>,
) -> (command: MetadataCommand)
    ensures
        command.schema_id@ == SCHEMA_ID@,
        command.root_id == planned.context.root_id,
        command.logical_shard_id == planned.context.logical_shard_id,
        command.object_namespace_id == Some(planned.context.object_namespace_id),
        command.placement_generation == planned.context.placement_generation,
        command.owner_epoch == planned.context.owner_epoch,
        command.request_id == planned.context.request_id,
        command.command_digest.bytes@ == Seq::new(32, |i: int| 0u8),
        command.read_version == planned.context.read_version,
        command.root_fence_action == RootFenceAction::RequireActive,
        command.predicates == predicates,
        command.mutations == mutations,
        command.history_projection == history,
        command.event_projection == events,
        command.deterministic_result@ == planned.deterministic_result@,
{
    let context = planned.context;
    let blank = [0u8; 32];
    assert(blank@ =~= Seq::new(32, |i: int| 0u8));
    MetadataCommand {
        schema_id: SCHEMA_ID.to_string(),
        root_id: context.root_id,
        logical_shard_id: context.logical_shard_id,
        object_namespace_id: Some(context.object_namespace_id),
        placement_generation: context.placement_generation,
        owner_epoch: context.owner_epoch,
        request_id: context.request_id,
        command_digest: CommandDigest { bytes: blank },
        read_version: context.read_version,
        root_fence_action: RootFenceAction::RequireActive,
        predicates,
        mutations,
        history_projection: history,
        event_projection: events,
        deterministic_result: copy_bytes(planned.deterministic_result.as_slice()),
    }
}

} // verus!
