//! The revisions that a publication touches besides its own: those it comes to
//! depend on, and the one its path showed before.

use crate::be::copy_bytes;
use crate::ids::{ArtifactRevisionId, CommitVersion, GcClaimState, ReferenceEpoch, RevisionState};
use crate::publication_authority::{path_key_of, revision_key_of};
use crate::publication_digests::{fault_upto, lemma_fault_prefix, owners_sorted};
use crate::publication_error::PublicationError;
use crate::publication_plan::{failing, halted, keeps_halts, lemma_stepped_halt, live, put_absent,
    replacing, stepped, CommandPlan, Draft, PublicationContext, RowKey, RowKeyView, Stop, StopView};
use crate::publication_records::{artifact_revision_bytes, artifact_revision_fault, first_fault,
    gc_candidate_bytes, revision_ref_bytes, ArtifactRevisionRecord, ArtifactRevisionView,
    GcCandidateRecord, GcCandidateView, PublicationRecordCodecError, RevisionRefRecord};
use crate::publication_replay::{path_ref_key_of, path_ref_row};
use crate::publication_rules::contains_revision;
use crate::publication_store::{bytes_of, path_entry_of, revision_halt, revision_of,
    revision_ref_halt, revision_ref_of, Loaded, MetaShard, PublicationService};
use crate::publish_records::PublishOperationRecord;
use vstd::prelude::*;

verus! {

/// A failure of a record codec as a publication failure, if there is one.
pub open spec fn record_fault(fault: Option<PublicationRecordCodecError>) -> Option<
    PublicationError,
> {
    match fault {
        None => None,
        Some(error) => Some(PublicationError::RecordCodec(error)),
    }
}

/// The bytes of a record, its failure as a stop.
pub fn encoded(result: Result<Vec<u8>, PublicationRecordCodecError>) -> (lifted: Result<
    Vec<u8>,
    Stop,
>)
    ensures
        match result {
            Ok(bytes) => lifted == Ok::<Vec<u8>, Stop>(bytes),
            Err(error) => lifted == Err::<Vec<u8>, Stop>(
                Stop::Fail(PublicationError::RecordCodec(error)),
            ),
        },
{
    match result {
        Ok(bytes) => Ok(bytes),
        Err(error) => Err(Stop::Fail(PublicationError::RecordCodec(error))),
    }
}

/// The record of a revision that was read.
pub open spec fn revision_at(
    store: MetaShard,
    context: PublicationContext,
    revision: ArtifactRevisionId,
) -> ArtifactRevisionView {
    revision_of(store, context.read_version, revision_key_of(context, revision)).unwrap()
}

/// The bytes of a revision that was read.
pub open spec fn revision_bytes_at(
    store: MetaShard,
    context: PublicationContext,
    revision: ArtifactRevisionId,
) -> Seq<u8> {
    bytes_of(store, context.read_version, revision_key_of(context, revision)).unwrap()
}

/// Why a revision cannot be depended on: it is unknown yet, missing, or not
/// available.
#[verifier::opaque]
pub open spec fn available_halt(
    store: MetaShard,
    context: PublicationContext,
    revision: ArtifactRevisionId,
) -> Option<StopView> {
    let key = revision_key_of(context, revision);
    first_fault(
        revision_halt(store, context.read_version, key),
        failing(
            match revision_of(store, context.read_version, key) {
                None => Some(PublicationError::RevisionNotFound { revision }),
                Some(record) => if record.state != RevisionState::Available {
                    Some(PublicationError::RevisionUnavailable { revision })
                } else {
                    None
                },
            },
        ),
    )
}

/// Every dependency must be available.
pub open spec fn dependencies_halt(
    store: MetaShard,
    context: PublicationContext,
    owners: Seq<ArtifactRevisionId>,
) -> spec_fn(int) -> Option<StopView> {
    |i: int| available_halt(store, context, owners[i])
}

/// The deepest of the first `n` dependencies.
pub open spec fn deepest(
    store: MetaShard,
    context: PublicationContext,
    owners: Seq<ArtifactRevisionId>,
    n: nat,
) -> int
    decreases n,
{
    if n == 0 {
        0
    } else {
        let before = deepest(store, context, owners, (n - 1) as nat);
        let depth = revision_at(store, context, owners[n - 1]).dependency_depth as int;
        if depth > before {
            depth
        } else {
            before
        }
    }
}

/// A sealed depth that is not one more than the deepest dependency's.
pub open spec fn depth_fault(
    store: MetaShard,
    context: PublicationContext,
    operation: PublishOperationRecord,
    owners: Seq<ArtifactRevisionId>,
) -> Option<PublicationError> {
    let deep = deepest(store, context, owners, owners.len());
    let derived = if owners.len() == 0 {
        0
    } else {
        deep + 1
    };
    if owners.len() > 0 && deep == u8::MAX {
        Some(
            PublicationError::DependencyDepthMismatch {
                expected: operation.dependency_depth,
                actual: u8::MAX,
            },
        )
    } else if derived != operation.dependency_depth {
        Some(
            PublicationError::DependencyDepthMismatch {
                expected: operation.dependency_depth,
                actual: derived as u8,
            },
        )
    } else {
        None
    }
}

/// The revision that the path shows now, if it shows one.
pub open spec fn shown_revision(
    store: MetaShard,
    context: PublicationContext,
    operation: PublishOperationRecord,
) -> Option<ArtifactRevisionId> {
    match path_entry_of(store, context.read_version, path_key_of(context, operation)) {
        None => None,
        Some(entry) => Some(entry.artifact_revision_id),
    }
}

/// Why the revision that a path shows cannot be let go.
pub open spec fn shown_halt(
    store: MetaShard,
    context: PublicationContext,
    operation: PublishOperationRecord,
    owners: Seq<ArtifactRevisionId>,
    shown: ArtifactRevisionId,
) -> Option<StopView> {
    let key = path_ref_key_of(context, operation, shown);
    first_fault(
        failing(
            if shown == operation.artifact_revision_id {
                Some(PublicationError::RevisionIdentityCollision)
            } else {
                None
            },
        ),
        first_fault(
            if owners.contains(shown) {
                None
            } else {
                available_halt(store, context, shown)
            },
            first_fault(
                revision_ref_halt(store, context.read_version, key),
                failing(
                    match revision_ref_of(store, context.read_version, key) {
                        None => Some(PublicationError::RevisionReferenceMissing),
                        Some(reference) => if reference.reference_epoch_at_add.value > revision_at(
                            store,
                            context,
                            shown,
                        ).reference_epoch.value {
                            Some(PublicationError::RevisionReferenceEpochAhead)
                        } else {
                            None
                        },
                    },
                ),
            ),
        ),
    )
}

/// Why the revisions that a publication touches are not as it needs them.
#[verifier::opaque]
pub open spec fn owners_halt(
    store: MetaShard,
    context: PublicationContext,
    operation: PublishOperationRecord,
    owners: Seq<ArtifactRevisionId>,
) -> Option<StopView> {
    first_fault(
        fault_upto(dependencies_halt(store, context, owners), owners.len()),
        first_fault(
            failing(depth_fault(store, context, operation, owners)),
            match shown_revision(store, context, operation) {
                None => None,
                Some(shown) => shown_halt(store, context, operation, owners, shown),
            },
        ),
    )
}

/// Increasing revisions with one more in its place.
pub open spec fn insert_revision(
    ids: Seq<ArtifactRevisionId>,
    id: ArtifactRevisionId,
) -> Seq<ArtifactRevisionId>
    decreases ids.len(),
{
    if ids.len() == 0 {
        seq![id]
    } else if ids.last().bits < id.bits {
        ids.push(id)
    } else if ids.last().bits == id.bits {
        ids
    } else {
        insert_revision(ids.drop_last(), id).push(ids.last())
    }
}

/// The revisions whose references change, in increasing order.
pub open spec fn touched(
    owners: Seq<ArtifactRevisionId>,
    shown: Option<ArtifactRevisionId>,
) -> Seq<ArtifactRevisionId> {
    match shown {
        None => owners,
        Some(shown) => insert_revision(owners, shown),
    }
}

/// The touched revisions are the dependencies and the one shown before, each
/// once, in increasing order.
pub proof fn touched_revisions_are_distinct(
    owners: Seq<ArtifactRevisionId>,
    shown: Option<ArtifactRevisionId>,
)
    requires
        owners_sorted(owners),
    ensures
        owners_sorted(touched(owners, shown)),
        forall|id: ArtifactRevisionId| #[trigger]
            touched(owners, shown).contains(id) <==> owners.contains(id) || shown == Some(id),
{
    match shown {
        None => {},
        Some(shown) => {
            lemma_insert_revision(owners, shown);
        },
    }
}

proof fn lemma_insert_revision(ids: Seq<ArtifactRevisionId>, id: ArtifactRevisionId)
    requires
        owners_sorted(ids),
    ensures
        owners_sorted(insert_revision(ids, id)),
        forall|other: ArtifactRevisionId| #[trigger]
            insert_revision(ids, id).contains(other) <==> ids.contains(other) || other == id,
    decreases ids.len(),
{
    let result = insert_revision(ids, id);
    if ids.len() == 0 {
        assert(result[0] == id);
        assert forall|other: ArtifactRevisionId| #[trigger]
            result.contains(other) <==> ids.contains(other) || other == id by {
            if other == id {
                assert(result[0] == other);
            }
        }
    } else if ids.last().bits < id.bits {
        assert forall|other: ArtifactRevisionId| #[trigger]
            result.contains(other) <==> ids.contains(other) || other == id by {
            if ids.contains(other) {
                let i = choose|i: int| 0 <= i < ids.len() && ids[i] == other;
                assert(result[i] == other);
            }
            if other == id {
                assert(result[ids.len() as int] == other);
            }
        }
    } else if ids.last().bits == id.bits {
        assert forall|other: ArtifactRevisionId| #[trigger]
            result.contains(other) <==> ids.contains(other) || other == id by {
            if other == id {
                assert(ids[ids.len() - 1] == other);
            }
        }
    } else {
        let rest = ids.drop_last();
        let inner = insert_revision(rest, id);
        lemma_insert_revision(rest, id);
        assert forall|i: int, j: int| 0 <= i < j < result.len() implies result[i].bits
            < result[j].bits by {
            if j == inner.len() {
                assert(inner.contains(inner[i]));
                if rest.contains(inner[i]) {
                    let k = choose|k: int| 0 <= k < rest.len() && rest[k] == inner[i];
                    assert(ids[k] == inner[i]);
                }
            } else {
                assert(result[i] == inner[i] && result[j] == inner[j]);
            }
        }
        assert forall|other: ArtifactRevisionId| #[trigger]
            result.contains(other) <==> ids.contains(other) || other == id by {
            if result.contains(other) {
                let i = choose|i: int| 0 <= i < result.len() && result[i] == other;
                if i < inner.len() {
                    assert(inner.contains(other));
                    if rest.contains(other) {
                        let k = choose|k: int| 0 <= k < rest.len() && rest[k] == other;
                        assert(ids[k] == other);
                    }
                } else {
                    assert(ids[ids.len() - 1] == other);
                }
            }
            if ids.contains(other) {
                let i = choose|i: int| 0 <= i < ids.len() && ids[i] == other;
                if i < rest.len() {
                    assert(rest[i] == other);
                    assert(inner.contains(other));
                    let k = choose|k: int| 0 <= k < inner.len() && inner[k] == other;
                    assert(result[k] == other);
                } else {
                    assert(result[inner.len() as int] == other);
                }
            }
            if other == id {
                assert(inner.contains(other));
                let k = choose|k: int| 0 <= k < inner.len() && inner[k] == other;
                assert(result[k] == other);
            }
        }
    }
}

/// How many references a revision has once dependents come and a path goes.
pub open spec fn reference_count_after(count: u64, adds: bool, removes: bool) -> int {
    count + (if adds {
        1int
    } else {
        0
    }) - (if removes {
        1int
    } else {
        0
    })
}

/// References that cannot be counted.
pub open spec fn reference_fault(
    record: ArtifactRevisionView,
    revision: ArtifactRevisionId,
    adds: bool,
    removes: bool,
) -> Option<PublicationError> {
    if record.reference_epoch.value == u64::MAX {
        Some(PublicationError::ReferenceEpochOverflow { revision })
    } else if adds && record.strong_reference_count == u64::MAX {
        Some(PublicationError::ReferenceCountOverflow { revision })
    } else if removes && !adds && record.strong_reference_count == 0 {
        Some(PublicationError::ReferenceCountUnderflow { revision })
    } else {
        None
    }
}

/// A touched revision after the publication: its epoch advances, its count
/// follows its references, and at zero it keeps the version that left it so.
pub open spec fn touched_record(
    record: ArtifactRevisionView,
    adds: bool,
    removes: bool,
    version: CommitVersion,
) -> ArtifactRevisionView {
    let count = reference_count_after(record.strong_reference_count, adds, removes);
    ArtifactRevisionView {
        reference_epoch: ReferenceEpoch { value: (record.reference_epoch.value + 1) as u64 },
        strong_reference_count: count as u64,
        last_zero_ref_version: if count == 0 {
            Some(version)
        } else {
            None
        },
        ..record
    }
}

/// References of touched revisions that cannot be counted, in order.
pub open spec fn references_fault(
    store: MetaShard,
    context: PublicationContext,
    owners: Seq<ArtifactRevisionId>,
    shown: Option<ArtifactRevisionId>,
) -> spec_fn(int) -> Option<PublicationError> {
    |i: int|
        {
            let revision = touched(owners, shown)[i];
            reference_fault(
                revision_at(store, context, revision),
                revision,
                owners.contains(revision),
                shown == Some(revision),
            )
        }
}

/// A candidate for collection, fresh.
pub open spec fn fresh_candidate(version: CommitVersion) -> GcCandidateView {
    GcCandidateView {
        last_zero_ref_version: version,
        claim_state: GcClaimState::Candidate,
        retry_count: 0,
        quarantine_evidence: None,
    }
}

/// Writes one touched revision: its record, the reference of a new dependent,
/// and a collection candidate where no reference is left.
#[verifier::opaque]
pub open spec fn touch_draft(
    store: MetaShard,
    context: PublicationContext,
    operation: PublishOperationRecord,
    owners: Seq<ArtifactRevisionId>,
    shown: Option<ArtifactRevisionId>,
    version: CommitVersion,
    revision: ArtifactRevisionId,
    draft: Draft,
) -> Draft {
    let adds = owners.contains(revision);
    let next = touched_record(
        revision_at(store, context, revision),
        adds,
        shown == Some(revision),
        version,
    );
    let replaced = replacing(
        halted(draft, failing(record_fault(artifact_revision_fault(next)))),
        revision_key_of(context, revision),
        revision_bytes_at(store, context, revision),
        artifact_revision_bytes(next),
    );
    let referred = if adds {
        put_absent(
            replaced,
            RowKeyView::DependencyRef {
                root_id: context.root_id,
                revision: operation.artifact_revision_id,
                dependency: revision,
            },
            revision_ref_bytes(RevisionRefRecord { reference_epoch_at_add: next.reference_epoch }),
        )
    } else {
        replaced
    };
    if next.strong_reference_count == 0 {
        put_absent(
            referred,
            RowKeyView::GcCandidate {
                root_id: context.root_id,
                revision,
                epoch: next.reference_epoch,
            },
            gc_candidate_bytes(fresh_candidate(version)),
        )
    } else {
        referred
    }
}

/// Writes the touched revisions.
pub open spec fn touch_step(
    store: MetaShard,
    context: PublicationContext,
    operation: PublishOperationRecord,
    owners: Seq<ArtifactRevisionId>,
    shown: Option<ArtifactRevisionId>,
    version: CommitVersion,
) -> spec_fn(int, Draft) -> Draft {
    |i: int, draft: Draft|
        touch_draft(
            store,
            context,
            operation,
            owners,
            shown,
            version,
            touched(owners, shown)[i],
            draft,
        )
}

/// The draft after every touched revision is written.
#[verifier::opaque]
pub open spec fn touches_draft(
    store: MetaShard,
    context: PublicationContext,
    operation: PublishOperationRecord,
    owners: Seq<ArtifactRevisionId>,
    shown: Option<ArtifactRevisionId>,
    version: CommitVersion,
    draft: Draft,
) -> Draft {
    stepped(
        touch_step(store, context, operation, owners, shown, version),
        touched(owners, shown).len(),
        draft,
    )
}

/// A stopped draft stays as it is.
pub broadcast proof fn lemma_touches_after_halt(
    store: MetaShard,
    context: PublicationContext,
    operation: PublishOperationRecord,
    owners: Seq<ArtifactRevisionId>,
    shown: Option<ArtifactRevisionId>,
    version: CommitVersion,
    draft: Draft,
)
    requires
        draft.halt is Some,
    ensures
        (#[trigger] touches_draft(store, context, operation, owners, shown, version, draft))
            == draft,
{
    reveal(touches_draft);
    let step = touch_step(store, context, operation, owners, shown, version);
    lemma_touch_keeps_halts(store, context, operation, owners, shown, version);
    lemma_stepped_halt(step, 0, touched(owners, shown).len(), draft);
}

proof fn lemma_touch_keeps_halts(
    store: MetaShard,
    context: PublicationContext,
    operation: PublishOperationRecord,
    owners: Seq<ArtifactRevisionId>,
    shown: Option<ArtifactRevisionId>,
    version: CommitVersion,
)
    ensures
        keeps_halts(touch_step(store, context, operation, owners, shown, version)),
{
    reveal(touch_draft);
}

/// A touched revision with the bytes it was read from.
pub struct TouchedRevision {
    pub revision: ArtifactRevisionId,
    pub payload: Vec<u8>,
    pub record: ArtifactRevisionRecord,
}

/// What was read of touched revisions is what the store holds of `ids`.
pub open spec fn holds_touched(
    store: MetaShard,
    context: PublicationContext,
    ids: Seq<ArtifactRevisionId>,
    list: Seq<TouchedRevision>,
) -> bool {
    &&& list.len() == ids.len()
    &&& forall|i: int|
        0 <= i < ids.len() ==> {
            &&& (#[trigger] list[i]).revision == ids[i]
            &&& list[i].payload@ == revision_bytes_at(store, context, ids[i])
            &&& list[i].record@ == revision_at(store, context, ids[i])
        }
}

/// A touched revision after the publication.
fn touch_record(
    record: &ArtifactRevisionRecord,
    revision: ArtifactRevisionId,
    adds: bool,
    removes: bool,
    version: CommitVersion,
) -> (result: Result<ArtifactRevisionRecord, PublicationError>)
    ensures
        match result {
            Ok(next) => reference_fault(record@, revision, adds, removes) is None && next@
                == touched_record(record@, adds, removes, version),
            Err(error) => reference_fault(record@, revision, adds, removes) == Some(error),
        },
{
    if record.reference_epoch.value == u64::MAX {
        return Err(PublicationError::ReferenceEpochOverflow { revision });
    }
    let with_add: u64 = if adds {
        if record.strong_reference_count == u64::MAX {
            return Err(PublicationError::ReferenceCountOverflow { revision });
        }
        record.strong_reference_count + 1
    } else {
        record.strong_reference_count
    };
    let count: u64 = if removes {
        if with_add == 0 {
            return Err(PublicationError::ReferenceCountUnderflow { revision });
        }
        with_add - 1
    } else {
        with_add
    };
    Ok(
        ArtifactRevisionRecord {
            logical_size: record.logical_size,
            body_digest_uri: record.body_digest_uri.clone(),
            manifest_digest_uri: record.manifest_digest_uri.clone(),
            block_count: record.block_count,
            dependency_count: record.dependency_count,
            dependency_depth: record.dependency_depth,
            dependency_digest: record.dependency_digest,
            content_type: record.content_type.clone(),
            state: record.state,
            reference_epoch: ReferenceEpoch { value: record.reference_epoch.value + 1 },
            strong_reference_count: count,
            last_zero_ref_version: if count == 0 {
                Some(version)
            } else {
                None
            },
        },
    )
}

/// Whether an optional revision is a given one.
fn is_revision(optional: Option<ArtifactRevisionId>, revision: ArtifactRevisionId) -> (same: bool)
    ensures
        same == (optional == Some(revision)),
{
    match optional {
        None => false,
        Some(own) => own == revision,
    }
}

impl<'a> PublicationService<'a> {
    /// A revision that can be depended on.
    pub fn load_available_revision(
        &self,
        context: PublicationContext,
        revision: ArtifactRevisionId,
    ) -> (result: Result<Loaded<ArtifactRevisionRecord>, Stop>)
        ensures
            match result {
                Ok(loaded) => {
                    &&& available_halt(*self.store, context, revision) is None
                    &&& loaded.record@ == revision_at(*self.store, context, revision)
                    &&& loaded.payload@ == revision_bytes_at(*self.store, context, revision)
                },
                Err(stop) => available_halt(*self.store, context, revision) == Some(stop@),
            },
    {
        proof {
            reveal(available_halt);
        }
        let key: RowKey = RowKey::ArtifactRevision { root_id: context.root_id, revision };
        match self.read_revision(context.read_version, &key)? {
            None => Err(Stop::Fail(PublicationError::RevisionNotFound { revision })),
            Some(loaded) => {
                if loaded.record.state != RevisionState::Available {
                    return Err(Stop::Fail(PublicationError::RevisionUnavailable { revision }));
                }
                Ok(loaded)
            },
        }
    }

    /// The dependencies of a publication, and how deep the deepest is.
    fn load_dependencies(
        &self,
        context: PublicationContext,
        owners: &Vec<ArtifactRevisionId>,
    ) -> (result: Result<(Vec<TouchedRevision>, u8), Stop>)
        ensures
            ({
                let halt = fault_upto(
                    dependencies_halt(*self.store, context, owners@),
                    owners@.len(),
                );
                match result {
                    Ok((list, depth)) => {
                        &&& halt is None
                        &&& holds_touched(*self.store, context, owners@, list@)
                        &&& depth == deepest(*self.store, context, owners@, owners@.len())
                    },
                    Err(stop) => halt == Some(stop@),
                }
            }),
    {
        let ghost halt = dependencies_halt(*self.store, context, owners@);
        let mut list: Vec<TouchedRevision> = Vec::new();
        let mut depth: u8 = 0;
        let mut i: usize = 0;
        while i < owners.len()
            invariant
                i <= owners@.len(),
                halt == dependencies_halt(*self.store, context, owners@),
                fault_upto(halt, i as nat) is None,
                holds_touched(*self.store, context, owners@.take(i as int), list@),
                depth == deepest(*self.store, context, owners@, i as nat),
            decreases owners@.len() - i,
        {
            proof {
                assert(fault_upto(halt, (i + 1) as nat) == halt(i as int));
                if halt(i as int) is Some {
                    lemma_fault_prefix(halt, (i + 1) as nat, owners@.len());
                }
            }
            let loaded: Loaded<ArtifactRevisionRecord> = self.load_available_revision(
                context,
                owners[i],
            )?;
            if loaded.record.dependency_depth > depth {
                depth = loaded.record.dependency_depth;
            }
            list.push(
                TouchedRevision {
                    revision: owners[i],
                    payload: loaded.payload,
                    record: loaded.record,
                },
            );
            i = i + 1;
        }
        assert(owners@.take(i as int) =~= owners@);
        Ok((list, depth))
    }

    /// Adds the revision that the path shows to the dependencies; the bytes of
    /// the reference that the path holds on it.
    fn load_shown(
        &self,
        context: PublicationContext,
        operation: &PublishOperationRecord,
        owners: &Vec<ArtifactRevisionId>,
        shown: ArtifactRevisionId,
        list: &mut Vec<TouchedRevision>,
    ) -> (result: Result<Vec<u8>, Stop>)
        requires
            owners_sorted(owners@),
            holds_touched(*self.store, context, owners@, old(list)@),
        ensures
            match result {
                Ok(reference) => {
                    &&& shown_halt(*self.store, context, *operation, owners@, shown) is None
                    &&& holds_touched(
                        *self.store,
                        context,
                        insert_revision(owners@, shown),
                        final(list)@,
                    )
                    &&& bytes_of(
                        *self.store,
                        context.read_version,
                        path_ref_key_of(context, *operation, shown),
                    ) == Some(reference@)
                },
                Err(stop) => shown_halt(*self.store, context, *operation, owners@, shown) == Some(
                    stop@,
                ),
            },
    {
        if shown == operation.artifact_revision_id {
            return Err(Stop::Fail(PublicationError::RevisionIdentityCollision));
        }
        let ghost ids = owners@;
        let ghost wanted = insert_revision(ids, shown);
        let mut j: usize = owners.len();
        proof {
            assert(ids.take(ids.len() as int) =~= ids);
            assert(insert_revision(ids, shown) + ids.skip(ids.len() as int) =~= wanted);
        }
        while j > 0 && owners[j - 1].bits > shown.bits
            invariant
                j <= ids.len(),
                ids == owners@,
                owners_sorted(ids),
                wanted == insert_revision(ids.take(j as int), shown) + ids.skip(j as int),
                forall|k: int| j <= k < ids.len() ==> ids[k].bits > shown.bits,
            decreases j,
        {
            proof {
                let head = ids.take(j as int);
                assert(head.drop_last() =~= ids.take(j - 1));
                assert(insert_revision(ids.take(j - 1), shown).push(head.last()) + ids.skip(
                    j as int,
                ) =~= insert_revision(ids.take(j - 1), shown) + ids.skip(j - 1));
            }
            j = j - 1;
        }
        let present: bool = j > 0 && owners[j - 1].bits == shown.bits;
        let place: usize = if present {
            j - 1
        } else {
            j
        };
        proof {
            if present {
                assert(ids[j - 1] == shown);
                assert(ids.take(j as int).last() == shown);
                assert(ids.take(j as int) + ids.skip(j as int) =~= ids);
                assert(wanted =~= ids);
            } else {
                assert(!ids.contains(shown)) by {
                    if ids.contains(shown) {
                        let k = choose|k: int| 0 <= k < ids.len() && ids[k] == shown;
                        if k < j - 1 {
                            assert(ids[k].bits < ids[j - 1].bits);
                        }
                    }
                }
                if j > 0 {
                    assert(ids.take(j as int).last() == ids[j - 1]);
                    assert(insert_revision(ids.take(j as int), shown) == ids.take(j as int).push(
                        shown,
                    ));
                } else {
                    assert(ids.take(0) =~= Seq::empty());
                    assert(insert_revision(ids.take(0), shown) =~= ids.take(0).push(shown));
                }
                assert(wanted =~= ids.insert(j as int, shown));
            }
        }
        if !present {
            let loaded: Loaded<ArtifactRevisionRecord> = self.load_available_revision(
                context,
                shown,
            )?;
            let ghost before = list@;
            list.insert(
                j,
                TouchedRevision {
                    revision: shown,
                    payload: loaded.payload,
                    record: loaded.record,
                },
            );
            assert(holds_touched(*self.store, context, wanted, list@)) by {
                assert forall|i: int| 0 <= i < wanted.len() implies {
                    &&& (#[trigger] list@[i]).revision == wanted[i]
                    &&& list@[i].payload@ == revision_bytes_at(*self.store, context, wanted[i])
                    &&& list@[i].record@ == revision_at(*self.store, context, wanted[i])
                } by {
                    if i < j {
                        assert(list@[i] == before[i]);
                        assert(wanted[i] == ids[i]);
                    } else if i > j {
                        assert(list@[i] == before[i - 1]);
                        assert(wanted[i] == ids[i - 1]);
                    }
                }
            }
        }
        assert(wanted[place as int] == shown);
        assert(list@[place as int].record@ == revision_at(*self.store, context, shown));
        let key: RowKey = path_ref_row(context, operation, shown);
        match self.read_revision_ref(context.read_version, &key)? {
            None => Err(Stop::Fail(PublicationError::RevisionReferenceMissing)),
            Some(loaded) => {
                if loaded.record.reference_epoch_at_add.value
                    > list[place].record.reference_epoch.value {
                    return Err(Stop::Fail(PublicationError::RevisionReferenceEpochAhead));
                }
                Ok(loaded.payload)
            },
        }
    }

    /// The revisions that a publication touches, in order, and the bytes of
    /// the reference that the path holds on the revision it shows.
    pub fn load_touched(
        &self,
        context: PublicationContext,
        operation: &PublishOperationRecord,
        owners: &Vec<ArtifactRevisionId>,
        shown: Option<ArtifactRevisionId>,
    ) -> (result: Result<(Vec<TouchedRevision>, Option<Vec<u8>>), Stop>)
        requires
            owners_sorted(owners@),
            shown == shown_revision(*self.store, context, *operation),
        ensures
            match result {
                Ok((list, reference)) => {
                    &&& owners_halt(*self.store, context, *operation, owners@) is None
                    &&& holds_touched(*self.store, context, touched(owners@, shown), list@)
                    &&& reference is Some == shown is Some
                    &&& shown matches Some(shown) ==> bytes_of(
                        *self.store,
                        context.read_version,
                        path_ref_key_of(context, *operation, shown),
                    ) == Some(reference.unwrap()@)
                },
                Err(stop) => owners_halt(*self.store, context, *operation, owners@) == Some(stop@),
            },
    {
        proof {
            reveal(owners_halt);
        }
        let (list, deep) = self.load_dependencies(context, owners)?;
        let mut list = list;
        let mut derived: u8 = 0;
        if owners.len() > 0 {
            if deep == u8::MAX {
                return Err(
                    Stop::Fail(
                        PublicationError::DependencyDepthMismatch {
                            expected: operation.dependency_depth,
                            actual: u8::MAX,
                        },
                    ),
                );
            }
            derived = deep + 1;
        }
        if derived != operation.dependency_depth {
            return Err(
                Stop::Fail(
                    PublicationError::DependencyDepthMismatch {
                        expected: operation.dependency_depth,
                        actual: derived,
                    },
                ),
            );
        }
        match shown {
            None => Ok((list, None)),
            Some(shown) => {
                let reference: Vec<u8> = self.load_shown(
                    context,
                    operation,
                    owners,
                    shown,
                    &mut list,
                )?;
                Ok((list, Some(reference)))
            },
        }
    }

    /// The touched revisions after the publication.
    pub fn touch_records(
        &self,
        context: PublicationContext,
        owners: &Vec<ArtifactRevisionId>,
        shown: Option<ArtifactRevisionId>,
        list: &Vec<TouchedRevision>,
        version: CommitVersion,
    ) -> (result: Result<Vec<ArtifactRevisionRecord>, PublicationError>)
        requires
            holds_touched(*self.store, context, touched(owners@, shown), list@),
        ensures
            ({
                let ids = touched(owners@, shown);
                let fault = fault_upto(
                    references_fault(*self.store, context, owners@, shown),
                    ids.len(),
                );
                match result {
                    Ok(next) => {
                        &&& fault is None
                        &&& next@.len() == ids.len()
                        &&& forall|i: int|
                            0 <= i < ids.len() ==> (#[trigger] next@[i])@ == touched_record(
                                revision_at(*self.store, context, ids[i]),
                                owners@.contains(ids[i]),
                                shown == Some(ids[i]),
                                version,
                            )
                    },
                    Err(error) => fault == Some(error),
                }
            }),
    {
        let ghost ids = touched(owners@, shown);
        let ghost fault = references_fault(*self.store, context, owners@, shown);
        let mut next: Vec<ArtifactRevisionRecord> = Vec::new();
        let mut i: usize = 0;
        while i < list.len()
            invariant
                i <= list@.len(),
                ids == touched(owners@, shown),
                fault == references_fault(*self.store, context, owners@, shown),
                holds_touched(*self.store, context, ids, list@),
                fault_upto(fault, i as nat) is None,
                next@.len() == i,
                forall|k: int|
                    0 <= k < i ==> (#[trigger] next@[k])@ == touched_record(
                        revision_at(*self.store, context, ids[k]),
                        owners@.contains(ids[k]),
                        shown == Some(ids[k]),
                        version,
                    ),
            decreases list@.len() - i,
        {
            proof {
                assert(list@[i as int].revision == ids[i as int]);
                assert(fault_upto(fault, (i + 1) as nat) == fault(i as int));
                if fault(i as int) is Some {
                    lemma_fault_prefix(fault, (i + 1) as nat, ids.len());
                }
            }
            let revision: ArtifactRevisionId = list[i].revision;
            let record: ArtifactRevisionRecord = touch_record(
                &list[i].record,
                revision,
                contains_revision(owners, revision),
                is_revision(shown, revision),
                version,
            )?;
            next.push(record);
            i = i + 1;
        }
        Ok(next)
    }

    /// Writes one touched revision.
    fn write_touched(
        &self,
        context: PublicationContext,
        operation: &PublishOperationRecord,
        owners: &Vec<ArtifactRevisionId>,
        shown: Option<ArtifactRevisionId>,
        version: CommitVersion,
        touched_revision: &TouchedRevision,
        next: &ArtifactRevisionRecord,
        plan: &mut CommandPlan,
    ) -> (result: Result<(), Stop>)
        requires
            touched_revision.payload@ == revision_bytes_at(
                *self.store,
                context,
                touched_revision.revision,
            ),
            next@ == touched_record(
                revision_at(*self.store, context, touched_revision.revision),
                owners@.contains(touched_revision.revision),
                shown == Some(touched_revision.revision),
                version,
            ),
            old(plan).wf(),
        ensures
            final(plan).wf(),
            ({
                let draft = touch_draft(
                    *self.store,
                    context,
                    *operation,
                    owners@,
                    shown,
                    version,
                    touched_revision.revision,
                    live(old(plan)@),
                );
                match result {
                    Ok(_) => draft == live(final(plan)@),
                    Err(stop) => draft.halt == Some(stop@),
                }
            }),
    {
        proof {
            reveal(touch_draft);
        }
        let revision: ArtifactRevisionId = touched_revision.revision;
        let record: Vec<u8> = encoded(next.encode())?;
        plan.replace(
            RowKey::ArtifactRevision { root_id: context.root_id, revision },
            copy_bytes(touched_revision.payload.as_slice()),
            record,
        )?;
        if contains_revision(owners, revision) {
            let reference: Vec<u8> = encoded(
                (RevisionRefRecord { reference_epoch_at_add: next.reference_epoch }).encode(),
            )?;
            plan.put_absent(
                RowKey::DependencyRef {
                    root_id: context.root_id,
                    revision: operation.artifact_revision_id,
                    dependency: revision,
                },
                reference,
            )?;
        }
        if next.strong_reference_count == 0 {
            let candidate: GcCandidateRecord = GcCandidateRecord {
                last_zero_ref_version: version,
                claim_state: GcClaimState::Candidate,
                retry_count: 0,
                quarantine_evidence: None,
            };
            assert(candidate@ == fresh_candidate(version));
            let payload: Vec<u8> = encoded(candidate.encode())?;
            plan.put_absent(
                RowKey::GcCandidate {
                    root_id: context.root_id,
                    revision,
                    epoch: next.reference_epoch,
                },
                payload,
            )?;
        }
        Ok(())
    }

    /// Writes every touched revision.
    pub fn write_touched_revisions(
        &self,
        context: PublicationContext,
        operation: &PublishOperationRecord,
        owners: &Vec<ArtifactRevisionId>,
        shown: Option<ArtifactRevisionId>,
        version: CommitVersion,
        list: &Vec<TouchedRevision>,
        next: &Vec<ArtifactRevisionRecord>,
        plan: &mut CommandPlan,
    ) -> (result: Result<(), Stop>)
        requires
            holds_touched(*self.store, context, touched(owners@, shown), list@),
            next@.len() == touched(owners@, shown).len(),
            forall|i: int|
                0 <= i < next@.len() ==> (#[trigger] next@[i])@ == touched_record(
                    revision_at(*self.store, context, touched(owners@, shown)[i]),
                    owners@.contains(touched(owners@, shown)[i]),
                    shown == Some(touched(owners@, shown)[i]),
                    version,
                ),
            old(plan).wf(),
        ensures
            final(plan).wf(),
            ({
                let draft = touches_draft(
                    *self.store,
                    context,
                    *operation,
                    owners@,
                    shown,
                    version,
                    live(old(plan)@),
                );
                match result {
                    Ok(_) => draft == live(final(plan)@),
                    Err(stop) => draft.halt == Some(stop@),
                }
            }),
    {
        let ghost ids = touched(owners@, shown);
        let ghost before = live(plan@);
        let ghost step = touch_step(*self.store, context, *operation, owners@, shown, version);
        let ghost draft = touches_draft(
            *self.store,
            context,
            *operation,
            owners@,
            shown,
            version,
            before,
        );
        proof {
            reveal(touches_draft);
            lemma_touch_keeps_halts(*self.store, context, *operation, owners@, shown, version);
        }
        let mut i: usize = 0;
        while i < list.len()
            invariant
                i <= list@.len(),
                ids == touched(owners@, shown),
                list@.len() == ids.len(),
                next@.len() == ids.len(),
                holds_touched(*self.store, context, ids, list@),
                forall|k: int|
                    0 <= k < next@.len() ==> (#[trigger] next@[k])@ == touched_record(
                        revision_at(*self.store, context, ids[k]),
                        owners@.contains(ids[k]),
                        shown == Some(ids[k]),
                        version,
                    ),
                plan.wf(),
                step == touch_step(*self.store, context, *operation, owners@, shown, version),
                keeps_halts(step),
                stepped(step, i as nat, before) == live(plan@),
                draft == stepped(step, ids.len(), before),
                draft == touches_draft(
                    *self.store,
                    context,
                    *operation,
                    owners@,
                    shown,
                    version,
                    live(old(plan)@),
                ),
            decreases list@.len() - i,
        {
            proof {
                assert(list@[i as int].revision == ids[i as int]);
                assert(next@[i as int]@ == next@[i as int]@);
                assert(stepped(step, (i + 1) as nat, before) == step(i as int, live(plan@)));
                if stepped(step, (i + 1) as nat, before).halt is Some {
                    lemma_stepped_halt(step, (i + 1) as nat, ids.len(), before);
                }
            }
            self.write_touched(
                context,
                operation,
                owners,
                shown,
                version,
                &list[i],
                &next[i],
                plan,
            )?;
            i = i + 1;
        }
        Ok(())
    }
}

} // verus!
