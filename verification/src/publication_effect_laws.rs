//! What a publication leaves behind, row by row: the path entry, the revision,
//! the references on it and on what it depends on, the index locator, the
//! workspace and the event.

use crate::change_events::{parse_change_event, parse_locator, ChangeEventView,
    PathIndexLocatorState};
use crate::ids::{ArtifactRevisionId, ReferenceEpoch, RootId};
use crate::publication_authority::sealed_draft;
use crate::publication_laws::{lemma_authority_only_pins, lemma_prefix_contains,
    lemma_sealed_extends};
use crate::publication_plan::{asserting, deleting, halted, put_absent, replacing, Draft,
    PlanMutationView, PlanPredicateView, PlanView, PublicationContext, RowKeyView, StopView};
use crate::publication_records::{artifact_revision_bytes, artifact_revision_fault,
    artifact_revision_round_trip, parse_artifact_revision, parse_gc_candidate, parse_path_entry,
    parse_revision_ref, parse_workspace, revision_ref_bytes, revision_ref_round_trip,
    ArtifactRevisionView, GcCandidateView, PathEntryView, RevisionRefRecord, WorkspaceRecord};
use crate::publication_rules::PublicationAuthorityPurpose;
use crate::publication_store::MetaShard;
use crate::publish_records::PublishOperationRecord;
use crate::query_records::{parse_projection, FieldView};
use vstd::prelude::*;

verus! {

/// Whether a plan puts a row.
pub open spec fn writes(plan: PlanView, key: RowKeyView, value: Seq<u8>) -> bool {
    plan.mutations.contains(PlanMutationView::Put { key, value })
}

/// Whether a plan removes a row.
pub open spec fn removes(plan: PlanView, key: RowKeyView) -> bool {
    plan.mutations.contains(PlanMutationView::Delete { key })
}

/// Whether a plan is carried out only where a row is as given.
pub open spec fn expects(plan: PlanView, key: RowKeyView, expected: Option<Seq<u8>>) -> bool {
    plan.predicates.contains(PlanPredicateView::Value { key, expected })
}

/// Whether a draft goes on from another and changes exactly the given rows
/// besides.
pub open spec fn adds_rows(before: Draft, after: Draft, rows: Seq<PlanMutationView>) -> bool {
    after.halt is None ==> {
        &&& before.halt is None
        &&& before.plan.predicates.is_prefix_of(after.plan.predicates)
        &&& after.plan.mutations == before.plan.mutations + rows
    }
}

pub proof fn lemma_adds_trans(
    a: Draft,
    b: Draft,
    c: Draft,
    first: Seq<PlanMutationView>,
    second: Seq<PlanMutationView>,
)
    requires
        adds_rows(a, b, first),
        adds_rows(b, c, second),
    ensures
        adds_rows(a, c, first + second),
{
    if c.halt is None {
        assert(c.plan.predicates.subrange(0, a.plan.predicates.len() as int)
            =~= b.plan.predicates.subrange(0, a.plan.predicates.len() as int));
        assert(a.plan.mutations + first + second =~= a.plan.mutations + (first + second));
    }
}

pub broadcast proof fn lemma_halted_adds(draft: Draft, halt: Option<StopView>)
    ensures
        #[trigger] adds_rows(draft, halted(draft, halt), Seq::empty()),
{
    assert(draft.plan.mutations + Seq::<PlanMutationView>::empty() =~= draft.plan.mutations);
}

pub broadcast proof fn lemma_assert_adds(draft: Draft, key: RowKeyView, expected: Option<Seq<u8>>)
    ensures
        #[trigger] adds_rows(draft, asserting(draft, key, expected), Seq::empty()),
{
    assert(draft.plan.mutations + Seq::<PlanMutationView>::empty() =~= draft.plan.mutations);
}

pub proof fn lemma_put_adds(draft: Draft, key: RowKeyView, value: Seq<u8>)
    ensures
        adds_rows(
            draft,
            put_absent(draft, key, value),
            seq![PlanMutationView::Put { key, value }],
        ),
        put_absent(draft, key, value).halt is None ==> expects(
            put_absent(draft, key, value).plan,
            key,
            None,
        ),
{
    let after = put_absent(draft, key, value);
    if after.halt is None {
        assert(after.plan.mutations =~= draft.plan.mutations
            + seq![PlanMutationView::Put { key, value }]);
        assert(after.plan.predicates.last() == PlanPredicateView::Value { key, expected: None });
    }
}

pub proof fn lemma_replace_adds(draft: Draft, key: RowKeyView, expected: Seq<u8>, value: Seq<u8>)
    ensures
        adds_rows(
            draft,
            replacing(draft, key, expected, value),
            seq![PlanMutationView::Put { key, value }],
        ),
        replacing(draft, key, expected, value).halt is None ==> expects(
            replacing(draft, key, expected, value).plan,
            key,
            Some(expected),
        ),
{
    let after = replacing(draft, key, expected, value);
    if after.halt is None {
        assert(after.plan.mutations =~= draft.plan.mutations
            + seq![PlanMutationView::Put { key, value }]);
        assert(after.plan.predicates.last() == PlanPredicateView::Value {
            key,
            expected: Some(expected),
        });
    }
}

pub proof fn lemma_delete_adds(draft: Draft, key: RowKeyView, expected: Seq<u8>)
    ensures
        adds_rows(
            draft,
            deleting(draft, key, expected),
            seq![PlanMutationView::Delete { key }],
        ),
        deleting(draft, key, expected).halt is None ==> expects(
            deleting(draft, key, expected).plan,
            key,
            Some(expected),
        ),
{
    let after = deleting(draft, key, expected);
    if after.halt is None {
        assert(after.plan.mutations =~= draft.plan.mutations + seq![PlanMutationView::Delete { key }]);
        assert(after.plan.predicates.last() == PlanPredicateView::Value {
            key,
            expected: Some(expected),
        });
    }
}

pub proof fn lemma_sealed_adds(
    store: MetaShard,
    context: PublicationContext,
    operation: PublishOperationRecord,
    purpose: PublicationAuthorityPurpose,
    draft: Draft,
)
    ensures
        adds_rows(
            draft,
            sealed_draft(store, context, operation, purpose, draft),
            Seq::empty(),
        ),
        sealed_draft(store, context, operation, purpose, draft).halt is None
            ==> sealed_draft(store, context, operation, purpose, draft).plan.events
            == draft.plan.events,
{
    lemma_sealed_extends(store, context, operation, purpose, draft);
    lemma_authority_only_pins(store, context, operation, purpose, draft);
    assert(draft.plan.mutations + Seq::<PlanMutationView>::empty() =~= draft.plan.mutations);
}

/// What a plan expects, it still expects when it goes on.
pub proof fn lemma_expects_stays(
    before: Draft,
    after: Draft,
    rows: Seq<PlanMutationView>,
    key: RowKeyView,
    expected: Option<Seq<u8>>,
)
    requires
        adds_rows(before, after, rows),
        after.halt is None,
        expects(before.plan, key, expected),
    ensures
        expects(after.plan, key, expected),
{
    lemma_prefix_contains(
        before.plan.predicates,
        after.plan.predicates,
        PlanPredicateView::Value { key, expected },
    );
}

/// The artifact revision that bytes decode to, if they are one.
#[verifier::opaque]
pub open spec fn revision_in(bytes: Seq<u8>) -> Option<ArtifactRevisionView> {
    match parse_artifact_revision(bytes) {
        Ok(record) => Some(record),
        Err(_) => None,
    }
}

/// The reference that bytes decode to, if they are one.
#[verifier::opaque]
pub open spec fn reference_in(bytes: Seq<u8>) -> Option<RevisionRefRecord> {
    match parse_revision_ref(bytes) {
        Ok(record) => Some(record),
        Err(_) => None,
    }
}

/// The path entry that bytes decode to, if they are one.
#[verifier::opaque]
pub open spec fn entry_in(bytes: Seq<u8>) -> Option<PathEntryView> {
    match parse_path_entry(bytes) {
        Ok(record) => Some(record),
        Err(_) => None,
    }
}

/// The workspace that bytes decode to, if they are one.
#[verifier::opaque]
pub open spec fn workspace_in(bytes: Seq<u8>) -> Option<WorkspaceRecord> {
    match parse_workspace(bytes) {
        Ok(record) => Some(record),
        Err(_) => None,
    }
}

/// The collection candidate that bytes decode to, if they are one.
#[verifier::opaque]
pub open spec fn candidate_in(bytes: Seq<u8>) -> Option<GcCandidateView> {
    match parse_gc_candidate(bytes) {
        Ok(record) => Some(record),
        Err(_) => None,
    }
}

/// The locator that bytes decode to, if they are one.
#[verifier::opaque]
pub open spec fn locator_in(bytes: Seq<u8>) -> Option<(PathIndexLocatorState, Seq<char>)> {
    match parse_locator(bytes) {
        Ok(record) => Some(record),
        Err(_) => None,
    }
}

/// The change event that bytes decode to, if they are one.
#[verifier::opaque]
pub open spec fn event_in(bytes: Seq<u8>) -> Option<ChangeEventView> {
    match parse_change_event(bytes) {
        Ok(record) => Some(record),
        Err(_) => None,
    }
}

/// The projection that bytes decode to, if they are one.
#[verifier::opaque]
pub open spec fn fields_in(bytes: Seq<u8>) -> Option<Seq<FieldView>> {
    match parse_projection(bytes) {
        Ok(record) => Some(record),
        Err(_) => None,
    }
}

pub proof fn lemma_revision_in(record: ArtifactRevisionView)
    requires
        artifact_revision_fault(record) is None,
        record.dependency_digest.len() == 32,
        record.last_zero_ref_version is Some ==> record.last_zero_ref_version.unwrap().wf(),
    ensures
        revision_in(artifact_revision_bytes(record)) == Some(record),
{
    reveal(revision_in);
    artifact_revision_round_trip(record);
}

pub proof fn lemma_reference_in(epoch: ReferenceEpoch)
    ensures
        reference_in(
            revision_ref_bytes(RevisionRefRecord { reference_epoch_at_add: epoch }),
        ) == Some(RevisionRefRecord { reference_epoch_at_add: epoch }),
{
    reveal(reference_in);
    revision_ref_round_trip(RevisionRefRecord { reference_epoch_at_add: epoch });
}

/// Whether a plan puts a row, and every value that it puts there is the stored
/// form of the given revision.
pub open spec fn installs_revision(
    plan: PlanView,
    key: RowKeyView,
    record: ArtifactRevisionView,
) -> bool {
    &&& exists|value: Seq<u8>| #[trigger] writes(plan, key, value)
    &&& forall|value: Seq<u8>| #[trigger]
        writes(plan, key, value) ==> revision_in(value) == Some(record)
}

/// Whether a plan puts a reference that was not there, of a revision's epoch.
pub open spec fn installs_reference(plan: PlanView, key: RowKeyView, epoch: int) -> bool {
    &&& expects(plan, key, None)
    &&& exists|value: Seq<u8>| #[trigger] writes(plan, key, value)
    &&& forall|value: Seq<u8>| #[trigger]
        writes(plan, key, value) ==> {
            &&& reference_in(value) is Some
            &&& reference_in(value).unwrap().reference_epoch_at_add.value == epoch
        }
}

/// Whether a row is a reference on a revision.
pub open spec fn refers_to(key: RowKeyView, root: RootId, target: ArtifactRevisionId) -> bool {
    match key {
        RowKeyView::PathRevisionRef { root_id, revision, .. } => root_id == root && revision
            == target,
        RowKeyView::DependencyRef { root_id, dependency, .. } => root_id == root && dependency
            == target,
        RowKeyView::CommitRef { root_id, revision, .. } => root_id == root && revision == target,
        _ => false,
    }
}

/// How many references on a revision mutations put, less how many they
/// remove.
pub open spec fn net_references(
    mutations: Seq<PlanMutationView>,
    root: RootId,
    target: ArtifactRevisionId,
) -> int
    decreases mutations.len(),
{
    if mutations.len() == 0 {
        0
    } else {
        net_references(mutations.drop_last(), root, target) + match mutations.last() {
            PlanMutationView::Put { key, .. } => if refers_to(key, root, target) {
                1int
            } else {
                0
            },
            PlanMutationView::Delete { key } => if refers_to(key, root, target) {
                -1
            } else {
                0
            },
        }
    }
}

/// How many references the record of a revision counts once mutations have
/// been carried out, where it counted `count` before.
pub open spec fn count_after(
    count: int,
    mutations: Seq<PlanMutationView>,
    root: RootId,
    target: ArtifactRevisionId,
) -> int
    decreases mutations.len(),
{
    if mutations.len() == 0 {
        count
    } else {
        match mutations.last() {
            PlanMutationView::Put { key, value } => if key == (RowKeyView::ArtifactRevision {
                root_id: root,
                revision: target,
            }) {
                revision_in(value).unwrap().strong_reference_count as int
            } else {
                count_after(count, mutations.drop_last(), root, target)
            },
            PlanMutationView::Delete { .. } => count_after(
                count,
                mutations.drop_last(),
                root,
                target,
            ),
        }
    }
}

pub proof fn lemma_net_concat(
    a: Seq<PlanMutationView>,
    b: Seq<PlanMutationView>,
    root: RootId,
    target: ArtifactRevisionId,
    count: int,
)
    ensures
        net_references(a + b, root, target) == net_references(a, root, target) + net_references(
            b,
            root,
            target,
        ),
        count_after(count, a + b, root, target) == count_after(
            count_after(count, a, root, target),
            b,
            root,
            target,
        ),
    decreases b.len(),
{
    if b.len() == 0 {
        assert(a + b =~= a);
    } else {
        assert((a + b).drop_last() =~= a + b.drop_last());
        assert((a + b).last() == b.last());
        lemma_net_concat(a, b.drop_last(), root, target, count);
    }
}

pub proof fn lemma_net_one(
    mutation: PlanMutationView,
    root: RootId,
    target: ArtifactRevisionId,
    count: int,
)
    ensures
        net_references(seq![mutation], root, target) == match mutation {
            PlanMutationView::Put { key, .. } => if refers_to(key, root, target) {
                1int
            } else {
                0
            },
            PlanMutationView::Delete { key } => if refers_to(key, root, target) {
                -1
            } else {
                0
            },
        },
        count_after(count, seq![mutation], root, target) == match mutation {
            PlanMutationView::Put { key, value } => if key == (RowKeyView::ArtifactRevision {
                root_id: root,
                revision: target,
            }) {
                revision_in(value).unwrap().strong_reference_count as int
            } else {
                count
            },
            PlanMutationView::Delete { .. } => count,
        },
{
    assert(seq![mutation].drop_last() =~= Seq::<PlanMutationView>::empty());
    assert(net_references(Seq::<PlanMutationView>::empty(), root, target) == 0);
    assert(count_after(count, Seq::<PlanMutationView>::empty(), root, target) == count);
}

} // verus!
