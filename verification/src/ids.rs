//! Identities, versions and durable states shared by every record.

use crate::be::{be_bytes, be_value, get_be, lemma_be_canonical, put_be};
use vstd::prelude::*;

verus! {

/// Width of a fixed identity in bytes.
pub const FIXED_ID_BYTES: usize = 16;

/// The sixteen big-endian bytes of an identity.
pub open spec fn id_bytes(bits: u128) -> Seq<u8> {
    be_bytes(bits as nat, 16)
}

/// Copies sixteen bytes into an array.
pub fn array16(bytes: &[u8]) -> (array: [u8; 16])
    requires
        bytes@.len() == 16,
    ensures
        array@ == bytes@,
{
    let mut array: [u8; 16] = [0; 16];
    let mut i: usize = 0;
    while i < 16
        invariant
            i <= 16,
            bytes@.len() == 16,
            forall|k: int| 0 <= k < i ==> array@[k] == bytes@[k],
        decreases 16 - i,
    {
        array[i] = bytes[i];
        i = i + 1;
    }
    assert(array@ =~= bytes@);
    array
}

/// Copies thirty-two bytes into an array.
pub fn array32(bytes: &[u8]) -> (array: [u8; 32])
    requires
        bytes@.len() == 32,
    ensures
        array@ == bytes@,
{
    let mut array: [u8; 32] = [0; 32];
    let mut i: usize = 0;
    while i < 32
        invariant
            i <= 32,
            bytes@.len() == 32,
            forall|k: int| 0 <= k < i ==> array@[k] == bytes@[k],
        decreases 32 - i,
    {
        array[i] = bytes[i];
        i = i + 1;
    }
    assert(array@ =~= bytes@);
    array
}

fn bits_of(bytes: &[u8; 16]) -> (bits: u128)
    ensures
        bits == be_value(bytes@),
        id_bytes(bits) == bytes@,
{
    proof {
        lemma_be_canonical(bytes@);
    }
    get_be(bytes.as_slice())
}

fn bytes_of(bits: u128) -> (bytes: [u8; 16])
    ensures
        bytes@ == id_bytes(bits),
{
    let mut digits: Vec<u8> = Vec::new();
    put_be(&mut digits, bits, 16);
    proof {
        crate::be::lemma_be_bytes_len(bits as nat, 16);
        assert(digits@ =~= id_bytes(bits));
    }
    array16(digits.as_slice())
}

/// Identity of a namespace root.
#[derive(Clone, Copy, Debug, PartialEq, Eq, PartialOrd, Ord, Hash, Structural)]
pub struct RootId {
    pub bits: u128,
}

impl RootId {
    pub fn from_bytes(bytes: [u8; 16]) -> (id: RootId)
        ensures
            id_bytes(id.bits) == bytes@,
            id.bits == be_value(bytes@),
    {
        RootId { bits: bits_of(&bytes) }
    }

    pub fn as_bytes(&self) -> (bytes: [u8; 16])
        ensures
            bytes@ == id_bytes(self.bits),
    {
        bytes_of(self.bits)
    }
}

/// Identity of a metadata shard.
#[derive(Clone, Copy, Debug, PartialEq, Eq, PartialOrd, Ord, Hash, Structural)]
pub struct LogicalShardId {
    pub bits: u128,
}

impl LogicalShardId {
    pub fn from_bytes(bytes: [u8; 16]) -> (id: LogicalShardId)
        ensures
            id_bytes(id.bits) == bytes@,
            id.bits == be_value(bytes@),
    {
        LogicalShardId { bits: bits_of(&bytes) }
    }

    pub fn as_bytes(&self) -> (bytes: [u8; 16])
        ensures
            bytes@ == id_bytes(self.bits),
    {
        bytes_of(self.bits)
    }
}

/// Identity of the object namespace a root is bound to.
#[derive(Clone, Copy, Debug, PartialEq, Eq, PartialOrd, Ord, Hash, Structural)]
pub struct ObjectNamespaceId {
    pub bits: u128,
}

impl ObjectNamespaceId {
    pub fn from_bytes(bytes: [u8; 16]) -> (id: ObjectNamespaceId)
        ensures
            id_bytes(id.bits) == bytes@,
            id.bits == be_value(bytes@),
    {
        ObjectNamespaceId { bits: bits_of(&bytes) }
    }

    pub fn as_bytes(&self) -> (bytes: [u8; 16])
        ensures
            bytes@ == id_bytes(self.bits),
    {
        bytes_of(self.bits)
    }
}

/// Identity of one root-scoped request; never reused.
#[derive(Clone, Copy, Debug, PartialEq, Eq, PartialOrd, Ord, Hash, Structural)]
pub struct RequestId {
    pub bits: u128,
}

impl RequestId {
    pub fn from_bytes(bytes: [u8; 16]) -> (id: RequestId)
        ensures
            id_bytes(id.bits) == bytes@,
            id.bits == be_value(bytes@),
    {
        RequestId { bits: bits_of(&bytes) }
    }

    pub fn as_bytes(&self) -> (bytes: [u8; 16])
        ensures
            bytes@ == id_bytes(self.bits),
    {
        bytes_of(self.bits)
    }
}

/// Identity of a long-running operation.
#[derive(Clone, Copy, Debug, PartialEq, Eq, PartialOrd, Ord, Hash, Structural)]
pub struct OperationId {
    pub bits: u128,
}

impl OperationId {
    pub fn from_bytes(bytes: [u8; 16]) -> (id: OperationId)
        ensures
            id_bytes(id.bits) == bytes@,
            id.bits == be_value(bytes@),
    {
        OperationId { bits: bits_of(&bytes) }
    }

    pub fn as_bytes(&self) -> (bytes: [u8; 16])
        ensures
            bytes@ == id_bytes(self.bits),
    {
        bytes_of(self.bits)
    }
}

/// Identity of an immutable artifact revision.
#[derive(Clone, Copy, Debug, PartialEq, Eq, PartialOrd, Ord, Hash, Structural)]
pub struct ArtifactRevisionId {
    pub bits: u128,
}

impl ArtifactRevisionId {
    pub fn from_bytes(bytes: [u8; 16]) -> (id: ArtifactRevisionId)
        ensures
            id_bytes(id.bits) == bytes@,
            id.bits == be_value(bytes@),
    {
        ArtifactRevisionId { bits: bits_of(&bytes) }
    }

    pub fn as_bytes(&self) -> (bytes: [u8; 16])
        ensures
            bytes@ == id_bytes(self.bits),
    {
        bytes_of(self.bits)
    }
}

/// Identity of one incarnation of a workspace.
#[derive(Clone, Copy, Debug, PartialEq, Eq, PartialOrd, Ord, Hash, Structural)]
pub struct WorkspaceIncarnationId {
    pub bits: u128,
}

impl WorkspaceIncarnationId {
    pub fn from_bytes(bytes: [u8; 16]) -> (id: WorkspaceIncarnationId)
        ensures
            id_bytes(id.bits) == bytes@,
            id.bits == be_value(bytes@),
    {
        WorkspaceIncarnationId { bits: bits_of(&bytes) }
    }

    pub fn as_bytes(&self) -> (bytes: [u8; 16])
        ensures
            bytes@ == id_bytes(self.bits),
    {
        bytes_of(self.bits)
    }
}

/// Identity of one generation of a path's index rows.
#[derive(Clone, Copy, Debug, PartialEq, Eq, PartialOrd, Ord, Hash, Structural)]
pub struct PathIndexGenerationId {
    pub bits: u128,
}

impl PathIndexGenerationId {
    pub fn from_bytes(bytes: [u8; 16]) -> (id: PathIndexGenerationId)
        ensures
            id_bytes(id.bits) == bytes@,
            id.bits == be_value(bytes@),
    {
        PathIndexGenerationId { bits: bits_of(&bytes) }
    }

    pub fn as_bytes(&self) -> (bytes: [u8; 16])
        ensures
            bytes@ == id_bytes(self.bits),
    {
        bytes_of(self.bits)
    }
}

/// Content identity of a commit.
#[derive(Clone, Copy, Debug, PartialEq, Eq)]
pub struct CommitId {
    pub bytes: [u8; 32],
}

impl CommitId {
    pub fn from_bytes(bytes: [u8; 32]) -> (id: CommitId)
        ensures
            id.bytes == bytes,
    {
        CommitId { bytes }
    }

    pub fn as_bytes(&self) -> (bytes: &[u8; 32])
        ensures
            bytes@ == self.bytes@,
    {
        &self.bytes
    }
}

/// Canonical digest that seals a metadata command.
#[derive(Clone, Copy, Debug, PartialEq, Eq)]
pub struct CommandDigest {
    pub bytes: [u8; 32],
}

impl CommandDigest {
    pub fn from_bytes(bytes: [u8; 32]) -> (id: CommandDigest)
        ensures
            id.bytes == bytes,
    {
        CommandDigest { bytes }
    }

    pub fn as_bytes(&self) -> (bytes: &[u8; 32])
        ensures
            bytes@ == self.bytes@,
    {
        &self.bytes
    }
}

/// A counter that must be positive was given as zero.
#[derive(Clone, Copy, Debug, PartialEq, Eq)]
pub struct ZeroValue {}

/// Positive generation of a path.
#[derive(Clone, Copy, Debug, PartialEq, Eq, PartialOrd, Ord, Hash, Structural)]
pub struct Generation {
    pub value: u64,
}

impl Generation {
    /// Whether the value is positive.
    pub open spec fn wf(self) -> bool {
        self.value != 0
    }

    pub fn new(value: u64) -> (counter: Result<Generation, ZeroValue>)
        ensures
            value != 0 ==> counter == Ok::<Generation, ZeroValue>(Generation { value }),
            value == 0 ==> counter == Err::<Generation, ZeroValue>(ZeroValue {}),
    {
        if value == 0 {
            Err(ZeroValue {})
        } else {
            Ok(Generation { value })
        }
    }

    pub fn get(self) -> (value: u64)
        ensures
            value == self.value,
    {
        self.value
    }
}

/// Positive version of a metadata commit.
#[derive(Clone, Copy, Debug, PartialEq, Eq, PartialOrd, Ord, Hash, Structural)]
pub struct CommitVersion {
    pub value: u64,
}

impl CommitVersion {
    /// Whether the value is positive.
    pub open spec fn wf(self) -> bool {
        self.value != 0
    }

    pub fn new(value: u64) -> (counter: Result<CommitVersion, ZeroValue>)
        ensures
            value != 0 ==> counter == Ok::<CommitVersion, ZeroValue>(CommitVersion { value }),
            value == 0 ==> counter == Err::<CommitVersion, ZeroValue>(ZeroValue {}),
    {
        if value == 0 {
            Err(ZeroValue {})
        } else {
            Ok(CommitVersion { value })
        }
    }

    pub fn get(self) -> (value: u64)
        ensures
            value == self.value,
    {
        self.value
    }
}

/// Positive version at which metadata is read.
#[derive(Clone, Copy, Debug, PartialEq, Eq, PartialOrd, Ord, Hash, Structural)]
pub struct ReadVersion {
    pub value: u64,
}

impl ReadVersion {
    /// Whether the value is positive.
    pub open spec fn wf(self) -> bool {
        self.value != 0
    }

    pub fn new(value: u64) -> (counter: Result<ReadVersion, ZeroValue>)
        ensures
            value != 0 ==> counter == Ok::<ReadVersion, ZeroValue>(ReadVersion { value }),
            value == 0 ==> counter == Err::<ReadVersion, ZeroValue>(ZeroValue {}),
    {
        if value == 0 {
            Err(ZeroValue {})
        } else {
            Ok(ReadVersion { value })
        }
    }

    pub fn get(self) -> (value: u64)
        ensures
            value == self.value,
    {
        self.value
    }
}

/// Positive epoch of a shard owner.
#[derive(Clone, Copy, Debug, PartialEq, Eq, PartialOrd, Ord, Hash, Structural)]
pub struct OwnerEpoch {
    pub value: u64,
}

impl OwnerEpoch {
    /// Whether the value is positive.
    pub open spec fn wf(self) -> bool {
        self.value != 0
    }

    pub fn new(value: u64) -> (counter: Result<OwnerEpoch, ZeroValue>)
        ensures
            value != 0 ==> counter == Ok::<OwnerEpoch, ZeroValue>(OwnerEpoch { value }),
            value == 0 ==> counter == Err::<OwnerEpoch, ZeroValue>(ZeroValue {}),
    {
        if value == 0 {
            Err(ZeroValue {})
        } else {
            Ok(OwnerEpoch { value })
        }
    }

    pub fn get(self) -> (value: u64)
        ensures
            value == self.value,
    {
        self.value
    }
}

/// Positive generation of a shard placement.
#[derive(Clone, Copy, Debug, PartialEq, Eq, PartialOrd, Ord, Hash, Structural)]
pub struct PlacementGeneration {
    pub value: u64,
}

impl PlacementGeneration {
    /// Whether the value is positive.
    pub open spec fn wf(self) -> bool {
        self.value != 0
    }

    pub fn new(value: u64) -> (counter: Result<PlacementGeneration, ZeroValue>)
        ensures
            value != 0 ==> counter == Ok::<PlacementGeneration, ZeroValue>(PlacementGeneration { value }),
            value == 0 ==> counter == Err::<PlacementGeneration, ZeroValue>(ZeroValue {}),
    {
        if value == 0 {
            Err(ZeroValue {})
        } else {
            Ok(PlacementGeneration { value })
        }
    }

    pub fn get(self) -> (value: u64)
        ensures
            value == self.value,
    {
        self.value
    }
}

/// Revision of a workspace.
#[derive(Clone, Copy, Debug, PartialEq, Eq, PartialOrd, Ord, Hash, Structural)]
pub struct WorkspaceRevision {
    pub value: u64,
}

impl WorkspaceRevision {
    pub fn new(value: u64) -> (counter: WorkspaceRevision)
        ensures
            counter.value == value,
    {
        WorkspaceRevision { value }
    }

    pub fn get(self) -> (value: u64)
        ensures
            value == self.value,
    {
        self.value
    }
}

/// Epoch of the references to an artifact revision.
#[derive(Clone, Copy, Debug, PartialEq, Eq, PartialOrd, Ord, Hash, Structural)]
pub struct ReferenceEpoch {
    pub value: u64,
}

impl ReferenceEpoch {
    pub fn new(value: u64) -> (counter: ReferenceEpoch)
        ensures
            counter.value == value,
    {
        ReferenceEpoch { value }
    }

    pub fn get(self) -> (value: u64)
        ensures
            value == self.value,
    {
        self.value
    }
}

/// Lifecycle state of a workspace.
#[derive(Clone, Copy, Debug, PartialEq, Eq, PartialOrd, Ord, Hash, Structural)]
pub enum WorkspaceState {
    Staging,
    Visible,
    Retired,
}

impl WorkspaceState {
    /// The stored byte of each state.
    pub open spec fn spec_tag(self) -> u8 {
        match self {
            WorkspaceState::Staging => 1,
            WorkspaceState::Visible => 2,
            WorkspaceState::Retired => 3,
        }
    }

    /// The state stored as `tag`, if there is one.
    pub open spec fn spec_from_tag(tag: u8) -> Option<WorkspaceState> {
        if tag == 1 {
            Some(WorkspaceState::Staging)
        } else if tag == 2 {
            Some(WorkspaceState::Visible)
        } else if tag == 3 {
            Some(WorkspaceState::Retired)
        } else {
            None
        }
    }

    pub fn tag(self) -> (tag: u8)
        ensures
            tag == self.spec_tag(),
    {
        match self {
            WorkspaceState::Staging => 1,
            WorkspaceState::Visible => 2,
            WorkspaceState::Retired => 3,
        }
    }

    pub fn from_tag(tag: u8) -> (state: Option<WorkspaceState>)
        ensures
            state == WorkspaceState::spec_from_tag(tag),
    {
        match tag {
            1 => Some(WorkspaceState::Staging),
            2 => Some(WorkspaceState::Visible),
            3 => Some(WorkspaceState::Retired),
            _ => None,
        }
    }
}

/// Lifecycle state of an artifact revision.
#[derive(Clone, Copy, Debug, PartialEq, Eq, PartialOrd, Ord, Hash, Structural)]
pub enum RevisionState {
    Available,
    Deleting,
}

impl RevisionState {
    /// The stored byte of each state.
    pub open spec fn spec_tag(self) -> u8 {
        match self {
            RevisionState::Available => 1,
            RevisionState::Deleting => 2,
        }
    }

    /// The state stored as `tag`, if there is one.
    pub open spec fn spec_from_tag(tag: u8) -> Option<RevisionState> {
        if tag == 1 {
            Some(RevisionState::Available)
        } else if tag == 2 {
            Some(RevisionState::Deleting)
        } else {
            None
        }
    }

    pub fn tag(self) -> (tag: u8)
        ensures
            tag == self.spec_tag(),
    {
        match self {
            RevisionState::Available => 1,
            RevisionState::Deleting => 2,
        }
    }

    pub fn from_tag(tag: u8) -> (state: Option<RevisionState>)
        ensures
            state == RevisionState::spec_from_tag(tag),
    {
        match tag {
            1 => Some(RevisionState::Available),
            2 => Some(RevisionState::Deleting),
            _ => None,
        }
    }
}

/// State of a garbage-collection candidate.
#[derive(Clone, Copy, Debug, PartialEq, Eq, PartialOrd, Ord, Hash, Structural)]
pub enum GcClaimState {
    Candidate,
    Claimed,
    Deleting,
    Quarantined,
}

impl GcClaimState {
    /// The stored byte of each state.
    pub open spec fn spec_tag(self) -> u8 {
        match self {
            GcClaimState::Candidate => 1,
            GcClaimState::Claimed => 2,
            GcClaimState::Deleting => 3,
            GcClaimState::Quarantined => 4,
        }
    }

    /// The state stored as `tag`, if there is one.
    pub open spec fn spec_from_tag(tag: u8) -> Option<GcClaimState> {
        if tag == 1 {
            Some(GcClaimState::Candidate)
        } else if tag == 2 {
            Some(GcClaimState::Claimed)
        } else if tag == 3 {
            Some(GcClaimState::Deleting)
        } else if tag == 4 {
            Some(GcClaimState::Quarantined)
        } else {
            None
        }
    }

    pub fn tag(self) -> (tag: u8)
        ensures
            tag == self.spec_tag(),
    {
        match self {
            GcClaimState::Candidate => 1,
            GcClaimState::Claimed => 2,
            GcClaimState::Deleting => 3,
            GcClaimState::Quarantined => 4,
        }
    }

    pub fn from_tag(tag: u8) -> (state: Option<GcClaimState>)
        ensures
            state == GcClaimState::spec_from_tag(tag),
    {
        match tag {
            1 => Some(GcClaimState::Candidate),
            2 => Some(GcClaimState::Claimed),
            3 => Some(GcClaimState::Deleting),
            4 => Some(GcClaimState::Quarantined),
            _ => None,
        }
    }
}

/// Activation state of a root fence.
#[derive(Clone, Copy, Debug, PartialEq, Eq, PartialOrd, Ord, Hash, Structural)]
pub enum RootActivationState {
    Installing,
    Active,
    Retired,
}

impl RootActivationState {
    /// The stored byte of each state.
    pub open spec fn spec_tag(self) -> u8 {
        match self {
            RootActivationState::Installing => 1,
            RootActivationState::Active => 2,
            RootActivationState::Retired => 3,
        }
    }

    /// The state stored as `tag`, if there is one.
    pub open spec fn spec_from_tag(tag: u8) -> Option<RootActivationState> {
        if tag == 1 {
            Some(RootActivationState::Installing)
        } else if tag == 2 {
            Some(RootActivationState::Active)
        } else if tag == 3 {
            Some(RootActivationState::Retired)
        } else {
            None
        }
    }

    pub fn tag(self) -> (tag: u8)
        ensures
            tag == self.spec_tag(),
    {
        match self {
            RootActivationState::Installing => 1,
            RootActivationState::Active => 2,
            RootActivationState::Retired => 3,
        }
    }

    pub fn from_tag(tag: u8) -> (state: Option<RootActivationState>)
        ensures
            state == RootActivationState::spec_from_tag(tag),
    {
        match tag {
            1 => Some(RootActivationState::Installing),
            2 => Some(RootActivationState::Active),
            3 => Some(RootActivationState::Retired),
            _ => None,
        }
    }
}

/// Key family of a metadata row.
#[derive(Clone, Copy, Debug, PartialEq, Eq, PartialOrd, Ord, Hash, Structural)]
pub enum MetadataFamily {
    WorkspaceCurrent,
    PathCurrent,
    PathIndexLocator,
    SecondaryIndex,
    ArtifactRevision,
    ArtifactManifest,
    RevisionRef,
    GcCandidate,
    StagedObject,
    Commit,
    WorkbenchCommitHead,
    Operation,
}

impl MetadataFamily {
    /// The stored byte of each family. That of operations is fixed by rows
    /// that already stand in storage; those of the other families are this
    /// library's own numbering.
    pub open spec fn spec_format_tag(self) -> u8 {
        match self {
            MetadataFamily::WorkspaceCurrent => 1,
            MetadataFamily::PathCurrent => 2,
            MetadataFamily::PathIndexLocator => 3,
            MetadataFamily::SecondaryIndex => 4,
            MetadataFamily::ArtifactRevision => 5,
            MetadataFamily::ArtifactManifest => 6,
            MetadataFamily::RevisionRef => 7,
            MetadataFamily::GcCandidate => 8,
            MetadataFamily::StagedObject => 9,
            MetadataFamily::Commit => 10,
            MetadataFamily::WorkbenchCommitHead => 11,
            MetadataFamily::Operation => 17,
        }
    }

    /// The family stored as `tag`, if there is one.
    pub open spec fn spec_from_format_tag(tag: u8) -> Option<MetadataFamily> {
        if tag == 1 {
            Some(MetadataFamily::WorkspaceCurrent)
        } else if tag == 2 {
            Some(MetadataFamily::PathCurrent)
        } else if tag == 3 {
            Some(MetadataFamily::PathIndexLocator)
        } else if tag == 4 {
            Some(MetadataFamily::SecondaryIndex)
        } else if tag == 5 {
            Some(MetadataFamily::ArtifactRevision)
        } else if tag == 6 {
            Some(MetadataFamily::ArtifactManifest)
        } else if tag == 7 {
            Some(MetadataFamily::RevisionRef)
        } else if tag == 8 {
            Some(MetadataFamily::GcCandidate)
        } else if tag == 9 {
            Some(MetadataFamily::StagedObject)
        } else if tag == 10 {
            Some(MetadataFamily::Commit)
        } else if tag == 11 {
            Some(MetadataFamily::WorkbenchCommitHead)
        } else if tag == 17 {
            Some(MetadataFamily::Operation)
        } else {
            None
        }
    }

    pub fn format_tag(self) -> (tag: u8)
        ensures
            tag == self.spec_format_tag(),
    {
        match self {
            MetadataFamily::WorkspaceCurrent => 1,
            MetadataFamily::PathCurrent => 2,
            MetadataFamily::PathIndexLocator => 3,
            MetadataFamily::SecondaryIndex => 4,
            MetadataFamily::ArtifactRevision => 5,
            MetadataFamily::ArtifactManifest => 6,
            MetadataFamily::RevisionRef => 7,
            MetadataFamily::GcCandidate => 8,
            MetadataFamily::StagedObject => 9,
            MetadataFamily::Commit => 10,
            MetadataFamily::WorkbenchCommitHead => 11,
            MetadataFamily::Operation => 17,
        }
    }

    pub fn from_format_tag(tag: u8) -> (state: Option<MetadataFamily>)
        ensures
            state == MetadataFamily::spec_from_format_tag(tag),
    {
        match tag {
            1 => Some(MetadataFamily::WorkspaceCurrent),
            2 => Some(MetadataFamily::PathCurrent),
            3 => Some(MetadataFamily::PathIndexLocator),
            4 => Some(MetadataFamily::SecondaryIndex),
            5 => Some(MetadataFamily::ArtifactRevision),
            6 => Some(MetadataFamily::ArtifactManifest),
            7 => Some(MetadataFamily::RevisionRef),
            8 => Some(MetadataFamily::GcCandidate),
            9 => Some(MetadataFamily::StagedObject),
            10 => Some(MetadataFamily::Commit),
            11 => Some(MetadataFamily::WorkbenchCommitHead),
            17 => Some(MetadataFamily::Operation),
            _ => None,
        }
    }
}

} // verus!
