//! Metadata commands as recovery material carries them.

use crate::be::{be_bytes, copy_bytes, put_be};
use crate::ids::{CommandDigest, LogicalShardId, MetadataFamily, ObjectNamespaceId, OwnerEpoch,
    PlacementGeneration, ReadVersion, RequestId, RootActivationState, RootId};
use crate::publication_records::{first_fault, optional_bytes, optional_sized_bytes};
use crate::wire::{check, fail, lemma_concat_assoc, put_byte, put_sized, sized, start, step_bytes,
    step_u32, step_u8, stepped, Parse, Reader, WireError};
use vstd::prelude::*;

verus! {

/// Identity of the metadata schema that commands are written for.
pub const SCHEMA_ID: &'static str = "nokv_workspace";

/// Most items of one kind in a command.
pub const MAX_ITEMS: usize = 256;

/// Most bytes of any one recovery value.
pub const MAX_RECOVERY_BYTES: usize = 67_108_864;

/// Strict recovery-material encode, decode or verification failure.
#[allow(inconsistent_fields)]
#[derive(Clone, Copy, Debug, PartialEq, Eq)]
pub enum RecoveryCodecError {
    UnsupportedVersion { actual: u8, expected: u8 },
    UnknownDiscriminant { type_label: &'static str, value: u8 },
    ZeroScalar { field: &'static str },
    InvalidValue { field: &'static str },
    LengthOverflow { field: &'static str, length: usize },
    LengthBound { field: &'static str, length: usize, max: usize },
    Truncated { field: &'static str, needed: usize, remaining: usize },
    TrailingBytes { count: usize },
    ChainDigestMismatch,
    EmptySegment,
    DuplicateRecoveryLsn { lsn: u64 },
    RecoveryLsnGap { expected: u64, actual: u64 },
    RecoveryLsnRegression { previous: u64, actual: u64 },
    UnexpectedLogicalShard { expected: LogicalShardId, actual: LogicalShardId },
    SegmentHeaderMismatch,
    SegmentDigestMismatch,
}

impl WireError for RecoveryCodecError {
    open spec fn spec_truncated(field: &'static str, needed: usize, remaining: usize) -> Self {
        RecoveryCodecError::Truncated { field, needed, remaining }
    }

    open spec fn spec_trailing(count: usize) -> Self {
        RecoveryCodecError::TrailingBytes { count }
    }

    open spec fn spec_length_limit(field: &'static str, length: usize, max: usize) -> Self {
        RecoveryCodecError::LengthBound { field, length, max }
    }

    open spec fn spec_optional_tag(field: &'static str, value: u8) -> Self {
        RecoveryCodecError::UnknownDiscriminant { type_label: field, value }
    }

    open spec fn spec_unknown_discriminant(type_label: &'static str, value: u8) -> Self {
        RecoveryCodecError::UnknownDiscriminant { type_label, value }
    }

    open spec fn spec_zero_scalar(field: &'static str) -> Self {
        RecoveryCodecError::ZeroScalar { field }
    }

    fn truncated(field: &'static str, needed: usize, remaining: usize) -> (error: Self) {
        RecoveryCodecError::Truncated { field, needed, remaining }
    }

    fn trailing(count: usize) -> (error: Self) {
        RecoveryCodecError::TrailingBytes { count }
    }

    fn length_limit(field: &'static str, length: usize, max: usize) -> (error: Self) {
        RecoveryCodecError::LengthBound { field, length, max }
    }

    fn optional_tag(field: &'static str, value: u8) -> (error: Self) {
        RecoveryCodecError::UnknownDiscriminant { type_label: field, value }
    }

    fn unknown_discriminant(type_label: &'static str, value: u8) -> (error: Self) {
        RecoveryCodecError::UnknownDiscriminant { type_label, value }
    }

    fn zero_scalar(field: &'static str) -> (error: Self) {
        RecoveryCodecError::ZeroScalar { field }
    }
}

/// A parse state of recovery material.
pub type RecoveryParse = Parse<RecoveryCodecError>;

/// A byte string too long for its four-byte length.
pub open spec fn overflow_fault(field: &'static str, length: nat) -> Option<RecoveryCodecError> {
    if length > u32::MAX {
        Some(RecoveryCodecError::LengthOverflow { field, length: length as usize })
    } else {
        None
    }
}

/// Appends a byte string with its four-byte length.
pub fn put_field(out: &mut Vec<u8>, field: &'static str, bytes: &[u8]) -> (result: Result<
    (),
    RecoveryCodecError,
>)
    ensures
        match result {
            Ok(_) => overflow_fault(field, bytes@.len()) is None && final(out)@ == old(out)@
                + sized(bytes@),
            Err(error) => overflow_fault(field, bytes@.len()) == Some(error),
        },
{
    if bytes.len() > u32::MAX as usize {
        return Err(RecoveryCodecError::LengthOverflow { field, length: bytes.len() });
    }
    put_sized(out, bytes);
    Ok(())
}

/// A family byte.
pub open spec fn step_family(st: RecoveryParse, field: &'static str) -> (
    MetadataFamily,
    RecoveryParse,
) {
    let (tag, s1) = step_u8(st, field);
    let family = MetadataFamily::spec_from_format_tag(tag);
    (
        family.unwrap(),
        check(
            s1,
            family is Some,
            RecoveryCodecError::UnknownDiscriminant { type_label: "MetadataFamily", value: tag },
        ),
    )
}

/// Reads a family byte.
pub fn read_family(reader: &mut Reader, field: &'static str) -> (result: Result<
    MetadataFamily,
    RecoveryCodecError,
>)
    requires
        old(reader).wf(),
    ensures
        final(reader).wf(),
        match result {
            Ok(value) => {
                &&& step_family(start(old(reader).rest()), field).0 == value
                &&& stepped(step_family(start(old(reader).rest()), field).1, *final(reader))
            },
            Err(error) => step_family(start(old(reader).rest()), field).1.err == Some(error),
        },
{
    let tag: u8 = reader.u8(field)?;
    match MetadataFamily::from_format_tag(tag) {
        None => Err(
            RecoveryCodecError::UnknownDiscriminant { type_label: "MetadataFamily", value: tag },
        ),
        Some(family) => Ok(family),
    }
}

proof fn lemma_family_back(family: MetadataFamily, tail: Seq<u8>, field: &'static str)
    ensures
        step_family(start(seq![family.spec_format_tag()] + tail), field) == (
            family,
            start::<RecoveryCodecError>(tail),
        ),
{
    crate::wire::lemma_u8_back::<RecoveryCodecError>(family.spec_format_tag(), tail, field);
}

proof fn lemma_family_split(st: RecoveryParse, field: &'static str)
    ensures
        step_family(st, field).1.err is None ==> {
            let (family, next) = step_family(st, field);
            st.err is None && st.rest == seq![family.spec_format_tag()] + next.rest
        },
{
    crate::wire::lemma_u8_split(st, field);
}

/// One kind of item that a command lists.
pub trait CommandItem: View + Sized {
    /// The stored form of an item.
    spec fn item_bytes(item: Self::V) -> Seq<u8>;

    /// Why an item cannot be stored, if it cannot.
    spec fn item_fault(item: Self::V) -> Option<RecoveryCodecError>;

    /// Every byte string of the item is within the limit of recovery material.
    spec fn item_bounded(item: Self::V) -> bool;

    /// Reads one item.
    spec fn step_item(st: RecoveryParse) -> (Self::V, RecoveryParse);

    fn put_item(&self, out: &mut Vec<u8>) -> (result: Result<(), RecoveryCodecError>)
        ensures
            match result {
                Ok(_) => Self::item_fault(self@) is None && final(out)@ == old(out)@
                    + Self::item_bytes(self@),
                Err(error) => Self::item_fault(self@) == Some(error),
            },
    ;

    fn read_item(reader: &mut Reader) -> (result: Result<Self, RecoveryCodecError>)
        requires
            old(reader).wf(),
        ensures
            final(reader).wf(),
            match result {
                Ok(value) => {
                    &&& Self::step_item(start(old(reader).rest())).0 == value@
                    &&& stepped(Self::step_item(start(old(reader).rest())).1, *final(reader))
                },
                Err(error) => Self::step_item(start(old(reader).rest())).1.err == Some(error),
            },
    ;

    proof fn item_back(item: Self::V, tail: Seq<u8>)
        requires
            Self::item_bounded(item),
        ensures
            Self::item_fault(item) is None,
            Self::step_item(start(Self::item_bytes(item) + tail)) == (
                item,
                start::<RecoveryCodecError>(tail),
            ),
    ;

    proof fn item_split(st: RecoveryParse)
        ensures
            Self::step_item(st).1.err is None ==> {
                let (item, next) = Self::step_item(st);
                &&& st.err is None
                &&& Self::item_bounded(item)
                &&& st.rest == Self::item_bytes(item) + next.rest
            },
            st.err is Some ==> Self::step_item(st).1 == st,
    ;

    proof fn item_fits(item: Self::V)
        ensures
            Self::item_bytes(item).len() <= MAX_RECOVERY_BYTES ==> Self::item_bounded(item),
    ;
}

/// The stored forms of items, in order.
pub open spec fn items_bytes<T: CommandItem>(items: Seq<T::V>) -> Seq<u8>
    decreases items.len(),
{
    if items.len() == 0 {
        Seq::empty()
    } else {
        T::item_bytes(items[0]) + items_bytes::<T>(items.skip(1))
    }
}

/// The fault of the first item that has one.
pub open spec fn items_fault<T: CommandItem>(items: Seq<T::V>) -> Option<RecoveryCodecError>
    decreases items.len(),
{
    if items.len() == 0 {
        None
    } else {
        first_fault(T::item_fault(items[0]), items_fault::<T>(items.skip(1)))
    }
}

/// A counted list as stored.
pub open spec fn list_bytes<T: CommandItem>(items: Seq<T::V>) -> Seq<u8> {
    be_bytes(items.len(), 4) + items_bytes::<T>(items)
}

/// Why a counted list cannot be stored, if it cannot.
pub open spec fn list_fault<T: CommandItem>(field: &'static str, items: Seq<T::V>) -> Option<
    RecoveryCodecError,
> {
    if items.len() > MAX_ITEMS {
        Some(
            RecoveryCodecError::LengthBound { field, length: items.len() as usize, max: MAX_ITEMS },
        )
    } else {
        items_fault::<T>(items)
    }
}

/// `count` items in a row.
pub open spec fn step_items<T: CommandItem>(st: RecoveryParse, count: nat) -> (
    Seq<T::V>,
    RecoveryParse,
)
    decreases count,
{
    if count == 0 || st.err is Some {
        (Seq::empty(), st)
    } else {
        let (item, s1) = T::step_item(st);
        let (rest, s2) = step_items::<T>(s1, (count - 1) as nat);
        (seq![item] + rest, s2)
    }
}

/// A counted list.
pub open spec fn step_list<T: CommandItem>(st: RecoveryParse, field: &'static str) -> (
    Seq<T::V>,
    RecoveryParse,
) {
    let (count, s1) = step_u32(st, field);
    let s2 = check(
        s1,
        count <= MAX_ITEMS,
        RecoveryCodecError::LengthBound { field, length: count as usize, max: MAX_ITEMS },
    );
    step_items::<T>(s2, count as nat)
}

/// A list of items seen through their views.
pub open spec fn item_views<T: View>(items: Seq<T>) -> Seq<T::V> {
    items.map_values(|item: T| item@)
}

proof fn lemma_items_bytes_split<T: CommandItem>(items: Seq<T::V>, i: int)
    requires
        0 <= i < items.len(),
    ensures
        items_bytes::<T>(items.take(i + 1)) == items_bytes::<T>(items.take(i)) + T::item_bytes(
            items[i],
        ),
    decreases i,
{
    let part = items.take(i + 1);
    assert(part[0] == items[0]);
    if i == 0 {
        assert(items_bytes::<T>(items.take(0)) == Seq::<u8>::empty());
        assert(items_bytes::<T>(part.skip(1)) == Seq::<u8>::empty());
        assert(T::item_bytes(items[0]) + Seq::<u8>::empty() =~= Seq::<u8>::empty() + T::item_bytes(
            items[0],
        ));
    } else {
        let before = items.take(i);
        assert(before[0] == items[0]);
        lemma_items_bytes_split::<T>(items.skip(1), i - 1);
        assert(part.skip(1) =~= items.skip(1).take(i));
        assert(before.skip(1) =~= items.skip(1).take(i - 1));
        assert(items.skip(1)[i - 1] == items[i]);
        lemma_concat_assoc(
            T::item_bytes(items[0]),
            items_bytes::<T>(before.skip(1)),
            T::item_bytes(items[i]),
        );
    }
}

proof fn lemma_items_fault_split<T: CommandItem>(items: Seq<T::V>, i: int)
    requires
        0 <= i < items.len(),
    ensures
        items_fault::<T>(items.take(i + 1)) == first_fault(
            items_fault::<T>(items.take(i)),
            T::item_fault(items[i]),
        ),
    decreases i,
{
    let part = items.take(i + 1);
    assert(part[0] == items[0]);
    if i == 0 {
        assert(items_fault::<T>(items.take(0)) is None);
        assert(items_fault::<T>(part.skip(1)) is None);
    } else {
        let before = items.take(i);
        assert(before[0] == items[0]);
        lemma_items_fault_split::<T>(items.skip(1), i - 1);
        assert(part.skip(1) =~= items.skip(1).take(i));
        assert(before.skip(1) =~= items.skip(1).take(i - 1));
        assert(items.skip(1)[i - 1] == items[i]);
    }
}

proof fn lemma_items_fault_prefix<T: CommandItem>(items: Seq<T::V>, i: int)
    requires
        0 <= i <= items.len(),
        items_fault::<T>(items.take(i)) is Some,
    ensures
        items_fault::<T>(items) == items_fault::<T>(items.take(i)),
    decreases items.len(),
{
    if i > 0 {
        assert(items.take(i)[0] == items[0]);
        if T::item_fault(items[0]) is None {
            assert(items.take(i).skip(1) =~= items.skip(1).take(i - 1));
            lemma_items_fault_prefix::<T>(items.skip(1), i - 1);
        }
    }
}

/// Appends a counted list.
pub fn put_list<T: CommandItem>(out: &mut Vec<u8>, field: &'static str, items: &Vec<T>) -> (result:
    Result<(), RecoveryCodecError>)
    ensures
        match result {
            Ok(_) => list_fault::<T>(field, item_views(items@)) is None && final(out)@
                == old(out)@ + list_bytes::<T>(item_views(items@)),
            Err(error) => list_fault::<T>(field, item_views(items@)) == Some(error),
        },
{
    let ghost views = item_views(items@);
    let ghost before = out@;
    if items.len() > MAX_ITEMS {
        return Err(
            RecoveryCodecError::LengthBound { field, length: items.len(), max: MAX_ITEMS },
        );
    }
    put_be(out, items.len() as u128, 4);
    let ghost header = out@;
    let mut i: usize = 0;
    assert(items_bytes::<T>(views.take(0)) == Seq::<u8>::empty());
    assert(items_fault::<T>(views.take(0)) is None);
    assert(header + Seq::<u8>::empty() =~= header);
    while i < items.len()
        invariant
            i <= views.len(),
            views == item_views(items@),
            views.len() <= MAX_ITEMS,
            items_fault::<T>(views.take(i as int)) is None,
            out@ == header + items_bytes::<T>(views.take(i as int)),
        decreases views.len() - i,
    {
        let ghost here = out@;
        let result = items[i].put_item(out);
        proof {
            lemma_items_fault_split::<T>(views, i as int);
            lemma_items_bytes_split::<T>(views, i as int);
            assert(views[i as int] == items@[i as int]@);
        }
        match result {
            Ok(_) => {},
            Err(error) => {
                proof {
                    lemma_items_fault_prefix::<T>(views, i + 1);
                }
                return Err(error);
            },
        }
        proof {
            lemma_concat_assoc(
                header,
                items_bytes::<T>(views.take(i as int)),
                T::item_bytes(views[i as int]),
            );
        }
        i = i + 1;
    }
    assert(views.take(i as int) =~= views);
    proof {
        lemma_concat_assoc(before, be_bytes(views.len(), 4), items_bytes::<T>(views));
    }
    Ok(())
}

/// Reads a counted list.
pub fn read_list<T: CommandItem>(reader: &mut Reader, field: &'static str) -> (result: Result<
    Vec<T>,
    RecoveryCodecError,
>)
    requires
        old(reader).wf(),
    ensures
        final(reader).wf(),
        match result {
            Ok(items) => {
                &&& step_list::<T>(start(old(reader).rest()), field).0 == item_views(items@)
                &&& stepped(step_list::<T>(start(old(reader).rest()), field).1, *final(reader))
            },
            Err(error) => step_list::<T>(start(old(reader).rest()), field).1.err == Some(error),
        },
{
    let count: usize = reader.u32(field)? as usize;
    if count > MAX_ITEMS {
        return Err(RecoveryCodecError::LengthBound { field, length: count, max: MAX_ITEMS });
    }
    let ghost all = step_items::<T>(start(reader.rest()), count as nat);
    let mut items: Vec<T> = Vec::new();
    let mut i: usize = 0;
    assert(item_views(items@) + all.0 =~= all.0);
    assert(all == step_list::<T>(start(old(reader).rest()), field));
    while i < count
        invariant
            i <= count,
            reader.wf(),
            items@.len() == i,
            all.0 == item_views(items@) + step_items::<T>(
                start(reader.rest()),
                (count - i) as nat,
            ).0,
            all.1 == step_items::<T>(start(reader.rest()), (count - i) as nat).1,
            all == step_list::<T>(start(old(reader).rest()), field),
        decreases count - i,
    {
        let ghost here = start::<RecoveryCodecError>(reader.rest());
        let ghost had = items@;
        proof {
            let (item, s1) = T::step_item(here);
            reveal_with_fuel(step_items, 2);
            T::item_split(s1);
        }
        let item: T = T::read_item(reader)?;
        let ghost view = item@;
        items.push(item);
        proof {
            let rest = step_items::<T>(start(reader.rest()), (count - i - 1) as nat);
            assert(item_views(items@) =~= item_views(had).push(view));
            assert(item_views(had) + (seq![view] + rest.0) =~= item_views(items@) + rest.0);
        }
        i = i + 1;
    }
    assert(item_views(items@) + Seq::<T::V>::empty() =~= item_views(items@));
    Ok(items)
}

/// Every item is within its limits.
pub open spec fn items_bounded<T: CommandItem>(items: Seq<T::V>) -> bool {
    forall|i: int| 0 <= i < items.len() ==> T::item_bounded(#[trigger] items[i])
}

proof fn lemma_items_back<T: CommandItem>(items: Seq<T::V>, tail: Seq<u8>)
    requires
        items_bounded::<T>(items),
    ensures
        items_fault::<T>(items) is None,
        step_items::<T>(start(items_bytes::<T>(items) + tail), items.len()) == (
            items,
            start::<RecoveryCodecError>(tail),
        ),
    decreases items.len(),
{
    if items.len() == 0 {
        assert(Seq::<u8>::empty() + tail =~= tail);
        assert(items =~= Seq::empty());
    } else {
        let rest = items.skip(1);
        lemma_concat_assoc(T::item_bytes(items[0]), items_bytes::<T>(rest), tail);
        T::item_back(items[0], items_bytes::<T>(rest) + tail);
        assert forall|i: int| 0 <= i < rest.len() implies T::item_bounded(#[trigger] rest[i]) by {
            assert(rest[i] == items[i + 1]);
        }
        lemma_items_back::<T>(rest, tail);
        assert(seq![items[0]] + rest =~= items);
    }
}

/// Items whose stored forms fit together are each within their limits.
pub proof fn lemma_items_fit<T: CommandItem>(items: Seq<T::V>)
    ensures
        items_bytes::<T>(items).len() <= MAX_RECOVERY_BYTES ==> items_bounded::<T>(items),
    decreases items.len(),
{
    if items.len() > 0 {
        let rest = items.skip(1);
        T::item_fits(items[0]);
        lemma_items_fit::<T>(rest);
        assert forall|i: int|
            0 <= i < items.len() && items_bytes::<T>(items).len()
                <= MAX_RECOVERY_BYTES implies T::item_bounded(#[trigger] items[i]) by {
            if i > 0 {
                assert(items[i] == rest[i - 1]);
            }
        }
    }
}

/// A counted list of bounded items is read back as it was written.
pub proof fn lemma_list_back<T: CommandItem>(
    items: Seq<T::V>,
    tail: Seq<u8>,
    field: &'static str,
)
    requires
        items_bounded::<T>(items),
        items.len() <= MAX_ITEMS,
    ensures
        list_fault::<T>(field, items) is None,
        step_list::<T>(start(list_bytes::<T>(items) + tail), field) == (
            items,
            start::<RecoveryCodecError>(tail),
        ),
{
    lemma_concat_assoc(be_bytes(items.len(), 4), items_bytes::<T>(items), tail);
    crate::wire::lemma_u32_back::<RecoveryCodecError>(
        items.len() as u32,
        items_bytes::<T>(items) + tail,
        field,
    );
    lemma_items_back::<T>(items, tail);
}

proof fn lemma_items_split<T: CommandItem>(st: RecoveryParse, count: nat)
    ensures
        step_items::<T>(st, count).1.err is None ==> {
            let (items, next) = step_items::<T>(st, count);
            &&& st.err is None
            &&& items.len() == count
            &&& items_bounded::<T>(items)
            &&& st.rest == items_bytes::<T>(items) + next.rest
        },
        st.err is Some ==> step_items::<T>(st, count).1 == st,
    decreases count,
{
    let (items, next) = step_items::<T>(st, count);
    if count == 0 {
        assert(Seq::<u8>::empty() + next.rest =~= next.rest);
    } else if st.err is None {
        let (first, s1) = T::step_item(st);
        let (rest, s2) = step_items::<T>(s1, (count - 1) as nat);
        lemma_items_split::<T>(s1, (count - 1) as nat);
        T::item_split(st);
        if next.err is None {
            assert(items =~= seq![first] + rest);
            assert(items.skip(1) =~= rest);
            lemma_concat_assoc(T::item_bytes(first), items_bytes::<T>(rest), next.rest);
            assert forall|i: int| 0 <= i < items.len() implies T::item_bounded(
                #[trigger] items[i],
            ) by {
                if i > 0 {
                    assert(items[i] == rest[i - 1]);
                }
            }
        }
    }
}

/// An accepted counted list is the stored form of bounded items.
pub proof fn lemma_list_split<T: CommandItem>(st: RecoveryParse, field: &'static str)
    ensures
        step_list::<T>(st, field).1.err is None ==> {
            let (items, next) = step_list::<T>(st, field);
            &&& st.err is None
            &&& items.len() <= MAX_ITEMS
            &&& items_bounded::<T>(items)
            &&& st.rest == list_bytes::<T>(items) + next.rest
        },
        st.err is Some ==> step_list::<T>(st, field).1 == st,
{
    let (count, s1) = step_u32(st, field);
    let s2 = check(
        s1,
        count <= MAX_ITEMS,
        RecoveryCodecError::LengthBound { field, length: count as usize, max: MAX_ITEMS },
    );
    let (items, next) = step_items::<T>(s2, count as nat);
    crate::wire::lemma_u32_split(st, field);
    lemma_items_split::<T>(s2, count as nat);
    if next.err is None {
        lemma_concat_assoc(be_bytes(count as nat, 4), items_bytes::<T>(items), next.rest);
    }
}

/// What a command expects of the store.
#[derive(Clone, Debug, PartialEq, Eq)]
pub enum CommandPredicate {
    /// The row under `key` is exactly `expected`; `None` says that it is absent.
    Value { family: MetadataFamily, key: Vec<u8>, expected: Option<Vec<u8>> },
    /// No row stands under `prefix`.
    PrefixEmpty { family: MetadataFamily, prefix: Vec<u8> },
}

/// A predicate with its bytes as sequences.
#[verifier::ext_equal]
pub enum PredicateView {
    Value { family: MetadataFamily, key: Seq<u8>, expected: Option<Seq<u8>> },
    PrefixEmpty { family: MetadataFamily, prefix: Seq<u8> },
}

impl View for CommandPredicate {
    type V = PredicateView;

    open spec fn view(&self) -> PredicateView {
        match self {
            CommandPredicate::Value { family, key, expected } => PredicateView::Value {
                family: *family,
                key: key@,
                expected: optional_bytes(*expected),
            },
            CommandPredicate::PrefixEmpty { family, prefix } => PredicateView::PrefixEmpty {
                family: *family,
                prefix: prefix@,
            },
        }
    }
}

/// An optional expected value: a tag, then the bytes.
pub open spec fn step_expected(st: RecoveryParse) -> (Option<Seq<u8>>, RecoveryParse) {
    let (tag, s1) = step_u8(st, "predicate_value_tag");
    let s2 = check(
        s1,
        tag <= 1,
        RecoveryCodecError::UnknownDiscriminant { type_label: "predicate_value_tag", value: tag },
    );
    if s2.err is None && tag == 1 {
        let (bytes, s3) = step_bytes(s2, "predicate_value", MAX_RECOVERY_BYTES);
        (Some(bytes), s3)
    } else {
        (None, s2)
    }
}

fn read_expected(reader: &mut Reader) -> (result: Result<Option<Vec<u8>>, RecoveryCodecError>)
    requires
        old(reader).wf(),
    ensures
        final(reader).wf(),
        match result {
            Ok(value) => {
                &&& step_expected(start(old(reader).rest())).0 == optional_bytes(value)
                &&& stepped(step_expected(start(old(reader).rest())).1, *final(reader))
            },
            Err(error) => step_expected(start(old(reader).rest())).1.err == Some(error),
        },
{
    let tag: u8 = reader.u8("predicate_value_tag")?;
    if tag == 0 {
        Ok(None)
    } else if tag == 1 {
        let bytes: &[u8] = reader.bytes("predicate_value", MAX_RECOVERY_BYTES)?;
        Ok(Some(copy_bytes(bytes)))
    } else {
        Err(
            RecoveryCodecError::UnknownDiscriminant {
                type_label: "predicate_value_tag",
                value: tag,
            },
        )
    }
}

proof fn lemma_expected_back(expected: Option<Seq<u8>>, tail: Seq<u8>)
    requires
        expected is Some ==> expected.unwrap().len() <= MAX_RECOVERY_BYTES,
    ensures
        step_expected(start(optional_sized_bytes(expected) + tail)) == (
            expected,
            start::<RecoveryCodecError>(tail),
        ),
{
    broadcast use crate::wire::group_read_back;

}

proof fn lemma_expected_split(st: RecoveryParse)
    ensures
        step_expected(st).1.err is None ==> {
            let (expected, next) = step_expected(st);
            &&& st.err is None
            &&& expected is Some ==> expected.unwrap().len() <= MAX_RECOVERY_BYTES
            &&& st.rest == optional_sized_bytes(expected) + next.rest
        },
{
    broadcast use crate::wire::group_split, crate::wire::lemma_concat_assoc;

}

impl CommandItem for CommandPredicate {
    open spec fn item_bytes(item: PredicateView) -> Seq<u8> {
        match item {
            PredicateView::Value { family, key, expected } => seq![1u8]
                + seq![family.spec_format_tag()] + sized(key) + optional_sized_bytes(expected),
            PredicateView::PrefixEmpty { family, prefix } => seq![2u8]
                + seq![family.spec_format_tag()] + sized(prefix),
        }
    }

    open spec fn item_fault(item: PredicateView) -> Option<RecoveryCodecError> {
        match item {
            PredicateView::Value { family, key, expected } => first_fault(
                overflow_fault("predicate_key", key.len()),
                match expected {
                    None => None,
                    Some(value) => overflow_fault("predicate_value", value.len()),
                },
            ),
            PredicateView::PrefixEmpty { family, prefix } => overflow_fault(
                "predicate_prefix",
                prefix.len(),
            ),
        }
    }

    open spec fn item_bounded(item: PredicateView) -> bool {
        match item {
            PredicateView::Value { family, key, expected } => key.len() <= MAX_RECOVERY_BYTES && (
            expected is Some ==> expected.unwrap().len() <= MAX_RECOVERY_BYTES),
            PredicateView::PrefixEmpty { family, prefix } => prefix.len() <= MAX_RECOVERY_BYTES,
        }
    }

    open spec fn step_item(st: RecoveryParse) -> (PredicateView, RecoveryParse) {
        let (tag, s1) = step_u8(st, "predicate_kind");
        if s1.err is None && tag == 1 {
            let (family, s2) = step_family(s1, "predicate_family");
            let (key, s3) = step_bytes(s2, "predicate_key", MAX_RECOVERY_BYTES);
            let (expected, s4) = step_expected(s3);
            (PredicateView::Value { family, key, expected }, s4)
        } else {
            let (family, s2) = step_family(
                check(
                    s1,
                    tag == 2,
                    RecoveryCodecError::UnknownDiscriminant {
                        type_label: "CommandPredicate",
                        value: tag,
                    },
                ),
                "predicate_family",
            );
            let (prefix, s3) = step_bytes(s2, "predicate_prefix", MAX_RECOVERY_BYTES);
            (PredicateView::PrefixEmpty { family, prefix }, s3)
        }
    }

    fn put_item(&self, out: &mut Vec<u8>) -> (result: Result<(), RecoveryCodecError>) {
        broadcast use crate::wire::lemma_concat_assoc;

        match self {
            CommandPredicate::Value { family, key, expected } => {
                put_byte(out, 1);
                put_byte(out, family.format_tag());
                put_field(out, "predicate_key", key.as_slice())?;
                match expected {
                    None => {
                        put_byte(out, 0);
                    },
                    Some(value) => {
                        put_byte(out, 1);
                        put_field(out, "predicate_value", value.as_slice())?;
                    },
                }
            },
            CommandPredicate::PrefixEmpty { family, prefix } => {
                put_byte(out, 2);
                put_byte(out, family.format_tag());
                put_field(out, "predicate_prefix", prefix.as_slice())?;
            },
        }
        Ok(())
    }

    fn read_item(reader: &mut Reader) -> (result: Result<CommandPredicate, RecoveryCodecError>) {
        let tag: u8 = reader.u8("predicate_kind")?;
        if tag == 1 {
            let family: MetadataFamily = read_family(reader, "predicate_family")?;
            let key: &[u8] = reader.bytes("predicate_key", MAX_RECOVERY_BYTES)?;
            let key: Vec<u8> = copy_bytes(key);
            let expected: Option<Vec<u8>> = read_expected(reader)?;
            Ok(CommandPredicate::Value { family, key, expected })
        } else if tag == 2 {
            let family: MetadataFamily = read_family(reader, "predicate_family")?;
            let prefix: &[u8] = reader.bytes("predicate_prefix", MAX_RECOVERY_BYTES)?;
            Ok(CommandPredicate::PrefixEmpty { family, prefix: copy_bytes(prefix) })
        } else {
            Err(
                RecoveryCodecError::UnknownDiscriminant {
                    type_label: "CommandPredicate",
                    value: tag,
                },
            )
        }
    }

    proof fn item_back(item: PredicateView, tail: Seq<u8>) {
        broadcast use crate::wire::group_read_back;

        match item {
            PredicateView::Value { family, key, expected } => {
                let t = sized(key) + (optional_sized_bytes(expected) + tail);
                lemma_family_back(family, t, "predicate_family");
                lemma_expected_back(expected, tail);
            },
            PredicateView::PrefixEmpty { family, prefix } => {
                lemma_family_back(family, sized(prefix) + tail, "predicate_family");
            },
        }
    }

    proof fn item_split(st: RecoveryParse) {
        broadcast use crate::wire::group_split, crate::wire::lemma_concat_assoc;

        let (tag, s1) = step_u8(st, "predicate_kind");
        if s1.err is None && tag == 1 {
            let (family, s2) = step_family(s1, "predicate_family");
            let (key, s3) = step_bytes(s2, "predicate_key", MAX_RECOVERY_BYTES);
            lemma_family_split(s1, "predicate_family");
            lemma_expected_split(s3);
        } else {
            let s0 = check(
                s1,
                tag == 2,
                RecoveryCodecError::UnknownDiscriminant {
                    type_label: "CommandPredicate",
                    value: tag,
                },
            );
            lemma_family_split(s0, "predicate_family");
        }
    }

    proof fn item_fits(item: PredicateView) {
    }
}

/// What a command changes.
#[derive(Clone, Debug, PartialEq, Eq)]
pub enum CommandMutation {
    Put { family: MetadataFamily, key: Vec<u8>, value: Vec<u8> },
    Delete { family: MetadataFamily, key: Vec<u8> },
}

/// A mutation with its bytes as sequences.
#[verifier::ext_equal]
pub enum MutationView {
    Put { family: MetadataFamily, key: Seq<u8>, value: Seq<u8> },
    Delete { family: MetadataFamily, key: Seq<u8> },
}

impl View for CommandMutation {
    type V = MutationView;

    open spec fn view(&self) -> MutationView {
        match self {
            CommandMutation::Put { family, key, value } => MutationView::Put {
                family: *family,
                key: key@,
                value: value@,
            },
            CommandMutation::Delete { family, key } => MutationView::Delete {
                family: *family,
                key: key@,
            },
        }
    }
}

impl CommandItem for CommandMutation {
    open spec fn item_bytes(item: MutationView) -> Seq<u8> {
        match item {
            MutationView::Put { family, key, value } => seq![1u8] + seq![family.spec_format_tag()]
                + sized(key) + sized(value),
            MutationView::Delete { family, key } => seq![2u8] + seq![family.spec_format_tag()]
                + sized(key),
        }
    }

    open spec fn item_fault(item: MutationView) -> Option<RecoveryCodecError> {
        match item {
            MutationView::Put { family, key, value } => first_fault(
                overflow_fault("mutation_key", key.len()),
                overflow_fault("mutation_value", value.len()),
            ),
            MutationView::Delete { family, key } => overflow_fault("mutation_key", key.len()),
        }
    }

    open spec fn item_bounded(item: MutationView) -> bool {
        match item {
            MutationView::Put { family, key, value } => key.len() <= MAX_RECOVERY_BYTES
                && value.len() <= MAX_RECOVERY_BYTES,
            MutationView::Delete { family, key } => key.len() <= MAX_RECOVERY_BYTES,
        }
    }

    open spec fn step_item(st: RecoveryParse) -> (MutationView, RecoveryParse) {
        let (tag, s1) = step_u8(st, "command_mutation_kind");
        let s2 = check(
            s1,
            1 <= tag <= 2,
            RecoveryCodecError::UnknownDiscriminant { type_label: "CommandMutation", value: tag },
        );
        let (family, s3) = step_family(s2, "mutation_family");
        let (key, s4) = step_bytes(s3, "mutation_key", MAX_RECOVERY_BYTES);
        if s4.err is None && tag == 1 {
            let (value, s5) = step_bytes(s4, "mutation_value", MAX_RECOVERY_BYTES);
            (MutationView::Put { family, key, value }, s5)
        } else {
            (MutationView::Delete { family, key }, s4)
        }
    }

    fn put_item(&self, out: &mut Vec<u8>) -> (result: Result<(), RecoveryCodecError>) {
        broadcast use crate::wire::lemma_concat_assoc;

        match self {
            CommandMutation::Put { family, key, value } => {
                put_byte(out, 1);
                put_byte(out, family.format_tag());
                put_field(out, "mutation_key", key.as_slice())?;
                put_field(out, "mutation_value", value.as_slice())?;
            },
            CommandMutation::Delete { family, key } => {
                put_byte(out, 2);
                put_byte(out, family.format_tag());
                put_field(out, "mutation_key", key.as_slice())?;
            },
        }
        Ok(())
    }

    fn read_item(reader: &mut Reader) -> (result: Result<CommandMutation, RecoveryCodecError>) {
        let tag: u8 = reader.u8("command_mutation_kind")?;
        if tag != 1 && tag != 2 {
            return Err(
                RecoveryCodecError::UnknownDiscriminant {
                    type_label: "CommandMutation",
                    value: tag,
                },
            );
        }
        let family: MetadataFamily = read_family(reader, "mutation_family")?;
        let key: &[u8] = reader.bytes("mutation_key", MAX_RECOVERY_BYTES)?;
        let key: Vec<u8> = copy_bytes(key);
        if tag == 1 {
            let value: &[u8] = reader.bytes("mutation_value", MAX_RECOVERY_BYTES)?;
            Ok(CommandMutation::Put { family, key, value: copy_bytes(value) })
        } else {
            Ok(CommandMutation::Delete { family, key })
        }
    }

    proof fn item_back(item: MutationView, tail: Seq<u8>) {
        broadcast use crate::wire::group_read_back;

        match item {
            MutationView::Put { family, key, value } => {
                lemma_family_back(family, sized(key) + (sized(value) + tail), "mutation_family");
            },
            MutationView::Delete { family, key } => {
                lemma_family_back(family, sized(key) + tail, "mutation_family");
            },
        }
    }

    proof fn item_split(st: RecoveryParse) {
        broadcast use crate::wire::group_split, crate::wire::lemma_concat_assoc;

        let (tag, s1) = step_u8(st, "command_mutation_kind");
        let s2 = check(
            s1,
            1 <= tag <= 2,
            RecoveryCodecError::UnknownDiscriminant { type_label: "CommandMutation", value: tag },
        );
        lemma_family_split(s2, "mutation_family");
    }

    proof fn item_fits(item: MutationView) {
    }
}

/// A row whose former value a command keeps in history.
#[derive(Clone, Debug, PartialEq, Eq)]
pub struct HistoryProjection {
    pub family: MetadataFamily,
    pub key: Vec<u8>,
}

impl View for HistoryProjection {
    type V = (MetadataFamily, Seq<u8>);

    open spec fn view(&self) -> (MetadataFamily, Seq<u8>) {
        (self.family, self.key@)
    }
}

impl CommandItem for HistoryProjection {
    open spec fn item_bytes(item: (MetadataFamily, Seq<u8>)) -> Seq<u8> {
        seq![item.0.spec_format_tag()] + sized(item.1)
    }

    open spec fn item_fault(item: (MetadataFamily, Seq<u8>)) -> Option<RecoveryCodecError> {
        overflow_fault("history_key", item.1.len())
    }

    open spec fn item_bounded(item: (MetadataFamily, Seq<u8>)) -> bool {
        item.1.len() <= MAX_RECOVERY_BYTES
    }

    open spec fn step_item(st: RecoveryParse) -> ((MetadataFamily, Seq<u8>), RecoveryParse) {
        let (family, s1) = step_family(st, "history_family");
        let (key, s2) = step_bytes(s1, "history_key", MAX_RECOVERY_BYTES);
        ((family, key), s2)
    }

    fn put_item(&self, out: &mut Vec<u8>) -> (result: Result<(), RecoveryCodecError>) {
        broadcast use crate::wire::lemma_concat_assoc;

        put_byte(out, self.family.format_tag());
        put_field(out, "history_key", self.key.as_slice())
    }

    fn read_item(reader: &mut Reader) -> (result: Result<HistoryProjection, RecoveryCodecError>) {
        let family: MetadataFamily = read_family(reader, "history_family")?;
        let key: &[u8] = reader.bytes("history_key", MAX_RECOVERY_BYTES)?;
        Ok(HistoryProjection { family, key: copy_bytes(key) })
    }

    proof fn item_back(item: (MetadataFamily, Seq<u8>), tail: Seq<u8>) {
        broadcast use crate::wire::group_read_back;

        lemma_family_back(item.0, sized(item.1) + tail, "history_family");
    }

    proof fn item_split(st: RecoveryParse) {
        broadcast use crate::wire::group_split, crate::wire::lemma_concat_assoc;

        lemma_family_split(st, "history_family");
    }

    proof fn item_fits(item: (MetadataFamily, Seq<u8>)) {
    }
}

/// A change event that a command emits.
#[derive(Clone, Debug, PartialEq, Eq)]
pub struct EventProjection {
    pub payload: Vec<u8>,
}

impl View for EventProjection {
    type V = Seq<u8>;

    open spec fn view(&self) -> Seq<u8> {
        self.payload@
    }
}

impl CommandItem for EventProjection {
    open spec fn item_bytes(item: Seq<u8>) -> Seq<u8> {
        sized(item)
    }

    open spec fn item_fault(item: Seq<u8>) -> Option<RecoveryCodecError> {
        overflow_fault("event_payload", item.len())
    }

    open spec fn item_bounded(item: Seq<u8>) -> bool {
        item.len() <= MAX_RECOVERY_BYTES
    }

    open spec fn step_item(st: RecoveryParse) -> (Seq<u8>, RecoveryParse) {
        step_bytes(st, "event_payload", MAX_RECOVERY_BYTES)
    }

    fn put_item(&self, out: &mut Vec<u8>) -> (result: Result<(), RecoveryCodecError>) {
        put_field(out, "event_payload", self.payload.as_slice())
    }

    fn read_item(reader: &mut Reader) -> (result: Result<EventProjection, RecoveryCodecError>) {
        let payload: &[u8] = reader.bytes("event_payload", MAX_RECOVERY_BYTES)?;
        Ok(EventProjection { payload: copy_bytes(payload) })
    }

    proof fn item_back(item: Seq<u8>, tail: Seq<u8>) {
        crate::wire::lemma_bytes_back::<RecoveryCodecError>(
            item,
            tail,
            "event_payload",
            MAX_RECOVERY_BYTES,
        );
    }

    proof fn item_split(st: RecoveryParse) {
        crate::wire::lemma_bytes_split(st, "event_payload", MAX_RECOVERY_BYTES);
    }

    proof fn item_fits(item: Seq<u8>) {
    }
}

/// What a command does to the fence of its root.
#[derive(Clone, Copy, Debug, PartialEq, Eq, Structural)]
pub enum RootFenceAction {
    Install,
    RequireActive,
    Transition { expected: RootActivationState, next: RootActivationState },
    BindObjectNamespace { expected: RootActivationState },
}

/// The stored form of a fence action.
pub open spec fn root_action_bytes(action: RootFenceAction) -> Seq<u8> {
    match action {
        RootFenceAction::Install => seq![1u8],
        RootFenceAction::RequireActive => seq![2u8],
        RootFenceAction::Transition { expected, next } => seq![3u8] + seq![expected.spec_tag()]
            + seq![next.spec_tag()],
        RootFenceAction::BindObjectNamespace { expected } => seq![4u8]
            + seq![expected.spec_tag()],
    }
}

/// A root state byte.
pub open spec fn step_root_state(st: RecoveryParse, field: &'static str) -> (
    RootActivationState,
    RecoveryParse,
) {
    let (tag, s1) = step_u8(st, field);
    let state = RootActivationState::spec_from_tag(tag);
    (
        state.unwrap(),
        check(
            s1,
            state is Some,
            RecoveryCodecError::UnknownDiscriminant {
                type_label: "RootActivationState",
                value: tag,
            },
        ),
    )
}

/// A fence action.
pub open spec fn step_root_action(st: RecoveryParse) -> (RootFenceAction, RecoveryParse) {
    let (tag, s1) = step_u8(st, "root_fence_action");
    if s1.err is Some || tag == 1 {
        (RootFenceAction::Install, s1)
    } else if tag == 2 {
        (RootFenceAction::RequireActive, s1)
    } else if tag == 3 {
        let (expected, s2) = step_root_state(s1, "expected_root_state");
        let (next, s3) = step_root_state(s2, "next_root_state");
        (RootFenceAction::Transition { expected, next }, s3)
    } else if tag == 4 {
        let (expected, s2) = step_root_state(s1, "expected_root_state");
        (RootFenceAction::BindObjectNamespace { expected }, s2)
    } else {
        (
            RootFenceAction::Install,
            fail(
                s1,
                RecoveryCodecError::UnknownDiscriminant {
                    type_label: "RootFenceAction",
                    value: tag,
                },
            ),
        )
    }
}

fn read_root_state(reader: &mut Reader, field: &'static str) -> (result: Result<
    RootActivationState,
    RecoveryCodecError,
>)
    requires
        old(reader).wf(),
    ensures
        final(reader).wf(),
        match result {
            Ok(value) => {
                &&& step_root_state(start(old(reader).rest()), field).0 == value
                &&& stepped(step_root_state(start(old(reader).rest()), field).1, *final(reader))
            },
            Err(error) => step_root_state(start(old(reader).rest()), field).1.err == Some(error),
        },
{
    let tag: u8 = reader.u8(field)?;
    match RootActivationState::from_tag(tag) {
        None => Err(
            RecoveryCodecError::UnknownDiscriminant {
                type_label: "RootActivationState",
                value: tag,
            },
        ),
        Some(state) => Ok(state),
    }
}

/// Reads a fence action.
pub fn read_root_action(reader: &mut Reader) -> (result: Result<
    RootFenceAction,
    RecoveryCodecError,
>)
    requires
        old(reader).wf(),
    ensures
        final(reader).wf(),
        match result {
            Ok(value) => {
                &&& step_root_action(start(old(reader).rest())).0 == value
                &&& stepped(step_root_action(start(old(reader).rest())).1, *final(reader))
            },
            Err(error) => step_root_action(start(old(reader).rest())).1.err == Some(error),
        },
{
    let tag: u8 = reader.u8("root_fence_action")?;
    match tag {
        1 => Ok(RootFenceAction::Install),
        2 => Ok(RootFenceAction::RequireActive),
        3 => {
            let expected: RootActivationState = read_root_state(reader, "expected_root_state")?;
            let next: RootActivationState = read_root_state(reader, "next_root_state")?;
            Ok(RootFenceAction::Transition { expected, next })
        },
        4 => {
            let expected: RootActivationState = read_root_state(reader, "expected_root_state")?;
            Ok(RootFenceAction::BindObjectNamespace { expected })
        },
        value => Err(
            RecoveryCodecError::UnknownDiscriminant { type_label: "RootFenceAction", value },
        ),
    }
}

/// Appends a fence action.
pub fn put_root_action(out: &mut Vec<u8>, action: RootFenceAction)
    ensures
        final(out)@ == old(out)@ + root_action_bytes(action),
{
    broadcast use crate::wire::lemma_concat_assoc;

    match action {
        RootFenceAction::Install => put_byte(out, 1),
        RootFenceAction::RequireActive => put_byte(out, 2),
        RootFenceAction::Transition { expected, next } => {
            put_byte(out, 3);
            put_byte(out, expected.tag());
            put_byte(out, next.tag());
        },
        RootFenceAction::BindObjectNamespace { expected } => {
            put_byte(out, 4);
            put_byte(out, expected.tag());
        },
    }
}

/// A fence action is read back as it was written.
pub proof fn lemma_root_action_back(action: RootFenceAction, tail: Seq<u8>)
    ensures
        step_root_action(start(root_action_bytes(action) + tail)) == (
            action,
            start::<RecoveryCodecError>(tail),
        ),
{
    broadcast use crate::wire::group_read_back;

}

/// An accepted fence action is the stored form of that action.
pub proof fn lemma_root_action_split(st: RecoveryParse)
    ensures
        step_root_action(st).1.err is None ==> {
            let (action, next) = step_root_action(st);
            st.err is None && st.rest == root_action_bytes(action) + next.rest
        },
{
    broadcast use crate::wire::group_split, crate::wire::lemma_concat_assoc;

}

/// One atomic metadata write: what it expects, what it changes, and the
/// deterministic result it returns.
#[derive(Clone, Debug, PartialEq, Eq)]
pub struct MetadataCommand {
    pub schema_id: String,
    pub root_id: RootId,
    pub logical_shard_id: LogicalShardId,
    pub object_namespace_id: Option<ObjectNamespaceId>,
    pub placement_generation: PlacementGeneration,
    pub owner_epoch: OwnerEpoch,
    pub request_id: RequestId,
    pub command_digest: CommandDigest,
    pub read_version: ReadVersion,
    pub root_fence_action: RootFenceAction,
    pub predicates: Vec<CommandPredicate>,
    pub mutations: Vec<CommandMutation>,
    pub history_projection: Vec<HistoryProjection>,
    pub event_projection: Vec<EventProjection>,
    pub deterministic_result: Vec<u8>,
}

/// A command with its texts, bytes and lists as sequences.
#[verifier::ext_equal]
pub struct CommandView {
    pub schema_id: Seq<char>,
    pub root_id: RootId,
    pub logical_shard_id: LogicalShardId,
    pub object_namespace_id: Option<ObjectNamespaceId>,
    pub placement_generation: PlacementGeneration,
    pub owner_epoch: OwnerEpoch,
    pub request_id: RequestId,
    pub command_digest: Seq<u8>,
    pub read_version: ReadVersion,
    pub root_fence_action: RootFenceAction,
    pub predicates: Seq<PredicateView>,
    pub mutations: Seq<MutationView>,
    pub history_projection: Seq<(MetadataFamily, Seq<u8>)>,
    pub event_projection: Seq<Seq<u8>>,
    pub deterministic_result: Seq<u8>,
}

impl View for MetadataCommand {
    type V = CommandView;

    open spec fn view(&self) -> CommandView {
        CommandView {
            schema_id: self.schema_id@,
            root_id: self.root_id,
            logical_shard_id: self.logical_shard_id,
            object_namespace_id: self.object_namespace_id,
            placement_generation: self.placement_generation,
            owner_epoch: self.owner_epoch,
            request_id: self.request_id,
            command_digest: self.command_digest.bytes@,
            read_version: self.read_version,
            root_fence_action: self.root_fence_action,
            predicates: item_views(self.predicates@),
            mutations: item_views(self.mutations@),
            history_projection: item_views(self.history_projection@),
            event_projection: item_views(self.event_projection@),
            deterministic_result: self.deterministic_result@,
        }
    }
}

} // verus!
