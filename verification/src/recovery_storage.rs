//! Storage keys of recovery rows, and rows split into bounded chunks.

use crate::be::{be_bytes, get_be, lex_less, put_be, put_slice, same_bytes};
use crate::command::{overflow_fault, RecoveryCodecError, MAX_RECOVERY_BYTES};
use crate::digest::{sha256, sha256_of};
use crate::wire::{check, lemma_concat_assoc, lemma_concat_empty, outcome, put_sized, sized, start,
    step_bytes, step_digest, step_end, step_u32, step_u64, step_u8, viewed, Reader};
use vstd::prelude::*;
use vstd::slice::slice_subrange;

verus! {

/// First byte of a header key with a binary sequence number.
pub const LEGACY_STORAGE_HEADER_KEY_TAG: u8 = 0;

/// First byte of a chunk key with a binary sequence number.
pub const LEGACY_STORAGE_CHUNK_KEY_TAG: u8 = 1;

/// First byte of a header key with a decimal sequence number.
pub const STORAGE_HEADER_KEY_TAG: u8 = 2;

/// First byte of a chunk key with a decimal sequence number.
pub const STORAGE_CHUNK_KEY_TAG: u8 = 3;

/// Width of a decimal sequence number.
pub const RECOVERY_LSN_DECIMAL_BYTES: usize = 20;

/// Width of a header key with a decimal sequence number.
pub const RECOVERY_OUTBOX_KEY_BYTES: usize = 21;

/// Format of a stored header.
pub const STORAGE_HEADER_VERSION: u8 = 1;

/// Format of a stored chunk.
pub const STORAGE_CHUNK_VERSION: u8 = 1;

/// Most data bytes in one chunk.
pub const MAX_STORAGE_CHUNK_DATA_BYTES: usize = 61_440;

/// How a recovery key writes its sequence number.
#[derive(Clone, Copy, Debug, PartialEq, Eq, Structural)]
pub enum RecoveryKeyLayout {
    /// Eight big-endian bytes.
    Format8,
    /// Twenty decimal digits.
    Format9,
}

impl RecoveryKeyLayout {
    /// The first byte of a header key.
    pub open spec fn spec_header_tag(self) -> u8 {
        match self {
            RecoveryKeyLayout::Format8 => LEGACY_STORAGE_HEADER_KEY_TAG,
            RecoveryKeyLayout::Format9 => STORAGE_HEADER_KEY_TAG,
        }
    }

    /// The first byte of a chunk key.
    pub open spec fn spec_chunk_tag(self) -> u8 {
        match self {
            RecoveryKeyLayout::Format8 => LEGACY_STORAGE_CHUNK_KEY_TAG,
            RecoveryKeyLayout::Format9 => STORAGE_CHUNK_KEY_TAG,
        }
    }

    pub fn header_tag(self) -> (tag: u8)
        ensures
            tag == self.spec_header_tag(),
    {
        match self {
            RecoveryKeyLayout::Format8 => LEGACY_STORAGE_HEADER_KEY_TAG,
            RecoveryKeyLayout::Format9 => STORAGE_HEADER_KEY_TAG,
        }
    }

    pub fn from_header_tag(tag: u8) -> (layout: Option<RecoveryKeyLayout>)
        ensures
            match layout {
                Some(layout) => layout.spec_header_tag() == tag,
                None => forall|layout: RecoveryKeyLayout| #[trigger]
                    layout.spec_header_tag() != tag,
            },
    {
        if tag == LEGACY_STORAGE_HEADER_KEY_TAG {
            Some(RecoveryKeyLayout::Format8)
        } else if tag == STORAGE_HEADER_KEY_TAG {
            Some(RecoveryKeyLayout::Format9)
        } else {
            None
        }
    }

    pub fn from_chunk_tag(tag: u8) -> (layout: Option<RecoveryKeyLayout>)
        ensures
            match layout {
                Some(layout) => layout.spec_chunk_tag() == tag,
                None => forall|layout: RecoveryKeyLayout| #[trigger]
                    layout.spec_chunk_tag() != tag,
            },
    {
        if tag == LEGACY_STORAGE_CHUNK_KEY_TAG {
            Some(RecoveryKeyLayout::Format8)
        } else if tag == STORAGE_CHUNK_KEY_TAG {
            Some(RecoveryKeyLayout::Format9)
        } else {
            None
        }
    }
}

/// `10^n`.
pub open spec fn pow10(n: nat) -> nat
    decreases n,
{
    if n == 0 {
        1
    } else {
        10 * pow10((n - 1) as nat)
    }
}

/// The lowest `n` decimal digits of `v` in ASCII, most significant first.
pub open spec fn decimal(v: nat, n: nat) -> Seq<u8>
    decreases n,
{
    if n == 0 {
        Seq::empty()
    } else {
        decimal(v / 10, (n - 1) as nat).push((0x30 + v % 10) as u8)
    }
}

/// Whether every byte is an ASCII digit.
pub open spec fn all_digits(s: Seq<u8>) -> bool {
    forall|i: int| 0 <= i < s.len() ==> 0x30 <= #[trigger] s[i] <= 0x39
}

/// The number that ASCII digits write.
pub open spec fn decimal_value(s: Seq<u8>) -> nat
    decreases s.len(),
{
    if s.len() == 0 {
        0
    } else {
        10 * decimal_value(s.drop_last()) + (s.last() - 0x30) as nat
    }
}

pub proof fn lemma_decimal_round_trip(v: nat, n: nat)
    requires
        v < pow10(n),
    ensures
        decimal(v, n).len() == n,
        all_digits(decimal(v, n)),
        decimal_value(decimal(v, n)) == v,
    decreases n,
{
    if n > 0 {
        lemma_decimal_round_trip(v / 10, (n - 1) as nat);
        let s = decimal(v, n);
        assert(s.drop_last() =~= decimal(v / 10, (n - 1) as nat));
    }
}

proof fn lemma_decimal_canonical(s: Seq<u8>)
    requires
        all_digits(s),
    ensures
        decimal(decimal_value(s), s.len()) == s,
    decreases s.len(),
{
    if s.len() > 0 {
        let front = s.drop_last();
        assert forall|i: int| 0 <= i < front.len() implies 0x30 <= #[trigger] front[i] <= 0x39 by {
            assert(front[i] == s[i]);
        }
        lemma_decimal_canonical(front);
        let v = decimal_value(s);
        assert(0x30 <= s[s.len() - 1] <= 0x39);
        assert(v / 10 == decimal_value(front));
        assert(v % 10 == s.last() - 0x30);
        assert(decimal(v, s.len()) =~= s);
    }
}

pub proof fn lemma_lsn_fits(v: u64)
    ensures
        (v as nat) < pow10(20),
{
    reveal_with_fuel(pow10, 21);
}

proof fn lemma_decimal_order(a: nat, b: nat, n: nat)
    requires
        a < b,
        b < pow10(n),
    ensures
        lex_less(decimal(a, n), decimal(b, n)),
        decimal(a, n).len() == n,
        decimal(b, n).len() == n,
    decreases n,
{
    if n > 0 {
        let m = (n - 1) as nat;
        lemma_decimal_round_trip(a, n);
        lemma_decimal_round_trip(b, n);
        let (x, y) = (decimal(a / 10, m), decimal(b / 10, m));
        lemma_decimal_round_trip(a / 10, m);
        lemma_decimal_round_trip(b / 10, m);
        let (p, q) = (seq![(0x30 + a % 10) as u8], seq![(0x30 + b % 10) as u8]);
        assert(decimal(a, n) =~= x + p);
        assert(decimal(b, n) =~= y + q);
        if a / 10 < b / 10 {
            lemma_decimal_order(a / 10, b / 10, m);
            crate::be::lemma_lex_extend(x, y, p, q);
        } else {
            assert(a % 10 < b % 10);
            crate::be::lemma_lex_common_prefix(x, p, q);
        }
    }
}

fn put_decimal(out: &mut Vec<u8>, v: u64, n: usize)
    ensures
        final(out)@ == old(out)@ + decimal(v as nat, n as nat),
    decreases n,
{
    if n == 0 {
        assert(out@ =~= old(out)@ + decimal(v as nat, 0));
    } else {
        put_decimal(out, v / 10, n - 1);
        out.push(0x30 + (v % 10) as u8);
        assert(out@ =~= old(out)@ + decimal(v as nat, n as nat));
    }
}

/// A sequence number as a key of the given layout writes it.
pub open spec fn lsn_bytes(layout: RecoveryKeyLayout, lsn: u64) -> Seq<u8> {
    match layout {
        RecoveryKeyLayout::Format8 => be_bytes(lsn as nat, 8),
        RecoveryKeyLayout::Format9 => decimal(lsn as nat, 20),
    }
}

/// The key of a row's header.
pub open spec fn header_key(layout: RecoveryKeyLayout, lsn: u64) -> Seq<u8> {
    seq![layout.spec_header_tag()] + lsn_bytes(layout, lsn)
}

/// The key of one chunk of a row.
pub open spec fn chunk_key(layout: RecoveryKeyLayout, lsn: u64, index: u32) -> Seq<u8> {
    seq![layout.spec_chunk_tag()] + lsn_bytes(layout, lsn) + be_bytes(index as nat, 4)
}

/// Header key with a fixed-width decimal sequence number, which keeps numeric
/// order.
pub fn recovery_outbox_key(recovery_lsn: u64) -> (key: Vec<u8>)
    ensures
        key@ == header_key(RecoveryKeyLayout::Format9, recovery_lsn),
        key@.len() == RECOVERY_OUTBOX_KEY_BYTES,
{
    let mut key: Vec<u8> = vec![STORAGE_HEADER_KEY_TAG];
    assert(key@ =~= seq![STORAGE_HEADER_KEY_TAG]);
    put_decimal(&mut key, recovery_lsn, RECOVERY_LSN_DECIMAL_BYTES);
    proof {
        lemma_lsn_fits(recovery_lsn);
        lemma_decimal_round_trip(recovery_lsn as nat, 20);
    }
    key
}

/// Header key with a binary sequence number.
pub fn legacy_recovery_outbox_key(recovery_lsn: u64) -> (key: Vec<u8>)
    ensures
        key@ == header_key(RecoveryKeyLayout::Format8, recovery_lsn),
        key@.len() == 9,
{
    let mut key: Vec<u8> = vec![LEGACY_STORAGE_HEADER_KEY_TAG];
    assert(key@ =~= seq![LEGACY_STORAGE_HEADER_KEY_TAG]);
    put_be(&mut key, recovery_lsn as u128, 8);
    proof {
        crate::be::lemma_be_bytes_len(recovery_lsn as nat, 8);
    }
    key
}

/// The header key at which a scan of one layout starts.
pub fn recovery_outbox_scan_start(layout: RecoveryKeyLayout, recovery_lsn: u64) -> (key: Vec<u8>)
    ensures
        key@ == header_key(layout, recovery_lsn),
{
    match layout {
        RecoveryKeyLayout::Format8 => legacy_recovery_outbox_key(recovery_lsn),
        RecoveryKeyLayout::Format9 => recovery_outbox_key(recovery_lsn),
    }
}

/// What a header key names.
#[derive(Clone, Copy, Debug, PartialEq, Eq, Structural)]
pub struct DecodedRecoveryOutboxKey {
    pub recovery_lsn: u64,
    pub layout: RecoveryKeyLayout,
}

/// The number that twenty digits write, if they are digits and it fits.
fn decode_recovery_lsn(encoded: &[u8]) -> (result: Result<u64, RecoveryCodecError>)
    requires
        encoded@.len() == 20,
    ensures
        match result {
            Ok(lsn) => encoded@ == decimal(lsn as nat, 20),
            Err(error) => error == (RecoveryCodecError::InvalidValue {
                field: "recovery_outbox_key",
            }) && forall|lsn: u64| encoded@ != #[trigger] decimal(lsn as nat, 20),
        },
{
    let mut value: u64 = 0;
    let mut i: usize = 0;
    assert(encoded@.take(0) =~= Seq::<u8>::empty());
    while i < encoded.len()
        invariant
            i <= encoded@.len(),
            encoded@.len() == 20,
            all_digits(encoded@.take(i as int)),
            value == decimal_value(encoded@.take(i as int)),
        decreases encoded@.len() - i,
    {
        let digit: u8 = encoded[i];
        let ghost next = encoded@.take(i + 1);
        assert(next.drop_last() =~= encoded@.take(i as int));
        if digit < 0x30 || digit > 0x39 {
            proof {
                assert forall|lsn: u64| encoded@ != #[trigger] decimal(lsn as nat, 20) by {
                    lemma_lsn_fits(lsn);
                    lemma_decimal_round_trip(lsn as nat, 20);
                    assert(encoded@[i as int] == digit);
                }
            }
            return Err(RecoveryCodecError::InvalidValue { field: "recovery_outbox_key" });
        }
        let wide: u128 = value as u128 * 10 + (digit - 0x30) as u128;
        assert(wide == decimal_value(next));
        if wide > u64::MAX as u128 {
            proof {
                lemma_value_grows(encoded@, i + 1);
                assert forall|lsn: u64| encoded@ != #[trigger] decimal(lsn as nat, 20) by {
                    lemma_lsn_fits(lsn);
                    lemma_decimal_round_trip(lsn as nat, 20);
                }
            }
            return Err(RecoveryCodecError::InvalidValue { field: "recovery_outbox_key" });
        }
        value = wide as u64;
        assert forall|k: int| 0 <= k < next.len() implies 0x30 <= #[trigger] next[k] <= 0x39 by {
            if k < i {
                assert(encoded@.take(i as int)[k] == next[k]);
            }
        }
        i = i + 1;
    }
    assert(encoded@.take(i as int) =~= encoded@);
    proof {
        lemma_decimal_canonical(encoded@);
    }
    Ok(value)
}

/// More digits never write a smaller number.
proof fn lemma_value_grows(s: Seq<u8>, i: int)
    requires
        0 <= i <= s.len(),
    ensures
        decimal_value(s.take(i)) <= decimal_value(s),
    decreases s.len() - i,
{
    if i == s.len() {
        assert(s.take(i) =~= s);
    } else {
        lemma_value_grows(s, i + 1);
        assert(s.take(i + 1).drop_last() =~= s.take(i));
    }
}

/// Whether `key` is the header key of some row, of row zero included.
pub open spec fn is_header_key(key: Seq<u8>, layout: RecoveryKeyLayout, lsn: u64) -> bool {
    key == header_key(layout, lsn)
}

/// Decodes a header key: the row it names, unless it names row zero or none.
pub fn decode_recovery_outbox_key(key: &[u8]) -> (result: Result<
    DecodedRecoveryOutboxKey,
    RecoveryCodecError,
>)
    ensures
        match result {
            Ok(decoded) => decoded.recovery_lsn != 0 && is_header_key(
                key@,
                decoded.layout,
                decoded.recovery_lsn,
            ),
            Err(error) => {
                ||| error == (RecoveryCodecError::ZeroScalar { field: "recovery_lsn" }) && exists|
                    layout: RecoveryKeyLayout,
                | #[trigger] is_header_key(key@, layout, 0)
                ||| error == (RecoveryCodecError::InvalidValue { field: "recovery_outbox_key" })
                    && forall|layout: RecoveryKeyLayout, lsn: u64|
                    !(#[trigger] is_header_key(key@, layout, lsn))
            },
        },
{
    proof {
        assert forall|layout: RecoveryKeyLayout, lsn: u64| #[trigger]
            is_header_key(key@, layout, lsn) implies key@.len() == (match layout {
            RecoveryKeyLayout::Format8 => 9int,
            RecoveryKeyLayout::Format9 => 21int,
        }) && key@[0] == layout.spec_header_tag() && key@.skip(1) == lsn_bytes(layout, lsn) by {
            lemma_lsn_fits(lsn);
            lemma_decimal_round_trip(lsn as nat, 20);
            crate::be::lemma_be_bytes_len(lsn as nat, 8);
            assert(key@.skip(1) =~= lsn_bytes(layout, lsn));
        }
    }
    if key.len() == 0 {
        return Err(RecoveryCodecError::InvalidValue { field: "recovery_outbox_key" });
    }
    let tail: &[u8] = slice_subrange(key, 1, key.len());
    assert(tail@ =~= key@.skip(1));
    assert(key@ =~= seq![key@[0]] + tail@);
    let layout: RecoveryKeyLayout;
    let lsn: u64;
    if key[0] == LEGACY_STORAGE_HEADER_KEY_TAG && key.len() == 9 {
        proof {
            crate::be::lemma_be_canonical(tail@);
            crate::be::lemma_pow256_values();
        }
        layout = RecoveryKeyLayout::Format8;
        lsn = get_be(tail) as u64;
    } else if key[0] == STORAGE_HEADER_KEY_TAG && key.len() == RECOVERY_OUTBOX_KEY_BYTES {
        layout = RecoveryKeyLayout::Format9;
        lsn = decode_recovery_lsn(tail)?;
    } else {
        return Err(RecoveryCodecError::InvalidValue { field: "recovery_outbox_key" });
    }
    assert(is_header_key(key@, layout, lsn));
    if lsn == 0 {
        return Err(RecoveryCodecError::ZeroScalar { field: "recovery_lsn" });
    }
    Ok(DecodedRecoveryOutboxKey { recovery_lsn: lsn, layout })
}

/// Chunk key with a decimal sequence number.
pub fn recovery_chunk_key(recovery_lsn: u64, index: u32) -> (key: Vec<u8>)
    ensures
        key@ == chunk_key(RecoveryKeyLayout::Format9, recovery_lsn, index),
{
    let mut key: Vec<u8> = vec![STORAGE_CHUNK_KEY_TAG];
    assert(key@ =~= seq![STORAGE_CHUNK_KEY_TAG]);
    put_decimal(&mut key, recovery_lsn, RECOVERY_LSN_DECIMAL_BYTES);
    put_be(&mut key, index as u128, 4);
    key
}

/// Chunk key of the given layout.
pub fn recovery_chunk_key_for_layout(
    layout: RecoveryKeyLayout,
    recovery_lsn: u64,
    index: u32,
) -> (key: Vec<u8>)
    ensures
        key@ == chunk_key(layout, recovery_lsn, index),
{
    match layout {
        RecoveryKeyLayout::Format8 => {
            let mut key: Vec<u8> = vec![LEGACY_STORAGE_CHUNK_KEY_TAG];
            assert(key@ =~= seq![LEGACY_STORAGE_CHUNK_KEY_TAG]);
            put_be(&mut key, recovery_lsn as u128, 8);
            put_be(&mut key, index as u128, 4);
            key
        },
        RecoveryKeyLayout::Format9 => recovery_chunk_key(recovery_lsn, index),
    }
}

/// Header keys of one layout sort as their sequence numbers do.
pub proof fn header_key_order(layout: RecoveryKeyLayout, a: u64, b: u64)
    requires
        a < b,
    ensures
        lex_less(header_key(layout, a), header_key(layout, b)),
{
    lemma_lsn_order(layout, a, b);
    crate::be::lemma_lex_common_prefix(
        seq![layout.spec_header_tag()],
        lsn_bytes(layout, a),
        lsn_bytes(layout, b),
    );
}

/// Chunk keys of one layout sort by sequence number, then by index.
pub proof fn chunk_key_order(layout: RecoveryKeyLayout, a: (u64, u32), b: (u64, u32))
    requires
        a.0 < b.0 || (a.0 == b.0 && a.1 < b.1),
    ensures
        lex_less(chunk_key(layout, a.0, a.1), chunk_key(layout, b.0, b.1)),
{
    let tag = seq![layout.spec_chunk_tag()];
    let (x, y) = (lsn_bytes(layout, a.0), lsn_bytes(layout, b.0));
    let (p, q) = (be_bytes(a.1 as nat, 4), be_bytes(b.1 as nat, 4));
    lemma_concat_assoc(tag, x, p);
    lemma_concat_assoc(tag, y, q);
    if a.0 < b.0 {
        lemma_lsn_order(layout, a.0, b.0);
        crate::be::lemma_lex_extend(x, y, p, q);
    } else {
        crate::be::lemma_pow256_values();
        crate::be::lemma_be_order(a.1 as nat, b.1 as nat, 4);
        crate::be::lemma_lex_common_prefix(x, p, q);
    }
    crate::be::lemma_lex_common_prefix(tag, x + p, y + q);
}

proof fn lemma_lsn_order(layout: RecoveryKeyLayout, a: u64, b: u64)
    requires
        a < b,
    ensures
        lex_less(lsn_bytes(layout, a), lsn_bytes(layout, b)),
        lsn_bytes(layout, a).len() == lsn_bytes(layout, b).len(),
{
    match layout {
        RecoveryKeyLayout::Format8 => {
            crate::be::lemma_pow256_values();
            crate::be::lemma_be_order(a as nat, b as nat, 8);
            crate::be::lemma_be_bytes_len(a as nat, 8);
            crate::be::lemma_be_bytes_len(b as nat, 8);
        },
        RecoveryKeyLayout::Format9 => {
            lemma_lsn_fits(b);
            lemma_decimal_order(a as nat, b as nat, 20);
        },
    }
}

/// How many chunks a row of `length` bytes is split into.
pub open spec fn chunks_needed(length: nat) -> nat {
    (length + 61_439) / 61_440
}

/// A stored header: the row's length, its number of chunks and its digest.
pub open spec fn storage_header_bytes(length: nat, count: nat, digest: Seq<u8>) -> Seq<u8> {
    seq![STORAGE_HEADER_VERSION] + be_bytes(length, 8) + be_bytes(count, 4) + digest
}

/// A stored chunk: its place among the chunks, and its data.
pub open spec fn storage_chunk_bytes(index: nat, total: nat, data: Seq<u8>) -> Seq<u8> {
    seq![STORAGE_CHUNK_VERSION] + be_bytes(index, 4) + be_bytes(total, 4) + sized(data)
}

/// The data of chunk `i` of a row.
pub open spec fn chunk_data(logical: Seq<u8>, i: int) -> Seq<u8> {
    logical.subrange(
        i * 61_440,
        if (i + 1) * 61_440 <= logical.len() {
            (i + 1) * 61_440
        } else {
            logical.len() as int
        },
    )
}

/// The header that is stored for a row.
pub open spec fn storage_header(logical: Seq<u8>) -> Seq<u8> {
    storage_header_bytes(logical.len(), chunks_needed(logical.len()), sha256_of(logical))
}

/// The chunks that are stored for a row.
pub open spec fn storage_chunks(logical: Seq<u8>) -> Seq<Seq<u8>> {
    let total = chunks_needed(logical.len());
    Seq::new(total, |i: int| storage_chunk_bytes(i as nat, total, chunk_data(logical, i)))
}

/// Byte strings seen as sequences.
pub open spec fn byte_rows(rows: Seq<Vec<u8>>) -> Seq<Seq<u8>> {
    rows.map_values(|row: Vec<u8>| row@)
}

/// The shape of a stored row.
#[derive(Clone, Copy, Debug, PartialEq, Eq)]
pub struct RecoveryStorageHeader {
    pub logical_length: u64,
    pub chunk_count: u32,
    pub logical_digest: [u8; 32],
}

/// The shape of a stored row, its digest as a sequence.
#[verifier::ext_equal]
pub struct StorageHeaderView {
    pub logical_length: u64,
    pub chunk_count: u32,
    pub logical_digest: Seq<u8>,
}

impl View for RecoveryStorageHeader {
    type V = StorageHeaderView;

    open spec fn view(&self) -> StorageHeaderView {
        StorageHeaderView {
            logical_length: self.logical_length,
            chunk_count: self.chunk_count,
            logical_digest: self.logical_digest@,
        }
    }
}

/// The header that a stored value holds, or why it holds none.
pub open spec fn parse_storage_header(bytes: Seq<u8>) -> Result<
    StorageHeaderView,
    RecoveryCodecError,
> {
    let (version, s1) = step_u8(start(bytes), "storage_header_version");
    let s2 = check(
        s1,
        version == STORAGE_HEADER_VERSION,
        RecoveryCodecError::UnsupportedVersion {
            actual: version,
            expected: STORAGE_HEADER_VERSION,
        },
    );
    let (length, s3) = step_u64(s2, "recovery_logical_length");
    let (count, s4) = step_u32(s3, "recovery_chunk_count");
    let (digest, s5) = step_digest(s4, "recovery_logical_digest");
    let s6 = check(
        step_end(s5),
        0 < length <= MAX_RECOVERY_BYTES && count == chunks_needed(length as nat),
        RecoveryCodecError::InvalidValue { field: "recovery_storage_shape" },
    );
    outcome(
        s6,
        StorageHeaderView { logical_length: length, chunk_count: count, logical_digest: digest },
    )
}

/// The data of a stored chunk that stands at `index` of `total`, or why the
/// value is no such chunk.
#[verifier::opaque]
pub open spec fn parse_storage_chunk(bytes: Seq<u8>, index: u32, total: u32) -> Result<
    Seq<u8>,
    RecoveryCodecError,
> {
    let (version, s1) = step_u8(start(bytes), "storage_chunk_version");
    let s2 = check(
        s1,
        version == STORAGE_CHUNK_VERSION,
        RecoveryCodecError::UnsupportedVersion { actual: version, expected: STORAGE_CHUNK_VERSION },
    );
    let (at, s3) = step_u32(s2, "recovery_chunk_index");
    let (of, s4) = step_u32(s3, "recovery_chunk_total");
    let (data, s5) = step_bytes(s4, "recovery_chunk_data", MAX_RECOVERY_BYTES);
    let s6 = check(
        step_end(s5),
        at == index && of == total && 0 < data.len() <= MAX_STORAGE_CHUNK_DATA_BYTES,
        RecoveryCodecError::InvalidValue { field: "recovery_storage_chunk" },
    );
    outcome(s6, data)
}

/// The data of the chunks from `from` on, or the first failure among them.
pub open spec fn gather_chunks(chunks: Seq<Seq<u8>>, from: nat, total: u32) -> Result<
    Seq<u8>,
    RecoveryCodecError,
>
    decreases chunks.len() - from,
{
    if from >= chunks.len() {
        Ok(Seq::empty())
    } else {
        match parse_storage_chunk(chunks[from as int], from as u32, total) {
            Err(error) => Err(error),
            Ok(data) => if from >= u32::MAX {
                Err(
                    RecoveryCodecError::LengthOverflow {
                        field: "recovery_chunk_count",
                        length: usize::MAX,
                    },
                )
            } else {
                match gather_chunks(chunks, from + 1, total) {
                    Err(error) => Err(error),
                    Ok(rest) => Ok(data + rest),
                }
            },
        }
    }
}

/// The row that a header and its chunks hold, or why they hold none.
pub open spec fn parse_storage(header: Seq<u8>, chunks: Seq<Seq<u8>>) -> Result<
    Seq<u8>,
    RecoveryCodecError,
> {
    match parse_storage_header(header) {
        Err(error) => Err(error),
        Ok(shape) => match gather_chunks(chunks, 0, shape.chunk_count) {
            Err(error) => Err(error),
            Ok(logical) => if chunks.len() != shape.chunk_count || logical.len()
                != shape.logical_length {
                Err(RecoveryCodecError::InvalidValue { field: "recovery_storage_shape" })
            } else if sha256_of(logical) != shape.logical_digest {
                Err(RecoveryCodecError::InvalidValue { field: "recovery_storage_digest" })
            } else {
                Ok(logical)
            },
        },
    }
}

impl RecoveryStorageHeader {
    pub fn encode(&self) -> (encoded: Vec<u8>)
        ensures
            encoded@ == storage_header_bytes(
                self.logical_length as nat,
                self.chunk_count as nat,
                self.logical_digest@,
            ),
    {
        let mut encoded: Vec<u8> = vec![STORAGE_HEADER_VERSION];
        assert(encoded@ =~= seq![STORAGE_HEADER_VERSION]);
        put_be(&mut encoded, self.logical_length as u128, 8);
        put_be(&mut encoded, self.chunk_count as u128, 4);
        put_slice(&mut encoded, self.logical_digest.as_slice());
        encoded
    }

    pub fn decode(encoded: &[u8]) -> (result: Result<RecoveryStorageHeader, RecoveryCodecError>)
        ensures
            viewed(result) == parse_storage_header(encoded@),
    {
        let mut reader = Reader::new(encoded);
        let version: u8 = reader.u8("storage_header_version")?;
        if version != STORAGE_HEADER_VERSION {
            return Err(
                RecoveryCodecError::UnsupportedVersion {
                    actual: version,
                    expected: STORAGE_HEADER_VERSION,
                },
            );
        }
        let logical_length: u64 = reader.u64("recovery_logical_length")?;
        let chunk_count: u32 = reader.u32("recovery_chunk_count")?;
        let logical_digest: [u8; 32] = reader.digest("recovery_logical_digest")?;
        reader.end()?;
        if logical_length == 0 || logical_length > MAX_RECOVERY_BYTES as u64 || chunk_count as u64
            != (logical_length + 61_439) / 61_440 {
            return Err(RecoveryCodecError::InvalidValue { field: "recovery_storage_shape" });
        }
        Ok(RecoveryStorageHeader { logical_length, chunk_count, logical_digest })
    }
}

fn encode_storage_chunk(index: u32, total: u32, data: &[u8]) -> (encoded: Vec<u8>)
    requires
        data@.len() <= MAX_STORAGE_CHUNK_DATA_BYTES,
    ensures
        encoded@ == storage_chunk_bytes(index as nat, total as nat, data@),
{
    let mut encoded: Vec<u8> = vec![STORAGE_CHUNK_VERSION];
    assert(encoded@ =~= seq![STORAGE_CHUNK_VERSION]);
    put_be(&mut encoded, index as u128, 4);
    put_be(&mut encoded, total as u128, 4);
    put_sized(&mut encoded, data);
    encoded
}

fn decode_storage_chunk<'a>(encoded: &'a [u8], index: u32, total: u32) -> (result: Result<
    &'a [u8],
    RecoveryCodecError,
>)
    ensures
        match result {
            Ok(data) => parse_storage_chunk(encoded@, index, total) == Ok::<
                _,
                RecoveryCodecError,
            >(data@),
            Err(error) => parse_storage_chunk(encoded@, index, total) == Err::<Seq<u8>, _>(error),
        },
{
    proof {
        reveal(parse_storage_chunk);
    }
    let mut reader = Reader::new(encoded);
    let version: u8 = reader.u8("storage_chunk_version")?;
    if version != STORAGE_CHUNK_VERSION {
        return Err(
            RecoveryCodecError::UnsupportedVersion {
                actual: version,
                expected: STORAGE_CHUNK_VERSION,
            },
        );
    }
    let at: u32 = reader.u32("recovery_chunk_index")?;
    let of: u32 = reader.u32("recovery_chunk_total")?;
    let data: &'a [u8] = reader.bytes("recovery_chunk_data", MAX_RECOVERY_BYTES)?;
    reader.end()?;
    if at != index || of != total || data.len() == 0 || data.len() > MAX_STORAGE_CHUNK_DATA_BYTES {
        return Err(RecoveryCodecError::InvalidValue { field: "recovery_storage_chunk" });
    }
    Ok(data)
}

/// Splits a row into a header and bounded chunks.
pub fn split_recovery_storage(logical: &[u8]) -> (result: Result<
    (Vec<u8>, Vec<Vec<u8>>),
    RecoveryCodecError,
>)
    ensures
        match result {
            Ok(stored) => {
                &&& chunks_needed(logical@.len()) <= u32::MAX
                &&& stored.0@ == storage_header(logical@)
                &&& byte_rows(stored.1@) == storage_chunks(logical@)
            },
            Err(error) => Some(error) == overflow_fault(
                "recovery_chunk_count",
                chunks_needed(logical@.len()),
            ),
        },
{
    let whole: usize = logical.len() / MAX_STORAGE_CHUNK_DATA_BYTES;
    let count: usize = if logical.len() % MAX_STORAGE_CHUNK_DATA_BYTES == 0 {
        whole
    } else {
        whole + 1
    };
    assert(count == chunks_needed(logical@.len()));
    if count > u32::MAX as usize {
        return Err(
            RecoveryCodecError::LengthOverflow { field: "recovery_chunk_count", length: count },
        );
    }
    let total: u32 = count as u32;
    let header: Vec<u8> = RecoveryStorageHeader {
        logical_length: logical.len() as u64,
        chunk_count: total,
        logical_digest: sha256(logical),
    }.encode();
    let mut chunks: Vec<Vec<u8>> = Vec::new();
    let mut at: usize = 0;
    let mut i: u32 = 0;
    while i < total
        invariant
            i <= total,
            at == if i < total {
                i as int * 61_440
            } else {
                logical@.len() as int
            },
            total == chunks_needed(logical@.len()),
            chunks@.len() == i,
            forall|k: int| 0 <= k < i ==> #[trigger] chunks@[k]@ == storage_chunk_bytes(
                k as nat,
                total as nat,
                chunk_data(logical@, k),
            ),
        decreases total - i,
    {
        let end: usize = if logical.len() - at > MAX_STORAGE_CHUNK_DATA_BYTES {
            at + MAX_STORAGE_CHUNK_DATA_BYTES
        } else {
            logical.len()
        };
        let data: &[u8] = slice_subrange(logical, at, end);
        assert(data@ == chunk_data(logical@, i as int));
        chunks.push(encode_storage_chunk(i, total, data));
        at = end;
        i = i + 1;
    }
    assert(byte_rows(chunks@) =~= storage_chunks(logical@));
    Ok((header, chunks))
}

/// Puts a row together from its header and chunks.
pub fn assemble_recovery_storage(header: &[u8], chunks: Vec<Vec<u8>>) -> (result: Result<
    Vec<u8>,
    RecoveryCodecError,
>)
    ensures
        viewed(result) == parse_storage(header@, byte_rows(chunks@)),
{
    let shape: RecoveryStorageHeader = RecoveryStorageHeader::decode(header)?;
    let ghost rows = byte_rows(chunks@);
    let ghost all = gather_chunks(rows, 0, shape.chunk_count);
    let mut logical: Vec<u8> = Vec::new();
    let mut observed: u32 = 0;
    assert(all is Ok ==> logical@ + all.unwrap() =~= all.unwrap());
    while (observed as usize) < chunks.len()
        invariant
            observed <= rows.len(),
            rows == byte_rows(chunks@),
            match gather_chunks(rows, observed as nat, shape.chunk_count) {
                Err(error) => all == Err::<Seq<u8>, _>(error),
                Ok(rest) => all == Ok::<_, RecoveryCodecError>(logical@ + rest),
            },
            all is Err ==> parse_storage(header@, rows) == all,
            parse_storage_header(header@) == Ok::<_, RecoveryCodecError>(shape@),
            all == gather_chunks(rows, 0, shape.chunk_count),
        decreases rows.len() - observed,
    {
        let ghost had = logical@;
        assert(rows[observed as int] == chunks@[observed as int]@);
        let data: &[u8] = decode_storage_chunk(
            chunks[observed as usize].as_slice(),
            observed,
            shape.chunk_count,
        )?;
        put_slice(&mut logical, data);
        if observed == u32::MAX {
            return Err(
                RecoveryCodecError::LengthOverflow {
                    field: "recovery_chunk_count",
                    length: usize::MAX,
                },
            );
        }
        proof {
            match gather_chunks(rows, (observed + 1) as nat, shape.chunk_count) {
                Err(_) => {},
                Ok(rest) => lemma_concat_assoc(had, data@, rest),
            }
        }
        observed = observed + 1;
    }
    assert(logical@ + Seq::<u8>::empty() =~= logical@);
    if observed != shape.chunk_count || logical.len() as u64 != shape.logical_length {
        return Err(RecoveryCodecError::InvalidValue { field: "recovery_storage_shape" });
    }
    let digest: [u8; 32] = sha256(logical.as_slice());
    if !same_bytes(digest.as_slice(), shape.logical_digest.as_slice()) {
        return Err(RecoveryCodecError::InvalidValue { field: "recovery_storage_digest" });
    }
    Ok(logical)
}

/// How many chunks a stored header announces.
pub fn recovery_storage_chunk_count(header: &[u8]) -> (result: Result<u32, RecoveryCodecError>)
    ensures
        match result {
            Ok(count) => parse_storage_header(header@) is Ok && parse_storage_header(
                header@,
            ).unwrap().chunk_count == count,
            Err(error) => parse_storage_header(header@) == Err::<StorageHeaderView, _>(error),
        },
{
    let shape: RecoveryStorageHeader = RecoveryStorageHeader::decode(header)?;
    Ok(shape.chunk_count)
}

/// How many bytes a stored header announces.
pub fn recovery_storage_logical_length(header: &[u8]) -> (result: Result<
    usize,
    RecoveryCodecError,
>)
    ensures
        match result {
            Ok(length) => parse_storage_header(header@) is Ok && parse_storage_header(
                header@,
            ).unwrap().logical_length == length,
            Err(error) => parse_storage_header(header@) == Err::<StorageHeaderView, _>(error),
        },
{
    let shape: RecoveryStorageHeader = RecoveryStorageHeader::decode(header)?;
    Ok(shape.logical_length as usize)
}

proof fn lemma_header_back(length: u64, digest: Seq<u8>)
    requires
        0 < length <= MAX_RECOVERY_BYTES,
        digest.len() == 32,
    ensures
        parse_storage_header(
            storage_header_bytes(length as nat, chunks_needed(length as nat), digest),
        ) == Ok::<_, RecoveryCodecError>(
            StorageHeaderView {
                logical_length: length,
                chunk_count: chunks_needed(length as nat) as u32,
                logical_digest: digest,
            },
        ),
{
    let count = chunks_needed(length as nat) as u32;
    let bytes = storage_header_bytes(length as nat, count as nat, digest);
    lemma_concat_empty(bytes);
    broadcast use crate::wire::group_read_back;

    assert(bytes == seq![STORAGE_HEADER_VERSION] + (be_bytes(length as nat, 8) + (be_bytes(
        count as nat,
        4,
    ) + (digest + Seq::<u8>::empty()))));
}

proof fn lemma_chunk_back(index: u32, total: u32, data: Seq<u8>)
    requires
        0 < data.len() <= MAX_STORAGE_CHUNK_DATA_BYTES,
    ensures
        parse_storage_chunk(
            storage_chunk_bytes(index as nat, total as nat, data),
            index,
            total,
        ) == Ok::<_, RecoveryCodecError>(data),
{
    reveal(parse_storage_chunk);
    let bytes = storage_chunk_bytes(index as nat, total as nat, data);
    lemma_concat_empty(bytes);
    broadcast use crate::wire::group_read_back;

    assert(bytes == seq![STORAGE_CHUNK_VERSION] + (be_bytes(index as nat, 4) + (be_bytes(
        total as nat,
        4,
    ) + (sized(data) + Seq::<u8>::empty()))));
}

proof fn lemma_gather_all(logical: Seq<u8>, from: nat)
    requires
        logical.len() <= MAX_RECOVERY_BYTES,
        from <= chunks_needed(logical.len()),
    ensures
        gather_chunks(
            storage_chunks(logical),
            from,
            chunks_needed(logical.len()) as u32,
        ) == Ok::<_, RecoveryCodecError>(
            logical.skip(
                if from * 61_440 <= logical.len() {
                    from as int * 61_440
                } else {
                    logical.len() as int
                },
            ),
        ),
    decreases chunks_needed(logical.len()) - from,
{
    let total = chunks_needed(logical.len());
    let chunks = storage_chunks(logical);
    if from == total {
        assert(logical.skip(logical.len() as int) =~= Seq::<u8>::empty());
    } else {
        let data = chunk_data(logical, from as int);
        lemma_chunk_back(from as u32, total as u32, data);
        lemma_gather_all(logical, from + 1);
        let next: int = if (from + 1) * 61_440 <= logical.len() {
            (from as int + 1) * 61_440
        } else {
            logical.len() as int
        };
        assert(data + logical.skip(next) =~= logical.skip(from as int * 61_440));
    }
}

/// A row is put together again from what it was split into.
pub proof fn storage_round_trip(logical: Seq<u8>)
    requires
        0 < logical.len() <= MAX_RECOVERY_BYTES,
    ensures
        parse_storage(storage_header(logical), storage_chunks(logical)) == Ok::<
            _,
            RecoveryCodecError,
        >(logical),
{
    crate::digest::lemma_sha256_len(logical);
    lemma_header_back(logical.len() as u64, sha256_of(logical));
    lemma_gather_all(logical, 0);
    assert(logical.skip(0) =~= logical);
}

/// A row is put together only from every announced chunk, and only if its
/// length and digest are the announced ones.
pub proof fn storage_accepts_whole_rows(header: Seq<u8>, chunks: Seq<Seq<u8>>)
    requires
        parse_storage(header, chunks) is Ok,
    ensures
        ({
            let shape = parse_storage_header(header).unwrap();
            let logical = parse_storage(header, chunks).unwrap();
            &&& parse_storage_header(header) is Ok
            &&& chunks.len() == shape.chunk_count
            &&& chunks.len() == chunks_needed(logical.len())
            &&& logical.len() == shape.logical_length
            &&& sha256_of(logical) == shape.logical_digest
        }),
{
}

} // verus!
