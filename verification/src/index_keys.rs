//! Order-preserving secondary-index keys and path-index locator keys.

use crate::be::{be_bytes, be_value, get_be, lemma_lex_irreflexive, lemma_lex_transitive, lex_less,
    put_be, put_slice, same_bytes};
use crate::digest::{sha256, sha256_of};
use crate::ids::{array32, id_bytes, PathIndexGenerationId, RequestId, RootId,
    WorkspaceIncarnationId};
use crate::query_records::{field_id_fault, float_rank, scalar_less, FiniteFloat, QueryFieldId,
    QueryScalar, QueryScalarType, ScalarView, MAX_QUERY_SCALAR_BYTES, NEGATIVE_ZERO_BITS};
use crate::text::{read_text, text_of, utf8, NormalizedRelativePath};
use crate::wire::{lemma_concat_assoc, put_byte};
use vstd::prelude::*;
use vstd::slice::slice_subrange;

verus! {

/// Bytes with NUL escaped as `00 ff` and a `00 00` terminator.
pub open spec fn escaped(bytes: Seq<u8>) -> Seq<u8>
    decreases bytes.len(),
{
    if bytes.len() == 0 {
        seq![0u8, 0u8]
    } else {
        escaped_byte(bytes[0]) + escaped(bytes.skip(1))
    }
}

/// One byte, escaped if it is NUL.
pub open spec fn escaped_byte(byte: u8) -> Seq<u8> {
    if byte == 0 {
        seq![0u8, 0xffu8]
    } else {
        seq![byte]
    }
}

/// The order-preserving form of a scalar: its type byte, then bytes that sort
/// as the values do.
pub open spec fn ordered_scalar(value: ScalarView) -> Seq<u8> {
    seq![value.scalar_type().spec_tag()] + ordered_value(value)
}

/// The order-preserving form of a value within its type.
pub open spec fn ordered_value(value: ScalarView) -> Seq<u8> {
    match value {
        ScalarView::Null => Seq::empty(),
        ScalarView::Boolean(value) => seq![if value {
            1u8
        } else {
            0u8
        }],
        ScalarView::Signed(value) => be_bytes(signed_rank(value), 8),
        ScalarView::Unsigned(value) => be_bytes(value as nat, 8),
        ScalarView::Float(value) => be_bytes(float_rank(value), 8),
        ScalarView::Timestamp(value) => be_bytes(signed_rank(value), 8),
        ScalarView::Bytes(value) => escaped(value),
        ScalarView::String(value) => escaped(utf8(value)),
    }
}

/// Signed numbers shifted so that the smallest is zero.
pub open spec fn signed_rank(value: i64) -> nat {
    (value + 0x8000_0000_0000_0000) as nat
}

fn to_signed_rank(value: i64) -> (rank: u64)
    ensures
        rank == signed_rank(value),
{
    (value as i128 + 0x8000_0000_0000_0000) as u64
}

fn to_float_rank(value: FiniteFloat) -> (rank: u64)
    ensures
        rank == float_rank(value),
{
    if value.bits < NEGATIVE_ZERO_BITS {
        value.bits + 0x8000_0000_0000_0000
    } else {
        0xffff_ffff_ffff_ffff - value.bits
    }
}

fn put_ordered_bytes(out: &mut Vec<u8>, value: &[u8])
    ensures
        final(out)@ == old(out)@ + escaped(value@),
{
    let ghost before = out@;
    let mut i: usize = 0;
    assert(value@.skip(0) =~= value@);
    while i < value.len()
        invariant
            i <= value@.len(),
            before + escaped(value@) == out@ + escaped(value@.skip(i as int)),
        decreases value@.len() - i,
    {
        let ghost here = out@;
        let ghost rest = value@.skip(i as int);
        proof {
            assert(rest.skip(1) =~= value@.skip(i + 1));
            lemma_concat_assoc(here, escaped_byte(rest[0]), escaped(rest.skip(1)));
        }
        if value[i] == 0 {
            out.push(0);
            out.push(0xff);
        } else {
            out.push(value[i]);
        }
        assert(out@ =~= here + escaped_byte(rest[0]));
        i = i + 1;
    }
    let ghost here = out@;
    assert(escaped(value@.skip(i as int)) == seq![0u8, 0u8]);
    out.push(0);
    out.push(0);
    assert(out@ =~= here + seq![0u8, 0u8]);
}

/// Encodes one scalar for an order-preserving secondary-index key.
///
/// Variable bytes use a NUL escape and a two-byte terminator, so a value that
/// is a prefix of another value sorts first without colliding with what
/// follows it in a key.
pub fn encode_ordered_index_scalar(value: &QueryScalar) -> (encoded: Vec<u8>)
    ensures
        encoded@ == ordered_scalar(value@),
{
    broadcast use crate::wire::lemma_concat_empty;

    let mut out: Vec<u8> = vec![value.discriminant()];
    assert(out@ =~= seq![value@.scalar_type().spec_tag()]);
    match value {
        QueryScalar::Null => {},
        QueryScalar::Boolean(value) => {
            let byte: u8 = if *value {
                1
            } else {
                0
            };
            put_byte(&mut out, byte);
        },
        QueryScalar::Signed(value) => put_be(&mut out, to_signed_rank(*value) as u128, 8),
        QueryScalar::Unsigned(value) => put_be(&mut out, *value as u128, 8),
        QueryScalar::Float(value) => put_be(&mut out, to_float_rank(*value) as u128, 8),
        QueryScalar::Timestamp(value) => put_be(&mut out, to_signed_rank(*value) as u128, 8),
        QueryScalar::Bytes(value) => put_ordered_bytes(&mut out, value.as_slice()),
        QueryScalar::String(value) => put_ordered_bytes(&mut out, value.as_str().as_bytes()),
    }
    out
}

/// Escaped bytes sort as the bytes do, whatever follows them.
pub proof fn escaped_order(a: Seq<u8>, b: Seq<u8>, x: Seq<u8>, y: Seq<u8>)
    requires
        lex_less(a, b),
    ensures
        lex_less(escaped(a) + x, escaped(b) + y),
    decreases b.len(),
{
    reveal_with_fuel(lex_less, 3);
    let (left, right) = (escaped(a) + x, escaped(b) + y);
    lemma_concat_assoc(escaped_byte(b[0]), escaped(b.skip(1)), y);
    if a.len() == 0 {
        assert(left[0] == 0 && left[1] == 0);
        if b[0] == 0 {
            assert(right[0] == 0 && right[1] == 0xff);
            assert(left.skip(1)[0] == 0);
            assert(right.skip(1)[0] == 0xff);
        } else {
            assert(right[0] == b[0]);
        }
    } else {
        lemma_concat_assoc(escaped_byte(a[0]), escaped(a.skip(1)), x);
        if a[0] != b[0] {
            assert(left[0] == a[0]);
            assert(right[0] == b[0]);
        } else {
            escaped_order(a.skip(1), b.skip(1), x, y);
            crate::be::lemma_lex_common_prefix(
                escaped_byte(a[0]),
                escaped(a.skip(1)) + x,
                escaped(b.skip(1)) + y,
            );
        }
    }
}

/// Fixed-width digits keep the order of numbers, whatever follows them.
proof fn lemma_ordered_digits(a: nat, b: nat, x: Seq<u8>, y: Seq<u8>)
    requires
        a < b,
        b < 0x1_0000_0000_0000_0000,
    ensures
        lex_less(be_bytes(a, 8) + x, be_bytes(b, 8) + y),
{
    crate::be::lemma_pow256_values();
    crate::be::lemma_be_order(a, b, 8);
    crate::be::lemma_be_bytes_len(a, 8);
    crate::be::lemma_be_bytes_len(b, 8);
    crate::be::lemma_lex_extend(be_bytes(a, 8), be_bytes(b, 8), x, y);
}

/// The order-preserving form sorts as the scalars do, whatever follows it in
/// a key.
pub proof fn ordered_scalar_preserves_order(
    a: ScalarView,
    b: ScalarView,
    x: Seq<u8>,
    y: Seq<u8>,
)
    requires
        scalar_less(a, b),
    ensures
        lex_less(ordered_scalar(a) + x, ordered_scalar(b) + y),
{
    let (p, q) = (seq![a.scalar_type().spec_tag()], seq![b.scalar_type().spec_tag()]);
    let (u, v) = (ordered_value(a), ordered_value(b));
    lemma_concat_assoc(p, u, x);
    lemma_concat_assoc(q, v, y);
    if a.scalar_type() != b.scalar_type() {
        assert((ordered_scalar(a) + x)[0] == p[0]);
        assert((ordered_scalar(b) + y)[0] == q[0]);
    } else {
        match (a, b) {
            (ScalarView::Boolean(m), ScalarView::Boolean(n)) => {
                assert((u + x)[0] == 0);
                assert((v + y)[0] == 1);
            },
            (ScalarView::Signed(m), ScalarView::Signed(n)) => {
                lemma_ordered_digits(signed_rank(m), signed_rank(n), x, y);
            },
            (ScalarView::Timestamp(m), ScalarView::Timestamp(n)) => {
                lemma_ordered_digits(signed_rank(m), signed_rank(n), x, y);
            },
            (ScalarView::Unsigned(m), ScalarView::Unsigned(n)) => {
                lemma_ordered_digits(m as nat, n as nat, x, y);
            },
            (ScalarView::Float(m), ScalarView::Float(n)) => {
                lemma_ordered_digits(float_rank(m), float_rank(n), x, y);
            },
            (ScalarView::Bytes(m), ScalarView::Bytes(n)) => {
                escaped_order(m, n, x, y);
            },
            (ScalarView::String(m), ScalarView::String(n)) => {
                escaped_order(utf8(m), utf8(n), x, y);
            },
            _ => {},
        }
        crate::be::lemma_lex_common_prefix(p, u + x, v + y);
    }
}

/// The order of scalars is strict: none sorts before itself, and what sorts
/// before an earlier scalar sorts before a later one.
pub proof fn scalar_order_strict(a: ScalarView, b: ScalarView, c: ScalarView)
    ensures
        !scalar_less(a, a),
        scalar_less(a, b) && scalar_less(b, c) ==> scalar_less(a, c),
{
    match a {
        ScalarView::Bytes(x) => lemma_lex_irreflexive(x),
        ScalarView::String(x) => lemma_lex_irreflexive(utf8(x)),
        _ => {},
    }
    if scalar_less(a, b) && scalar_less(b, c) {
        match (a, b, c) {
            (ScalarView::Bytes(x), ScalarView::Bytes(y), ScalarView::Bytes(z)) =>
                lemma_lex_transitive(x, y, z),
            (ScalarView::String(x), ScalarView::String(y), ScalarView::String(z)) =>
                lemma_lex_transitive(utf8(x), utf8(y), utf8(z)),
            _ => {},
        }
    }
}

/// Of two different scalars one sorts before the other.
pub proof fn scalar_order_total(a: ScalarView, b: ScalarView)
    requires
        a != b,
    ensures
        scalar_less(a, b) || scalar_less(b, a),
{
    match (a, b) {
        (ScalarView::Bytes(m), ScalarView::Bytes(n)) => {
            crate::be::lemma_lex_total(m, n);
        },
        (ScalarView::String(m), ScalarView::String(n)) => {
            if utf8(m) == utf8(n) {
                crate::text::lemma_utf8_injective(m, n);
            }
            crate::be::lemma_lex_total(utf8(m), utf8(n));
        },
        _ => {},
    }
}

/// No two scalars share an order-preserving form, and none is a prefix of
/// another: what follows a scalar in a key can be told apart from it.
pub proof fn ordered_scalar_prefix_free(a: ScalarView, b: ScalarView, x: Seq<u8>, y: Seq<u8>)
    requires
        ordered_scalar(a) + x == ordered_scalar(b) + y,
    ensures
        a == b,
        x == y,
{
    if a != b {
        scalar_order_total(a, b);
        if scalar_less(a, b) {
            ordered_scalar_preserves_order(a, b, x, y);
        } else {
            ordered_scalar_preserves_order(b, a, y, x);
        }
        crate::be::lemma_lex_irreflexive(ordered_scalar(a) + x);
    }
    let n = ordered_scalar(a).len() as int;
    assert((ordered_scalar(a) + x).skip(n) =~= x);
    assert((ordered_scalar(b) + y).skip(n) =~= y);
}

/// Whether `value` escapes to `encoded`.
pub open spec fn escapes_to(value: Seq<u8>, encoded: Seq<u8>) -> bool {
    escaped(value) == encoded
}

/// Escaped bytes without the terminator.
spec fn escaped_open(bytes: Seq<u8>) -> Seq<u8>
    decreases bytes.len(),
{
    if bytes.len() == 0 {
        Seq::empty()
    } else {
        escaped_open(bytes.drop_last()) + escaped_byte(bytes.last())
    }
}

proof fn lemma_escaped_concat(a: Seq<u8>, b: Seq<u8>)
    ensures
        escaped(a + b) == escaped_open(a) + escaped(b),
    decreases a.len(),
{
    if a.len() == 0 {
        assert(a + b =~= b);
        assert(escaped_open(a) + escaped(b) =~= escaped(b));
    } else {
        let longer = seq![a.last()] + b;
        assert(longer.skip(1) =~= b);
        lemma_escaped_concat(a.drop_last(), longer);
        assert(a.drop_last() + longer =~= a + b);
        lemma_concat_assoc(escaped_open(a.drop_last()), escaped_byte(a.last()), escaped(b));
    }
}

/// `v` begins with `had`, and the rest of it escapes to `rest`.
spec fn starts_decoded(v: Seq<u8>, had: Seq<u8>, rest: Seq<u8>) -> bool {
    &&& had.len() <= v.len()
    &&& v.take(had.len() as int) == had
    &&& escaped(v.skip(had.len() as int)) == rest
}

proof fn lemma_escaped_head(w: Seq<u8>)
    ensures
        escaped(w).len() >= 2,
        escaped(w)[0] == 0 ==> ((escaped(w)[1] == 0 && escaped(w).len() == 2) || escaped(w)[1]
            == 0xff),
    decreases w.len(),
{
    if w.len() > 0 {
        lemma_escaped_head(w.skip(1));
    }
}

/// A value whose escaped rest begins with an escaped byte has that byte next.
proof fn lemma_starts_next(v: Seq<u8>, had: Seq<u8>, byte: u8, tail: Seq<u8>)
    requires
        starts_decoded(v, had, escaped_byte(byte) + tail),
    ensures
        starts_decoded(v, had.push(byte), tail),
{
    let rest = escaped_byte(byte) + tail;
    let w = v.skip(had.len() as int);
    assert(rest[0] == escaped_byte(byte)[0]);
    if w.len() == 0 {
        assert(escaped(w) == seq![0u8, 0u8]);
        assert(byte == 0);
        assert(rest[1] == escaped_byte(byte)[1]);
        assert(false);
    } else {
        assert(escaped(w)[0] == escaped_byte(w[0])[0]);
        assert(w[0] == byte);
        let n = escaped_byte(byte).len() as int;
        assert((escaped_byte(w[0]) + escaped(w.skip(1))).skip(n) =~= escaped(w.skip(1)));
        assert(rest.skip(n) =~= tail);
        assert(v.skip(had.len() as int + 1) =~= w.skip(1));
        assert(v[had.len() as int] == w[0]);
        assert(v.take(had.len() as int + 1) =~= v.take(had.len() as int).push(byte));
    }
}

/// Reads escaped bytes back.
fn decode_ordered_bytes(encoded: &[u8]) -> (decoded: Option<Vec<u8>>)
    ensures
        match decoded {
            Some(value) => escapes_to(value@, encoded@),
            None => forall|value: Seq<u8>| !(#[trigger] escapes_to(value, encoded@)),
        },
{
    let mut decoded: Vec<u8> = Vec::new();
    let mut offset: usize = 0;
    proof {
        assert(encoded@.skip(0) =~= encoded@);
        assert(escaped_open(decoded@) + encoded@ =~= encoded@);
        assert forall|v: Seq<u8>| #[trigger] escapes_to(v, encoded@) implies starts_decoded(
            v,
            decoded@,
            encoded@,
        ) by {
            assert(v.take(0) =~= decoded@);
            assert(v.skip(0) =~= v);
        }
    }
    loop
        invariant
            offset <= encoded@.len(),
            encoded@ == escaped_open(decoded@) + encoded@.skip(offset as int),
            forall|v: Seq<u8>| #[trigger]
                escapes_to(v, encoded@) ==> starts_decoded(
                    v,
                    decoded@,
                    encoded@.skip(offset as int),
                ),
        decreases encoded@.len() - offset,
    {
        let ghost rest = encoded@.skip(offset as int);
        let ghost had = decoded@;
        proof {
            assert forall|v: Seq<u8>| #[trigger] escapes_to(v, encoded@) implies rest.len() >= 2
                && (rest[0] == 0 ==> ((rest[1] == 0 && rest.len() == 2) || rest[1] == 0xff)) by {
                lemma_escaped_head(v.skip(had.len() as int));
            }
        }
        if offset >= encoded.len() {
            return None;
        }
        let byte: u8 = encoded[offset];
        assert(byte == rest[0]);
        let mut width: usize = 1;
        if byte == 0 {
            if offset + 1 >= encoded.len() {
                return None;
            }
            let next: u8 = encoded[offset + 1];
            assert(next == rest[1]);
            if next == 0 && offset + 2 == encoded.len() {
                proof {
                    assert(rest =~= seq![0u8, 0u8]);
                    assert(had + Seq::<u8>::empty() =~= had);
                    lemma_escaped_concat(had, Seq::empty());
                }
                return Some(decoded);
            }
            if next != 0xff {
                return None;
            }
            width = 2;
        }
        decoded.push(byte);
        proof {
            let tail = encoded@.skip(offset + width);
            assert(rest =~= escaped_byte(byte) + tail);
            assert forall|v: Seq<u8>| #[trigger] escapes_to(v, encoded@) implies starts_decoded(
                v,
                decoded@,
                tail,
            ) by {
                lemma_starts_next(v, had, byte, tail);
            }
            assert(decoded@.drop_last() =~= had);
            lemma_concat_assoc(escaped_open(had), escaped_byte(byte), tail);
        }
        offset = offset + width;
    }
}

/// Whether `value` is a storable scalar of type `tag` whose ordered form is
/// `payload`.
spec fn ordered_as(value: ScalarView, tag: u8, payload: Seq<u8>) -> bool {
    &&& value.storable()
    &&& value.scalar_type().spec_tag() == tag
    &&& ordered_value(value) == payload
}

proof fn lemma_digits_value(rank: nat)
    requires
        rank < 0x1_0000_0000_0000_0000,
    ensures
        be_bytes(rank, 8).len() == 8,
        be_value(be_bytes(rank, 8)) == rank,
{
    crate::be::lemma_pow256_values();
    crate::be::lemma_be_round_trip(rank, 8);
}

fn from_signed_rank(rank: u64) -> (value: i64)
    ensures
        signed_rank(value) == rank,
{
    (rank as i128 - 0x8000_0000_0000_0000) as i64
}

/// The only scalar of type `kind` that can have the ordered form `payload`.
fn ordered_candidate(kind: QueryScalarType, payload: &[u8]) -> (candidate: Option<QueryScalar>)
    ensures
        candidate is Some ==> candidate.unwrap()@.storable(),
        forall|value: ScalarView| #[trigger]
            ordered_as(value, kind.spec_tag(), payload@) ==> candidate is Some
                && candidate.unwrap()@ == value,
{
    let ghost tag = kind.spec_tag();
    proof {
        assert forall|value: ScalarView| #[trigger]
            ordered_as(value, tag, payload@) && 3 <= tag <= 6 implies payload@.len() == 8 by {
            match value {
                ScalarView::Signed(v) => lemma_digits_value(signed_rank(v)),
                ScalarView::Timestamp(v) => lemma_digits_value(signed_rank(v)),
                ScalarView::Unsigned(v) => lemma_digits_value(v as nat),
                ScalarView::Float(v) => lemma_digits_value(float_rank(v)),
                _ => {},
            }
        }
    }
    match kind {
        QueryScalarType::Null => Some(QueryScalar::Null),
        QueryScalarType::Boolean => {
            if payload.len() != 1 {
                return None;
            }
            Some(QueryScalar::Boolean(payload[0] == 1))
        },
        QueryScalarType::Signed => {
            if payload.len() != 8 {
                return None;
            }
            proof {
                crate::be::lemma_be_canonical(payload@);
                crate::be::lemma_pow256_values();
            }
            let value: i64 = from_signed_rank(get_be(payload) as u64);
            proof {
                assert forall|other: ScalarView| #[trigger]
                    ordered_as(other, tag, payload@) implies other == ScalarView::Signed(value) by {
                    lemma_digits_value(signed_rank(other->Signed_0));
                }
            }
            Some(QueryScalar::Signed(value))
        },
        QueryScalarType::Timestamp => {
            if payload.len() != 8 {
                return None;
            }
            proof {
                crate::be::lemma_be_canonical(payload@);
                crate::be::lemma_pow256_values();
            }
            let value: i64 = from_signed_rank(get_be(payload) as u64);
            proof {
                assert forall|other: ScalarView| #[trigger]
                    ordered_as(other, tag, payload@) implies other == ScalarView::Timestamp(
                    value,
                ) by {
                    lemma_digits_value(signed_rank(other->Timestamp_0));
                }
            }
            Some(QueryScalar::Timestamp(value))
        },
        QueryScalarType::Unsigned => {
            if payload.len() != 8 {
                return None;
            }
            proof {
                crate::be::lemma_be_canonical(payload@);
                crate::be::lemma_pow256_values();
            }
            let value: u64 = get_be(payload) as u64;
            proof {
                assert forall|other: ScalarView| #[trigger]
                    ordered_as(other, tag, payload@) implies other == ScalarView::Unsigned(
                    value,
                ) by {
                    lemma_digits_value(other->Unsigned_0 as nat);
                }
            }
            Some(QueryScalar::Unsigned(value))
        },
        QueryScalarType::Float => {
            if payload.len() != 8 {
                return None;
            }
            proof {
                crate::be::lemma_be_canonical(payload@);
                crate::be::lemma_pow256_values();
            }
            let rank: u64 = get_be(payload) as u64;
            let bits: u64 = if rank < NEGATIVE_ZERO_BITS {
                0xffff_ffff_ffff_ffff - rank
            } else {
                rank - 0x8000_0000_0000_0000
            };
            proof {
                assert forall|other: ScalarView| #[trigger]
                    ordered_as(other, tag, payload@) implies other == ScalarView::Float(
                    FiniteFloat { bits },
                ) by {
                    lemma_digits_value(float_rank(other->Float_0));
                }
            }
            match FiniteFloat::from_canonical_bits(bits) {
                Err(_) => None,
                Ok(value) => Some(QueryScalar::Float(value)),
            }
        },
        QueryScalarType::Bytes => {
            match decode_ordered_bytes(payload) {
                None => {
                    proof {
                        assert forall|other: ScalarView| #[trigger]
                            ordered_as(other, tag, payload@) implies false by {
                            assert(escapes_to(other->Bytes_0, payload@));
                        }
                    }
                    None
                },
                Some(value) => {
                    proof {
                        assert forall|other: ScalarView| #[trigger]
                            ordered_as(other, tag, payload@) implies other == ScalarView::Bytes(
                            value@,
                        ) by {
                            lemma_escaped_injective(other->Bytes_0, value@);
                        }
                    }
                    if value.len() > MAX_QUERY_SCALAR_BYTES {
                        return None;
                    }
                    Some(QueryScalar::Bytes(value))
                },
            }
        },
        QueryScalarType::String => {
            match decode_ordered_bytes(payload) {
                None => {
                    proof {
                        assert forall|other: ScalarView| #[trigger]
                            ordered_as(other, tag, payload@) implies false by {
                            assert(escapes_to(utf8(other->String_0), payload@));
                        }
                    }
                    None
                },
                Some(value) => {
                    proof {
                        assert forall|other: ScalarView| #[trigger]
                            ordered_as(other, tag, payload@) implies text_of(value@) == Some(
                            other->String_0,
                        ) && utf8(other->String_0) == value@ by {
                            lemma_escaped_injective(utf8(other->String_0), value@);
                            crate::text::lemma_text_of_utf8(other->String_0);
                        }
                    }
                    if value.len() > MAX_QUERY_SCALAR_BYTES {
                        return None;
                    }
                    match read_text(value.as_slice()) {
                        None => None,
                        Some(text) => {
                            proof {
                                crate::text::lemma_utf8_text_of(value@);
                            }
                            Some(QueryScalar::String(text))
                        },
                    }
                },
            }
        },
    }
}

proof fn lemma_escaped_injective(a: Seq<u8>, b: Seq<u8>)
    requires
        escaped(a) == escaped(b),
    ensures
        a == b,
{
    if a != b {
        crate::be::lemma_lex_total(a, b);
        let none = Seq::<u8>::empty();
        if lex_less(a, b) {
            escaped_order(a, b, none, none);
        } else {
            escaped_order(b, a, none, none);
        }
        crate::be::lemma_lex_irreflexive(escaped(a) + none);
    }
}

/// The storable scalar with the given ordered form, if there is one.
pub fn decode_ordered_index_scalar(encoded: &[u8]) -> (decoded: Option<QueryScalar>)
    ensures
        match decoded {
            Some(value) => value@.storable() && ordered_scalar(value@) == encoded@,
            None => forall|value: ScalarView|
                value.storable() ==> #[trigger] ordered_scalar(value) != encoded@,
        },
{
    proof {
        assert forall|value: ScalarView|
            value.storable() && #[trigger] ordered_scalar(value) == encoded@ implies encoded@.len()
            > 0 && ordered_as(value, encoded@[0], encoded@.skip(1)) by {
            assert(ordered_scalar(value)[0] == value.scalar_type().spec_tag());
            assert(ordered_scalar(value).skip(1) =~= ordered_value(value));
        }
    }
    if encoded.len() == 0 {
        return None;
    }
    let kind: QueryScalarType = match QueryScalarType::try_from(encoded[0]) {
        Err(_) => {
            return None;
        },
        Ok(kind) => kind,
    };
    let payload: &[u8] = slice_subrange(encoded, 1, encoded.len());
    assert(payload@ =~= encoded@.skip(1));
    match ordered_candidate(kind, payload) {
        None => None,
        Some(candidate) => {
            let again: Vec<u8> = encode_ordered_index_scalar(&candidate);
            if same_bytes(again.as_slice(), encoded) {
                Some(candidate)
            } else {
                None
            }
        },
    }
}

/// The key prefix of every index row of one root and field.
pub open spec fn index_field_prefix(root: RootId, field: Seq<char>) -> Seq<u8> {
    id_bytes(root.bits) + be_bytes(utf8(field).len(), 2) + utf8(field)
}

/// The key prefix of one exact value of a field.
pub open spec fn index_value_prefix(root: RootId, field: Seq<char>, value: ScalarView) -> Seq<u8> {
    index_field_prefix(root, field) + ordered_scalar(value)
}

/// The identity that ends an index key.
pub open spec fn index_identity(
    workspace: WorkspaceIncarnationId,
    path_digest: Seq<u8>,
    index_generation: PathIndexGenerationId,
) -> Seq<u8> {
    id_bytes(workspace.bits) + path_digest + id_bytes(index_generation.bits)
}

/// The index key of one path identity under one value.
pub open spec fn index_key(
    root: RootId,
    field: Seq<char>,
    value: ScalarView,
    workspace: WorkspaceIncarnationId,
    path_digest: Seq<u8>,
    index_generation: PathIndexGenerationId,
) -> Seq<u8> {
    index_value_prefix(root, field, value) + index_identity(
        workspace,
        path_digest,
        index_generation,
    )
}

/// Prefix for every secondary-index row of one root and field.
pub fn secondary_index_field_prefix(root: RootId, field: &QueryFieldId) -> (key: Vec<u8>)
    requires
        utf8(field@).len() <= 0xffff,
    ensures
        key@ == index_field_prefix(root, field@),
{
    let mut key: Vec<u8> = Vec::new();
    put_be(&mut key, root.bits, 16);
    assert(key@ =~= id_bytes(root.bits));
    let name: &[u8] = field.as_bytes();
    put_be(&mut key, name.len() as u128, 2);
    put_slice(&mut key, name);
    key
}

/// Prefix for one exact typed field value.
pub fn secondary_index_value_prefix(root: RootId, field: &QueryFieldId, value: &QueryScalar) -> (key:
    Vec<u8>)
    requires
        utf8(field@).len() <= 0xffff,
    ensures
        key@ == index_value_prefix(root, field@, value@),
{
    let mut key: Vec<u8> = secondary_index_field_prefix(root, field);
    put_slice(&mut key, encode_ordered_index_scalar(value).as_slice());
    key
}

/// Canonical secondary-index key for one path identity.
pub fn secondary_index_key(
    root: RootId,
    field: &QueryFieldId,
    value: &QueryScalar,
    workspace: WorkspaceIncarnationId,
    path_digest: [u8; 32],
    index_generation: PathIndexGenerationId,
) -> (key: Vec<u8>)
    requires
        utf8(field@).len() <= 0xffff,
    ensures
        key@ == index_key(root, field@, value@, workspace, path_digest@, index_generation),
{
    broadcast use crate::wire::lemma_concat_assoc;

    let mut key: Vec<u8> = secondary_index_value_prefix(root, field, value);
    put_be(&mut key, workspace.bits, 16);
    put_slice(&mut key, path_digest.as_slice());
    put_be(&mut key, index_generation.bits, 16);
    key
}

/// A decoded identity suffix.
pub type IndexIdentity = (WorkspaceIncarnationId, [u8; 32], PathIndexGenerationId);

/// Reads the sixty-four bytes of an identity suffix.
fn read_identity(suffix: &[u8]) -> (identity: IndexIdentity)
    requires
        suffix@.len() == 64,
    ensures
        index_identity(identity.0, identity.1@, identity.2) == suffix@,
{
    let workspace: &[u8] = slice_subrange(suffix, 0, 16);
    let digest: &[u8] = slice_subrange(suffix, 16, 48);
    let generation: &[u8] = slice_subrange(suffix, 48, 64);
    proof {
        crate::be::lemma_be_canonical(workspace@);
        crate::be::lemma_be_canonical(generation@);
        crate::be::lemma_pow256_values();
        assert(workspace@ + digest@ + generation@ =~= suffix@);
    }
    (
        WorkspaceIncarnationId { bits: get_be(workspace) },
        array32(digest),
        PathIndexGenerationId { bits: get_be(generation) },
    )
}

proof fn lemma_identity_injective(
    w: WorkspaceIncarnationId,
    d: Seq<u8>,
    g: PathIndexGenerationId,
    w2: WorkspaceIncarnationId,
    d2: Seq<u8>,
    g2: PathIndexGenerationId,
)
    requires
        d.len() == 32,
        d2.len() == 32,
        index_identity(w, d, g) == index_identity(w2, d2, g2),
    ensures
        w == w2,
        d == d2,
        g == g2,
{
    crate::be::lemma_pow256_values();
    crate::be::lemma_be_round_trip(w.bits as nat, 16);
    crate::be::lemma_be_round_trip(w2.bits as nat, 16);
    crate::be::lemma_be_round_trip(g.bits as nat, 16);
    crate::be::lemma_be_round_trip(g2.bits as nat, 16);
    let (a, b) = (index_identity(w, d, g), index_identity(w2, d2, g2));
    assert(a.subrange(0, 16) =~= id_bytes(w.bits));
    assert(b.subrange(0, 16) =~= id_bytes(w2.bits));
    assert(a.subrange(16, 48) =~= d);
    assert(b.subrange(16, 48) =~= d2);
    assert(a.subrange(48, 64) =~= id_bytes(g.bits));
    assert(b.subrange(48, 64) =~= id_bytes(g2.bits));
}

proof fn lemma_identity_len(w: WorkspaceIncarnationId, d: Seq<u8>, g: PathIndexGenerationId)
    requires
        d.len() == 32,
    ensures
        index_identity(w, d, g).len() == 64,
{
    crate::be::lemma_be_bytes_len(w.bits as nat, 16);
    crate::be::lemma_be_bytes_len(g.bits as nat, 16);
}

/// Decodes the identity suffix from one exact-value index scan: the identity
/// whose key under `field` and `value` is `key`, if there is one.
pub fn decode_secondary_index_key(
    root: RootId,
    field: &QueryFieldId,
    value: &QueryScalar,
    key: &[u8],
) -> (decoded: Option<IndexIdentity>)
    requires
        utf8(field@).len() <= 0xffff,
    ensures
        match decoded {
            Some(identity) => key@ == index_key(
                root,
                field@,
                value@,
                identity.0,
                identity.1@,
                identity.2,
            ),
            None => forall|w: WorkspaceIncarnationId, d: Seq<u8>, g: PathIndexGenerationId|
                d.len() == 32 ==> key@ != #[trigger] index_key(root, field@, value@, w, d, g),
        },
{
    let prefix: Vec<u8> = secondary_index_value_prefix(root, field, value);
    proof {
        assert forall|w: WorkspaceIncarnationId, d: Seq<u8>, g: PathIndexGenerationId|
            d.len() == 32 && key@ == #[trigger] index_key(root, field@, value@, w, d, g) implies key@.len()
            == prefix@.len() + 64 && key@.take(prefix@.len() as int) == prefix@ by {
            lemma_identity_len(w, d, g);
            assert(key@.take(prefix@.len() as int) =~= prefix@);
        }
    }
    if key.len() < prefix.len() || key.len() - prefix.len() != 64 {
        return None;
    }
    let head: &[u8] = slice_subrange(key, 0, prefix.len());
    assert(head@ =~= key@.take(prefix@.len() as int));
    if !same_bytes(head, prefix.as_slice()) {
        return None;
    }
    let suffix: &[u8] = slice_subrange(key, prefix.len(), key.len());
    assert(head@ + suffix@ =~= key@);
    Some(read_identity(suffix))
}

/// The locator key of one path-index generation.
pub open spec fn locator_key(
    root: RootId,
    workspace: WorkspaceIncarnationId,
    path_digest: Seq<u8>,
    index_generation: PathIndexGenerationId,
) -> Seq<u8> {
    id_bytes(root.bits) + index_identity(workspace, path_digest, index_generation)
}

/// Canonical locator key for one path-index generation.
pub fn path_index_locator_key(
    root: RootId,
    workspace: WorkspaceIncarnationId,
    path_digest: [u8; 32],
    index_generation: PathIndexGenerationId,
) -> (key: Vec<u8>)
    ensures
        key@ == locator_key(root, workspace, path_digest@, index_generation),
{
    broadcast use crate::wire::lemma_concat_assoc;

    let mut key: Vec<u8> = Vec::new();
    put_be(&mut key, root.bits, 16);
    assert(key@ =~= id_bytes(root.bits));
    put_be(&mut key, workspace.bits, 16);
    put_slice(&mut key, path_digest.as_slice());
    put_be(&mut key, index_generation.bits, 16);
    key
}

/// Decodes one exact path-index locator key: the identity whose locator key
/// under `root` is `key`, if there is one.
pub fn decode_path_index_locator_key(root: RootId, key: &[u8]) -> (decoded: Option<IndexIdentity>)
    ensures
        match decoded {
            Some(identity) => key@ == locator_key(root, identity.0, identity.1@, identity.2),
            None => forall|w: WorkspaceIncarnationId, d: Seq<u8>, g: PathIndexGenerationId|
                d.len() == 32 ==> key@ != #[trigger] locator_key(root, w, d, g),
        },
{
    let prefix: [u8; 16] = root.as_bytes();
    proof {
        assert forall|w: WorkspaceIncarnationId, d: Seq<u8>, g: PathIndexGenerationId|
            d.len() == 32 && key@ == #[trigger] locator_key(root, w, d, g) implies key@.len() == 80
            && key@.take(16) == prefix@ by {
            lemma_identity_len(w, d, g);
            crate::be::lemma_be_bytes_len(root.bits as nat, 16);
            assert(key@.take(16) =~= prefix@);
        }
    }
    if key.len() != 80 {
        return None;
    }
    let head: &[u8] = slice_subrange(key, 0, 16);
    assert(head@ =~= key@.take(16));
    if !same_bytes(head, prefix.as_slice()) {
        return None;
    }
    let suffix: &[u8] = slice_subrange(key, 16, 80);
    assert(head@ + suffix@ =~= key@);
    Some(read_identity(suffix))
}

/// Where the parts of an index key stand.
proof fn lemma_row_key_layout(
    root: RootId,
    field: Seq<char>,
    value: ScalarView,
    w: WorkspaceIncarnationId,
    d: Seq<u8>,
    g: PathIndexGenerationId,
)
    requires
        d.len() == 32,
        field_id_fault(field) is None,
    ensures
        ({
            let key = index_key(root, field, value, w, d, g);
            let n = utf8(field).len() as int;
            let end = key.len() - 64;
            &&& 1 <= n <= 128
            &&& ordered_scalar(value).len() >= 1
            &&& key.len() == 82 + n + ordered_scalar(value).len()
            &&& key.subrange(0, 16) == id_bytes(root.bits)
            &&& be_value(key.subrange(16, 18)) == n
            &&& key.subrange(18, 18 + n) == utf8(field)
            &&& key.subrange(18 + n, end) == ordered_scalar(value)
            &&& key.subrange(end, key.len() as int) == index_identity(w, d, g)
        }),
{
    let key = index_key(root, field, value, w, d, g);
    let n = utf8(field).len() as int;
    lemma_identity_len(w, d, g);
    crate::be::lemma_be_bytes_len(root.bits as nat, 16);
    crate::be::lemma_pow256_values();
    crate::be::lemma_be_round_trip(n as nat, 2);
    let end = key.len() - 64;
    assert(key.subrange(0, 16) =~= id_bytes(root.bits));
    assert(key.subrange(16, 18) =~= be_bytes(n as nat, 2));
    assert(key.subrange(18, 18 + n) =~= utf8(field));
    assert(key.subrange(18 + n, end) =~= ordered_scalar(value));
    assert(key.subrange(end, key.len() as int) =~= index_identity(w, d, g));
}

/// A decoded index row key.
pub type IndexRow = (QueryFieldId, QueryScalar, WorkspaceIncarnationId, [u8; 32], PathIndexGenerationId);

/// Whether `key` is the index key of these parts under `root`.
pub open spec fn is_row_key(
    key: Seq<u8>,
    root: RootId,
    field: Seq<char>,
    value: ScalarView,
    w: WorkspaceIncarnationId,
    d: Seq<u8>,
    g: PathIndexGenerationId,
) -> bool {
    &&& field_id_fault(field) is None
    &&& value.storable()
    &&& d.len() == 32
    &&& key == index_key(root, field, value, w, d, g)
}

/// Decodes and fully validates one index key from a root-wide scan: the parts
/// whose index key under `root` is `key`, if there are any.
pub fn decode_secondary_index_row_key(root: RootId, key: &[u8]) -> (decoded: Option<IndexRow>)
    ensures
        match decoded {
            Some(row) => is_row_key(key@, root, row.0@, row.1@, row.2, row.3@, row.4),
            None => forall|
                field: Seq<char>,
                value: ScalarView,
                w: WorkspaceIncarnationId,
                d: Seq<u8>,
                g: PathIndexGenerationId,
            |
                !(#[trigger] is_row_key(key@, root, field, value, w, d, g)),
        },
{
    let root_bytes: [u8; 16] = root.as_bytes();
    proof {
        assert forall|
            field: Seq<char>,
            value: ScalarView,
            w: WorkspaceIncarnationId,
            d: Seq<u8>,
            g: PathIndexGenerationId,
        | #[trigger] is_row_key(key@, root, field, value, w, d, g) implies key@.len() >= 84
            && key@.subrange(0, 16) == root_bytes@ && ({
            let n = utf8(field).len() as int;
            let end = key@.len() - 64;
            &&& 18 + n < end
            &&& be_value(key@.subrange(16, 18)) == n
            &&& text_of(key@.subrange(18, 18 + n)) == Some(field)
            &&& key@.subrange(18 + n, end) == ordered_scalar(value)
            &&& key@.subrange(end, key@.len() as int) == index_identity(w, d, g)
        }) by {
            lemma_row_key_layout(root, field, value, w, d, g);
            crate::text::lemma_text_of_utf8(field);
        }
    }
    if key.len() < 84 {
        return None;
    }
    let head: &[u8] = slice_subrange(key, 0, 16);
    if !same_bytes(head, root_bytes.as_slice()) {
        return None;
    }
    let identity_offset: usize = key.len() - 64;
    let size: &[u8] = slice_subrange(key, 16, 18);
    proof {
        crate::be::lemma_be_canonical(size@);
        crate::be::lemma_pow256_values();
    }
    let field_length: usize = get_be(size) as usize;
    let field_end: usize = 18 + field_length;
    if field_end >= identity_offset {
        return None;
    }
    let name: &[u8] = slice_subrange(key, 18, field_end);
    let text: String = match read_text(name) {
        None => {
            return None;
        },
        Some(text) => text,
    };
    let field: QueryFieldId = match QueryFieldId::new(text.as_str()) {
        Err(_) => {
            return None;
        },
        Ok(field) => field,
    };
    let scalar: QueryScalar = match decode_ordered_index_scalar(
        slice_subrange(key, field_end, identity_offset),
    ) {
        None => {
            return None;
        },
        Some(scalar) => scalar,
    };
    let identity: IndexIdentity = read_identity(slice_subrange(key, identity_offset, key.len()));
    proof {
        crate::text::lemma_utf8_text_of(name@);
        assert(key@ =~= index_key(root, field@, scalar@, identity.0, identity.1@, identity.2));
    }
    Some((field, scalar, identity.0, identity.1, identity.2))
}

/// Two rows of a root have the same key only if they agree on every part.
pub proof fn index_key_injective(
    root: RootId,
    a: (Seq<char>, ScalarView, WorkspaceIncarnationId, Seq<u8>, PathIndexGenerationId),
    b: (Seq<char>, ScalarView, WorkspaceIncarnationId, Seq<u8>, PathIndexGenerationId),
)
    requires
        field_id_fault(a.0) is None,
        field_id_fault(b.0) is None,
        a.3.len() == 32,
        b.3.len() == 32,
        index_key(root, a.0, a.1, a.2, a.3, a.4) == index_key(root, b.0, b.1, b.2, b.3, b.4),
    ensures
        a == b,
{
    lemma_row_key_layout(root, a.0, a.1, a.2, a.3, a.4);
    lemma_row_key_layout(root, b.0, b.1, b.2, b.3, b.4);
    crate::text::lemma_utf8_injective(a.0, b.0);
    let none = Seq::<u8>::empty();
    ordered_scalar_prefix_free(a.1, b.1, none, none);
    lemma_identity_injective(a.2, a.3, a.4, b.2, b.3, b.4);
}

/// Within one field, index rows sort by value, whatever their identities.
pub proof fn index_key_orders_values(
    root: RootId,
    field: Seq<char>,
    a: (ScalarView, Seq<u8>),
    b: (ScalarView, Seq<u8>),
)
    requires
        scalar_less(a.0, b.0),
    ensures
        lex_less(
            index_value_prefix(root, field, a.0) + a.1,
            index_value_prefix(root, field, b.0) + b.1,
        ),
{
    let prefix = index_field_prefix(root, field);
    lemma_concat_assoc(prefix, ordered_scalar(a.0), a.1);
    lemma_concat_assoc(prefix, ordered_scalar(b.0), b.1);
    ordered_scalar_preserves_order(a.0, b.0, a.1, b.1);
    crate::be::lemma_lex_common_prefix(
        prefix,
        ordered_scalar(a.0) + a.1,
        ordered_scalar(b.0) + b.1,
    );
}

/// Two locators of a root have the same key only if they agree on every part.
pub proof fn locator_key_injective(
    root: RootId,
    a: (WorkspaceIncarnationId, Seq<u8>, PathIndexGenerationId),
    b: (WorkspaceIncarnationId, Seq<u8>, PathIndexGenerationId),
)
    requires
        a.1.len() == 32,
        b.1.len() == 32,
        locator_key(root, a.0, a.1, a.2) == locator_key(root, b.0, b.1, b.2),
    ensures
        a == b,
{
    crate::be::lemma_be_bytes_len(root.bits as nat, 16);
    let (x, y) = (index_identity(a.0, a.1, a.2), index_identity(b.0, b.1, b.2));
    assert(locator_key(root, a.0, a.1, a.2).skip(16) =~= x);
    assert(locator_key(root, b.0, b.1, b.2).skip(16) =~= y);
    lemma_identity_injective(a.0, a.1, a.2, b.0, b.1, b.2);
}

/// The domain that separates path digests from every other digest.
pub open spec fn path_index_domain() -> Seq<u8> {
    utf8("nokv.metadata.path-index.v1\0"@)
}

/// The digest of a path that index rows carry.
pub open spec fn path_digest_of(path: Seq<char>) -> Seq<u8> {
    sha256_of(path_index_domain() + be_bytes(utf8(path).len(), 4) + utf8(path))
}

/// Canonical digest used by path entries, path locators and index rows.
pub fn path_index_digest(path: &NormalizedRelativePath) -> (digest: [u8; 32])
    requires
        utf8(path@).len() <= u32::MAX,
    ensures
        digest@ == path_digest_of(path@),
{
    let mut input: Vec<u8> = Vec::new();
    put_slice(&mut input, "nokv.metadata.path-index.v1\0".as_bytes());
    assert(input@ =~= path_index_domain());
    let bytes: &[u8] = path.as_bytes();
    put_be(&mut input, bytes.len() as u128, 4);
    put_slice(&mut input, bytes);
    sha256(input.as_slice())
}

/// Mints the index generation owned by one never-reused root-scoped request.
pub fn path_index_generation(request_id: RequestId) -> (generation: PathIndexGenerationId)
    ensures
        generation.bits == request_id.bits,
{
    PathIndexGenerationId { bits: request_id.bits }
}

} // verus!
