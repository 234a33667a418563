//! Strict reading of byte formats: one failure at most, in field order.
//!
//! A format is described by a chain of steps over a [`Parse`] state. Each step
//! consumes a prefix of what is left or records the first failure; after a
//! failure the remaining steps change nothing. [`Reader`] performs the steps.

use crate::be::{be_bytes, be_value, get_be, lemma_be_canonical, lemma_be_round_trip,
    lemma_pow256_values, put_be, put_slice};
use crate::ids::{array32, id_bytes};
use vstd::prelude::*;
use vstd::slice::slice_subrange;

verus! {

/// Failures that every strict format can report.
pub trait WireError: Sized {
    spec fn spec_truncated(field: &'static str, needed: usize, remaining: usize) -> Self;

    spec fn spec_trailing(count: usize) -> Self;

    spec fn spec_length_limit(field: &'static str, length: usize, max: usize) -> Self;

    spec fn spec_optional_tag(field: &'static str, value: u8) -> Self;

    spec fn spec_unknown_discriminant(type_label: &'static str, value: u8) -> Self;

    spec fn spec_zero_scalar(field: &'static str) -> Self;

    fn truncated(field: &'static str, needed: usize, remaining: usize) -> (error: Self)
        ensures
            error == Self::spec_truncated(field, needed, remaining),
    ;

    fn trailing(count: usize) -> (error: Self)
        ensures
            error == Self::spec_trailing(count),
    ;

    fn length_limit(field: &'static str, length: usize, max: usize) -> (error: Self)
        ensures
            error == Self::spec_length_limit(field, length, max),
    ;

    fn optional_tag(field: &'static str, value: u8) -> (error: Self)
        ensures
            error == Self::spec_optional_tag(field, value),
    ;

    fn unknown_discriminant(type_label: &'static str, value: u8) -> (error: Self)
        ensures
            error == Self::spec_unknown_discriminant(type_label, value),
    ;

    fn zero_scalar(field: &'static str) -> (error: Self)
        ensures
            error == Self::spec_zero_scalar(field),
    ;
}

/// What is left to read, and the first failure if there was one.
#[verifier::ext_equal]
pub struct Parse<E> {
    pub rest: Seq<u8>,
    pub err: Option<E>,
}

/// The state before anything is read.
pub open spec fn start<E>(bytes: Seq<u8>) -> Parse<E> {
    Parse { rest: bytes, err: None }
}

/// The state after a failure.
pub open spec fn fail<E>(st: Parse<E>, error: E) -> Parse<E> {
    Parse { rest: st.rest, err: Some(error) }
}

/// Fails with `error` unless `ok` holds.
pub open spec fn check<E>(st: Parse<E>, ok: bool, error: E) -> Parse<E> {
    if st.err is Some || ok {
        st
    } else {
        fail(st, error)
    }
}

/// The next `n` bytes.
pub open spec fn step_take<E: WireError>(st: Parse<E>, field: &'static str, n: nat) -> (
    Seq<u8>,
    Parse<E>,
) {
    if st.err is Some {
        (Seq::empty(), st)
    } else if st.rest.len() < n {
        (
            Seq::empty(),
            fail(st, E::spec_truncated(field, n as usize, st.rest.len() as usize)),
        )
    } else {
        (st.rest.take(n as int), start(st.rest.skip(n as int)))
    }
}

/// The next byte.
pub open spec fn step_u8<E: WireError>(st: Parse<E>, field: &'static str) -> (u8, Parse<E>) {
    let (bytes, next) = step_take(st, field, 1);
    (be_value(bytes) as u8, next)
}

/// The next two bytes as a big-endian number.
pub open spec fn step_u16<E: WireError>(st: Parse<E>, field: &'static str) -> (u16, Parse<E>) {
    let (bytes, next) = step_take(st, field, 2);
    (be_value(bytes) as u16, next)
}

/// The next four bytes as a big-endian number.
pub open spec fn step_u32<E: WireError>(st: Parse<E>, field: &'static str) -> (u32, Parse<E>) {
    let (bytes, next) = step_take(st, field, 4);
    (be_value(bytes) as u32, next)
}

/// The next eight bytes as a big-endian number.
pub open spec fn step_u64<E: WireError>(st: Parse<E>, field: &'static str) -> (u64, Parse<E>) {
    let (bytes, next) = step_take(st, field, 8);
    (be_value(bytes) as u64, next)
}

/// The next sixteen bytes as the bits of an identity.
pub open spec fn step_id<E: WireError>(st: Parse<E>, field: &'static str) -> (u128, Parse<E>) {
    let (bytes, next) = step_take(st, field, 16);
    (be_value(bytes) as u128, next)
}

/// The next thirty-two bytes.
pub open spec fn step_digest<E: WireError>(st: Parse<E>, field: &'static str) -> (
    Seq<u8>,
    Parse<E>,
) {
    step_take(st, field, 32)
}

/// A four-byte length of at most `max`, then that many bytes.
pub open spec fn step_bytes<E: WireError>(st: Parse<E>, field: &'static str, max: usize) -> (
    Seq<u8>,
    Parse<E>,
) {
    let (length, s1) = step_u32(st, field);
    let s2 = check(s1, length <= max, E::spec_length_limit(field, length as usize, max));
    step_take(s2, field, length as nat)
}

/// A byte that says whether an optional value follows.
pub open spec fn step_tag<E: WireError>(st: Parse<E>, field: &'static str) -> (bool, Parse<E>) {
    let (tag, s1) = step_u8(st, field);
    (tag == 1, check(s1, tag <= 1, E::spec_optional_tag(field, tag)))
}

/// An optional identity.
pub open spec fn step_optional_id<E: WireError>(st: Parse<E>, field: &'static str) -> (
    Option<u128>,
    Parse<E>,
) {
    let (present, s1) = step_tag(st, field);
    if s1.err is None && present {
        let (bits, s2) = step_id(s1, field);
        (Some(bits), s2)
    } else {
        (None, s1)
    }
}

/// Nothing may be left.
pub open spec fn step_end<E: WireError>(st: Parse<E>) -> Parse<E> {
    check(st, st.rest.len() == 0, E::spec_trailing(st.rest.len() as usize))
}

/// What a chain of steps gives: the first failure, or `value`.
pub open spec fn outcome<T, E>(st: Parse<E>, value: T) -> Result<T, E> {
    match st.err {
        Some(error) => Err(error),
        None => Ok(value),
    }
}

/// A result seen through the view of its value.
pub open spec fn viewed<T: View, E>(result: Result<T, E>) -> Result<T::V, E> {
    match result {
        Ok(value) => Ok(value@),
        Err(error) => Err(error),
    }
}

/// An optional identity as stored.
pub open spec fn optional_id_bytes(value: Option<u128>) -> Seq<u8> {
    match value {
        None => seq![0u8],
        Some(bits) => seq![1u8] + id_bytes(bits),
    }
}

/// A byte string with its four-byte length.
pub open spec fn sized(bytes: Seq<u8>) -> Seq<u8> {
    be_bytes(bytes.len(), 4) + bytes
}

/// What a step that ended without failure leaves in a reader.
pub open spec fn stepped<E>(st: Parse<E>, reader: Reader) -> bool {
    st == start::<E>(reader.rest())
}

/// Reads a byte string from front to back.
pub struct Reader<'a> {
    pub data: &'a [u8],
    pub at: usize,
}

impl<'a> Reader<'a> {
    /// The position is inside the data.
    pub open spec fn wf(self) -> bool {
        self.at <= self.data@.len()
    }

    /// What is left to read.
    pub open spec fn rest(self) -> Seq<u8> {
        self.data@.skip(self.at as int)
    }

    pub fn new(data: &'a [u8]) -> (reader: Reader<'a>)
        ensures
            reader.wf(),
            reader.rest() == data@,
    {
        assert(data@.skip(0) =~= data@);
        Reader { data, at: 0 }
    }

    pub fn take<E: WireError>(&mut self, field: &'static str, n: usize) -> (result: Result<
        &'a [u8],
        E,
    >)
        requires
            old(self).wf(),
        ensures
            final(self).wf(),
            match result {
                Ok(bytes) => {
                    &&& step_take(start::<E>(old(self).rest()), field, n as nat).0 == bytes@
                    &&& bytes@.len() == n
                    &&& stepped(
                        step_take(start::<E>(old(self).rest()), field, n as nat).1,
                        *final(self),
                    )
                },
                Err(error) => step_take(
                    start::<E>(old(self).rest()),
                    field,
                    n as nat,
                ).1.err == Some(error),
            },
    {
        let remaining: usize = self.data.len() - self.at;
        if remaining < n {
            return Err(E::truncated(field, n, remaining));
        }
        let bytes: &'a [u8] = slice_subrange(self.data, self.at, self.at + n);
        let ghost before = self.rest();
        self.at = self.at + n;
        assert(bytes@ =~= before.take(n as int));
        assert(self.rest() =~= before.skip(n as int));
        Ok(bytes)
    }

    pub fn u8<E: WireError>(&mut self, field: &'static str) -> (result: Result<u8, E>)
        requires
            old(self).wf(),
        ensures
            final(self).wf(),
            match result {
                Ok(value) => {
                    &&& step_u8(start::<E>(old(self).rest()), field).0 == value
                    &&& stepped(step_u8(start::<E>(old(self).rest()), field).1, *final(self))
                },
                Err(error) => step_u8(start::<E>(old(self).rest()), field).1.err == Some(error),
            },
    {
        let bytes: &[u8] = self.take(field, 1)?;
        proof {
            lemma_be_canonical(bytes@);
            lemma_pow256_values();
        }
        Ok(get_be(bytes) as u8)
    }

    pub fn u16<E: WireError>(&mut self, field: &'static str) -> (result: Result<u16, E>)
        requires
            old(self).wf(),
        ensures
            final(self).wf(),
            match result {
                Ok(value) => {
                    &&& step_u16(start::<E>(old(self).rest()), field).0 == value
                    &&& stepped(step_u16(start::<E>(old(self).rest()), field).1, *final(self))
                },
                Err(error) => step_u16(start::<E>(old(self).rest()), field).1.err == Some(error),
            },
    {
        let bytes: &[u8] = self.take(field, 2)?;
        proof {
            lemma_be_canonical(bytes@);
            lemma_pow256_values();
        }
        Ok(get_be(bytes) as u16)
    }

    pub fn u32<E: WireError>(&mut self, field: &'static str) -> (result: Result<u32, E>)
        requires
            old(self).wf(),
        ensures
            final(self).wf(),
            match result {
                Ok(value) => {
                    &&& step_u32(start::<E>(old(self).rest()), field).0 == value
                    &&& stepped(step_u32(start::<E>(old(self).rest()), field).1, *final(self))
                },
                Err(error) => step_u32(start::<E>(old(self).rest()), field).1.err == Some(error),
            },
    {
        let bytes: &[u8] = self.take(field, 4)?;
        proof {
            lemma_be_canonical(bytes@);
            lemma_pow256_values();
        }
        Ok(get_be(bytes) as u32)
    }

    pub fn u64<E: WireError>(&mut self, field: &'static str) -> (result: Result<u64, E>)
        requires
            old(self).wf(),
        ensures
            final(self).wf(),
            match result {
                Ok(value) => {
                    &&& step_u64(start::<E>(old(self).rest()), field).0 == value
                    &&& stepped(step_u64(start::<E>(old(self).rest()), field).1, *final(self))
                },
                Err(error) => step_u64(start::<E>(old(self).rest()), field).1.err == Some(error),
            },
    {
        let bytes: &[u8] = self.take(field, 8)?;
        proof {
            lemma_be_canonical(bytes@);
            lemma_pow256_values();
        }
        Ok(get_be(bytes) as u64)
    }

    pub fn id<E: WireError>(&mut self, field: &'static str) -> (result: Result<u128, E>)
        requires
            old(self).wf(),
        ensures
            final(self).wf(),
            match result {
                Ok(value) => {
                    &&& step_id(start::<E>(old(self).rest()), field).0 == value
                    &&& stepped(step_id(start::<E>(old(self).rest()), field).1, *final(self))
                },
                Err(error) => step_id(start::<E>(old(self).rest()), field).1.err == Some(error),
            },
    {
        let bytes: &[u8] = self.take(field, 16)?;
        Ok(get_be(bytes))
    }

    pub fn digest<E: WireError>(&mut self, field: &'static str) -> (result: Result<[u8; 32], E>)
        requires
            old(self).wf(),
        ensures
            final(self).wf(),
            match result {
                Ok(value) => {
                    &&& step_digest(start::<E>(old(self).rest()), field).0 == value@
                    &&& stepped(step_digest(start::<E>(old(self).rest()), field).1, *final(self))
                },
                Err(error) => step_digest(start::<E>(old(self).rest()), field).1.err == Some(error),
            },
    {
        let bytes: &[u8] = self.take(field, 32)?;
        Ok(array32(bytes))
    }

    pub fn bytes<E: WireError>(&mut self, field: &'static str, max: usize) -> (result: Result<
        &'a [u8],
        E,
    >)
        requires
            old(self).wf(),
        ensures
            final(self).wf(),
            match result {
                Ok(value) => {
                    &&& step_bytes(start::<E>(old(self).rest()), field, max).0 == value@
                    &&& value@.len() <= max
                    &&& stepped(step_bytes(start::<E>(old(self).rest()), field, max).1, *final(self))
                },
                Err(error) => step_bytes(start::<E>(old(self).rest()), field, max).1.err == Some(
                    error,
                ),
            },
    {
        let length: usize = self.u32(field)? as usize;
        if length > max {
            return Err(E::length_limit(field, length, max));
        }
        self.take(field, length)
    }

    pub fn tag<E: WireError>(&mut self, field: &'static str) -> (result: Result<bool, E>)
        requires
            old(self).wf(),
        ensures
            final(self).wf(),
            match result {
                Ok(value) => {
                    &&& step_tag(start::<E>(old(self).rest()), field).0 == value
                    &&& stepped(step_tag(start::<E>(old(self).rest()), field).1, *final(self))
                },
                Err(error) => step_tag(start::<E>(old(self).rest()), field).1.err == Some(error),
            },
    {
        let tag: u8 = self.u8(field)?;
        if tag > 1 {
            return Err(E::optional_tag(field, tag));
        }
        Ok(tag == 1)
    }

    pub fn optional_id<E: WireError>(&mut self, field: &'static str) -> (result: Result<
        Option<u128>,
        E,
    >)
        requires
            old(self).wf(),
        ensures
            final(self).wf(),
            match result {
                Ok(value) => {
                    &&& step_optional_id(start::<E>(old(self).rest()), field).0 == value
                    &&& stepped(
                        step_optional_id(start::<E>(old(self).rest()), field).1,
                        *final(self),
                    )
                },
                Err(error) => step_optional_id(start::<E>(old(self).rest()), field).1.err == Some(
                    error,
                ),
            },
    {
        let present: bool = self.tag(field)?;
        if present {
            let bits: u128 = self.id(field)?;
            Ok(Some(bits))
        } else {
            Ok(None)
        }
    }

    pub fn end<E: WireError>(&self) -> (result: Result<(), E>)
        requires
            self.wf(),
        ensures
            match result {
                Ok(_) => step_end(start::<E>(self.rest())) == start::<E>(Seq::empty())
                    && self.rest() == Seq::<u8>::empty(),
                Err(error) => step_end(start::<E>(self.rest())).err == Some(error),
            },
    {
        let count: usize = self.data.len() - self.at;
        if count > 0 {
            return Err(E::trailing(count));
        }
        assert(self.rest() =~= Seq::<u8>::empty());
        Ok(())
    }
}

/// Appends an optional identity.
pub fn put_optional_id(out: &mut Vec<u8>, value: Option<u128>)
    ensures
        final(out)@ == old(out)@ + optional_id_bytes(value),
{
    match value {
        None => {
            out.push(0);
            assert(out@ =~= old(out)@ + seq![0u8]);
        },
        Some(bits) => {
            out.push(1);
            put_be(out, bits, 16);
            assert(out@ =~= old(out)@ + (seq![1u8] + id_bytes(bits)));
        },
    }
}

/// Appends a byte string with its four-byte length.
pub fn put_sized(out: &mut Vec<u8>, bytes: &[u8])
    requires
        bytes@.len() <= u32::MAX,
    ensures
        final(out)@ == old(out)@ + sized(bytes@),
{
    put_be(out, bytes.len() as u128, 4);
    put_slice(out, bytes);
    assert(out@ =~= old(out)@ + sized(bytes@));
}

/// Appends one byte.
pub fn put_byte(out: &mut Vec<u8>, byte: u8)
    ensures
        final(out)@ == old(out)@ + seq![byte],
{
    out.push(byte);
    assert(out@ =~= old(out)@ + seq![byte]);
}

/// Concatenation associates.
pub broadcast proof fn lemma_concat_assoc(a: Seq<u8>, b: Seq<u8>, c: Seq<u8>)
    ensures
        #[trigger] ((a + b) + c) == a + (b + c),
{
    assert((a + b) + c =~= a + (b + c));
}

/// Appending nothing changes nothing.
pub broadcast proof fn lemma_concat_empty(a: Seq<u8>)
    ensures
        #[trigger] (a + Seq::<u8>::empty()) == a,
{
    assert(a + Seq::<u8>::empty() =~= a);
}

/// A step takes exactly the bytes that stand first.
pub broadcast proof fn lemma_take_back<E: WireError>(
    bytes: Seq<u8>,
    tail: Seq<u8>,
    field: &'static str,
    n: nat,
)
    requires
        bytes.len() == n,
    ensures
        #[trigger] step_take(start::<E>(bytes + tail), field, n) == (bytes, start::<E>(tail)),
{
    assert((bytes + tail).take(n as int) =~= bytes);
    assert((bytes + tail).skip(n as int) =~= tail);
}

/// What a step took, and what it left, is what stood there.
pub broadcast proof fn lemma_take_split<E: WireError>(st: Parse<E>, field: &'static str, n: nat)
    ensures
        (#[trigger] step_take(st, field, n)).1.err is None ==> {
            let (bytes, next) = step_take(st, field, n);
            &&& st.err is None
            &&& bytes.len() == n
            &&& st.rest == bytes + next.rest
        },
{
    let (bytes, next) = step_take(st, field, n);
    if next.err is None {
        assert(st.rest =~= bytes + next.rest);
    }
}

pub broadcast proof fn lemma_u8_back<E: WireError>(v: u8, tail: Seq<u8>, field: &'static str)
    ensures
        #[trigger] step_u8(start::<E>(seq![v] + tail), field) == (v, start::<E>(tail)),
{
    lemma_take_back::<E>(seq![v], tail, field, 1);
    assert(be_value(seq![v]) == v) by {
        reveal_with_fuel(be_value, 2);
        assert(seq![v].drop_last() =~= Seq::<u8>::empty());
    }
}

pub broadcast proof fn lemma_u16_back<E: WireError>(v: u16, tail: Seq<u8>, field: &'static str)
    ensures
        #[trigger] step_u16(start::<E>(be_bytes(v as nat, 2) + tail), field) == (
            v,
            start::<E>(tail),
        ),
{
    lemma_pow256_values();
    lemma_be_round_trip(v as nat, 2);
    lemma_take_back::<E>(be_bytes(v as nat, 2), tail, field, 2);
}

pub broadcast proof fn lemma_u32_back<E: WireError>(v: u32, tail: Seq<u8>, field: &'static str)
    ensures
        #[trigger] step_u32(start::<E>(be_bytes(v as nat, 4) + tail), field) == (
            v,
            start::<E>(tail),
        ),
{
    lemma_pow256_values();
    lemma_be_round_trip(v as nat, 4);
    lemma_take_back::<E>(be_bytes(v as nat, 4), tail, field, 4);
}

pub broadcast proof fn lemma_u64_back<E: WireError>(v: u64, tail: Seq<u8>, field: &'static str)
    ensures
        #[trigger] step_u64(start::<E>(be_bytes(v as nat, 8) + tail), field) == (
            v,
            start::<E>(tail),
        ),
{
    lemma_pow256_values();
    lemma_be_round_trip(v as nat, 8);
    lemma_take_back::<E>(be_bytes(v as nat, 8), tail, field, 8);
}

pub broadcast proof fn lemma_id_back<E: WireError>(v: u128, tail: Seq<u8>, field: &'static str)
    ensures
        #[trigger] step_id(start::<E>(id_bytes(v) + tail), field) == (v, start::<E>(tail)),
{
    lemma_pow256_values();
    lemma_be_round_trip(v as nat, 16);
    lemma_take_back::<E>(id_bytes(v), tail, field, 16);
}

pub broadcast proof fn lemma_digest_back<E: WireError>(
    bytes: Seq<u8>,
    tail: Seq<u8>,
    field: &'static str,
)
    requires
        bytes.len() == 32,
    ensures
        #[trigger] step_digest(start::<E>(bytes + tail), field) == (bytes, start::<E>(tail)),
{
    lemma_take_back::<E>(bytes, tail, field, 32);
}

pub broadcast proof fn lemma_bytes_back<E: WireError>(
    bytes: Seq<u8>,
    tail: Seq<u8>,
    field: &'static str,
    max: usize,
)
    requires
        bytes.len() <= max,
        bytes.len() <= u32::MAX,
    ensures
        #[trigger] step_bytes(start::<E>(sized(bytes) + tail), field, max) == (
            bytes,
            start::<E>(tail),
        ),
{
    lemma_concat_assoc(be_bytes(bytes.len(), 4), bytes, tail);
    lemma_u32_back::<E>(bytes.len() as u32, bytes + tail, field);
    lemma_take_back::<E>(bytes, tail, field, bytes.len());
}

pub broadcast proof fn lemma_tag_back<E: WireError>(v: u8, tail: Seq<u8>, field: &'static str)
    requires
        v <= 1,
    ensures
        #[trigger] step_tag(start::<E>(seq![v] + tail), field) == (v == 1, start::<E>(tail)),
{
    lemma_u8_back::<E>(v, tail, field);
}

pub broadcast proof fn lemma_optional_id_back<E: WireError>(
    v: Option<u128>,
    tail: Seq<u8>,
    field: &'static str,
)
    ensures
        #[trigger] step_optional_id(start::<E>(optional_id_bytes(v) + tail), field) == (
            v,
            start::<E>(tail),
        ),
{
    match v {
        None => {
            lemma_tag_back::<E>(0, tail, field);
        },
        Some(bits) => {
            lemma_concat_assoc(seq![1u8], id_bytes(bits), tail);
            lemma_tag_back::<E>(1, id_bytes(bits) + tail, field);
            lemma_id_back::<E>(bits, tail, field);
        },
    }
}

pub broadcast proof fn lemma_u8_split<E: WireError>(st: Parse<E>, field: &'static str)
    ensures
        (#[trigger] step_u8(st, field)).1.err is None ==> {
            let (v, next) = step_u8(st, field);
            st.err is None && st.rest == seq![v] + next.rest
        },
{
    let (bytes, next) = step_take(st, field, 1);
    lemma_take_split(st, field, 1);
    if next.err is None {
        lemma_be_canonical(bytes);
        lemma_pow256_values();
        let v = be_value(bytes) as u8;
        assert(bytes =~= seq![v]) by {
            reveal_with_fuel(be_value, 2);
            assert(bytes.drop_last() =~= Seq::<u8>::empty());
        }
    }
}

pub broadcast proof fn lemma_u16_split<E: WireError>(st: Parse<E>, field: &'static str)
    ensures
        (#[trigger] step_u16(st, field)).1.err is None ==> {
            let (v, next) = step_u16(st, field);
            st.err is None && st.rest == be_bytes(v as nat, 2) + next.rest
        },
{
    let (bytes, next) = step_take(st, field, 2);
    lemma_take_split(st, field, 2);
    lemma_be_canonical(bytes);
    lemma_pow256_values();
}

pub broadcast proof fn lemma_u32_split<E: WireError>(st: Parse<E>, field: &'static str)
    ensures
        (#[trigger] step_u32(st, field)).1.err is None ==> {
            let (v, next) = step_u32(st, field);
            st.err is None && st.rest == be_bytes(v as nat, 4) + next.rest
        },
{
    let (bytes, next) = step_take(st, field, 4);
    lemma_take_split(st, field, 4);
    lemma_be_canonical(bytes);
    lemma_pow256_values();
}

pub broadcast proof fn lemma_u64_split<E: WireError>(st: Parse<E>, field: &'static str)
    ensures
        (#[trigger] step_u64(st, field)).1.err is None ==> {
            let (v, next) = step_u64(st, field);
            st.err is None && st.rest == be_bytes(v as nat, 8) + next.rest
        },
{
    let (bytes, next) = step_take(st, field, 8);
    lemma_take_split(st, field, 8);
    lemma_be_canonical(bytes);
    lemma_pow256_values();
}

pub broadcast proof fn lemma_id_split<E: WireError>(st: Parse<E>, field: &'static str)
    ensures
        (#[trigger] step_id(st, field)).1.err is None ==> {
            let (v, next) = step_id(st, field);
            st.err is None && st.rest == id_bytes(v) + next.rest
        },
{
    let (bytes, next) = step_take(st, field, 16);
    lemma_take_split(st, field, 16);
    lemma_be_canonical(bytes);
    lemma_pow256_values();
}

pub broadcast proof fn lemma_digest_split<E: WireError>(st: Parse<E>, field: &'static str)
    ensures
        (#[trigger] step_digest(st, field)).1.err is None ==> {
            let (v, next) = step_digest(st, field);
            st.err is None && v.len() == 32 && st.rest == v + next.rest
        },
{
    lemma_take_split(st, field, 32);
}

pub broadcast proof fn lemma_bytes_split<E: WireError>(
    st: Parse<E>,
    field: &'static str,
    max: usize,
)
    ensures
        (#[trigger] step_bytes(st, field, max)).1.err is None ==> {
            let (v, next) = step_bytes(st, field, max);
            st.err is None && v.len() <= max && st.rest == sized(v) + next.rest
        },
{
    let (length, s1) = step_u32(st, field);
    let s2 = check(s1, length <= max, E::spec_length_limit(field, length as usize, max));
    let (v, next) = step_take(s2, field, length as nat);
    lemma_u32_split(st, field);
    lemma_take_split(s2, field, length as nat);
    if next.err is None {
        lemma_concat_assoc(be_bytes(length as nat, 4), v, next.rest);
    }
}

pub broadcast proof fn lemma_tag_split<E: WireError>(st: Parse<E>, field: &'static str)
    ensures
        (#[trigger] step_tag(st, field)).1.err is None ==> {
            let (present, next) = step_tag(st, field);
            st.err is None && st.rest == (if present {
                seq![1u8]
            } else {
                seq![0u8]
            }) + next.rest
        },
{
    lemma_u8_split(st, field);
}

pub broadcast proof fn lemma_optional_id_split<E: WireError>(st: Parse<E>, field: &'static str)
    ensures
        (#[trigger] step_optional_id(st, field)).1.err is None ==> {
            let (v, next) = step_optional_id(st, field);
            st.err is None && st.rest == optional_id_bytes(v) + next.rest
        },
{
    let (present, s1) = step_tag(st, field);
    lemma_tag_split(st, field);
    if s1.err is None && present {
        let (bits, s2) = step_id(s1, field);
        lemma_id_split(s1, field);
        if s2.err is None {
            lemma_concat_assoc(seq![1u8], id_bytes(bits), s2.rest);
        }
    }
}

/// Whether a failure says that bytes are missing.
pub open spec fn is_truncation<E: WireError>(error: E) -> bool {
    exists|field: &'static str, needed: usize, remaining: usize|
        error == #[trigger] E::spec_truncated(field, needed, remaining)
}

/// How reading `part` stands to reading the same bytes with `missing` behind
/// them: it has got as far, or it has met its end, or both have failed alike.
pub open spec fn cut<E: WireError>(full: Parse<E>, part: Parse<E>, missing: Seq<u8>) -> bool {
    match part.err {
        None => full.err is None && full.rest == part.rest + missing,
        Some(error) => is_truncation(error) || full.err == Some(error),
    }
}

/// How a step on `part` stands to the same step on more bytes: as before it,
/// and where it did not fail the same value was read.
pub open spec fn cut_step<T, E: WireError>(
    full: (T, Parse<E>),
    part: (T, Parse<E>),
    missing: Seq<u8>,
) -> bool {
    &&& cut(full.1, part.1, missing)
    &&& part.1.err is None ==> full.0 == part.0
}

pub proof fn lemma_split_at(bytes: Seq<u8>, n: int)
    requires
        0 <= n <= bytes.len(),
    ensures
        bytes == bytes.take(n) + bytes.skip(n),
{
    assert(bytes =~= bytes.take(n) + bytes.skip(n));
}

pub proof fn lemma_take_cut<E: WireError>(
    full: Parse<E>,
    part: Parse<E>,
    missing: Seq<u8>,
    field: &'static str,
    n: nat,
)
    requires
        cut(full, part, missing),
    ensures
        cut_step(step_take(full, field, n), step_take(part, field, n), missing),
{
    if part.err is None {
        if part.rest.len() < n {
            assert(is_truncation(
                E::spec_truncated(field, n as usize, part.rest.len() as usize),
            ));
        } else {
            assert(full.rest.take(n as int) =~= part.rest.take(n as int));
            assert(full.rest.skip(n as int) =~= part.rest.skip(n as int) + missing);
        }
    }
}

pub proof fn lemma_u8_cut<E: WireError>(
    full: Parse<E>,
    part: Parse<E>,
    missing: Seq<u8>,
    field: &'static str,
)
    requires
        cut(full, part, missing),
    ensures
        cut_step(step_u8(full, field), step_u8(part, field), missing),
{
    lemma_take_cut(full, part, missing, field, 1);
}

pub proof fn lemma_u32_cut<E: WireError>(
    full: Parse<E>,
    part: Parse<E>,
    missing: Seq<u8>,
    field: &'static str,
)
    requires
        cut(full, part, missing),
    ensures
        cut_step(step_u32(full, field), step_u32(part, field), missing),
{
    lemma_take_cut(full, part, missing, field, 4);
}

pub proof fn lemma_u64_cut<E: WireError>(
    full: Parse<E>,
    part: Parse<E>,
    missing: Seq<u8>,
    field: &'static str,
)
    requires
        cut(full, part, missing),
    ensures
        cut_step(step_u64(full, field), step_u64(part, field), missing),
{
    lemma_take_cut(full, part, missing, field, 8);
}

pub proof fn lemma_id_cut<E: WireError>(
    full: Parse<E>,
    part: Parse<E>,
    missing: Seq<u8>,
    field: &'static str,
)
    requires
        cut(full, part, missing),
    ensures
        cut_step(step_id(full, field), step_id(part, field), missing),
{
    lemma_take_cut(full, part, missing, field, 16);
}

pub proof fn lemma_digest_cut<E: WireError>(
    full: Parse<E>,
    part: Parse<E>,
    missing: Seq<u8>,
    field: &'static str,
)
    requires
        cut(full, part, missing),
    ensures
        cut_step(step_digest(full, field), step_digest(part, field), missing),
{
    lemma_take_cut(full, part, missing, field, 32);
}

pub proof fn lemma_bytes_cut<E: WireError>(
    full: Parse<E>,
    part: Parse<E>,
    missing: Seq<u8>,
    field: &'static str,
    max: usize,
)
    requires
        cut(full, part, missing),
    ensures
        cut_step(step_bytes(full, field, max), step_bytes(part, field, max), missing),
{
    lemma_u32_cut(full, part, missing, field);
    let (length, f1) = step_u32(full, field);
    let (length_part, p1) = step_u32(part, field);
    let f2 = check(f1, length <= max, E::spec_length_limit(field, length as usize, max));
    let p2 = check(
        p1,
        length_part <= max,
        E::spec_length_limit(field, length_part as usize, max),
    );
    assert(cut(f2, p2, missing));
    lemma_take_cut(f2, p2, missing, field, length as nat);
}

pub proof fn lemma_tag_cut<E: WireError>(
    full: Parse<E>,
    part: Parse<E>,
    missing: Seq<u8>,
    field: &'static str,
)
    requires
        cut(full, part, missing),
    ensures
        cut_step(step_tag(full, field), step_tag(part, field), missing),
{
    lemma_u8_cut(full, part, missing, field);
}

pub proof fn lemma_optional_id_cut<E: WireError>(
    full: Parse<E>,
    part: Parse<E>,
    missing: Seq<u8>,
    field: &'static str,
)
    requires
        cut(full, part, missing),
    ensures
        cut_step(step_optional_id(full, field), step_optional_id(part, field), missing),
{
    lemma_tag_cut(full, part, missing, field);
    lemma_id_cut(step_tag(full, field).1, step_tag(part, field).1, missing, field);
}

/// Where nothing may be left, a read that goes through with bytes behind it
/// has bytes left over, and one that met its end still has.
pub proof fn lemma_end_cut<E: WireError>(full: Parse<E>, part: Parse<E>, missing: Seq<u8>)
    requires
        cut(full, part, missing),
        missing.len() > 0,
    ensures
        step_end(full).err is None ==> (part.err is Some && is_truncation(part.err.unwrap())),
        step_end(part).err is None ==> step_end(full).err == Some(
            E::spec_trailing(missing.len() as usize),
        ),
{
    if part.err is None && part.rest.len() == 0 {
        assert(full.rest =~= missing);
    }
}

/// Steps read back what was written, in any grouping of the parts.
pub broadcast group group_read_back {
    lemma_concat_assoc,
    group_steps_back,
}

/// Steps read back what was written.
pub broadcast group group_steps_back {
    lemma_u8_back,
    lemma_u16_back,
    lemma_u32_back,
    lemma_u64_back,
    lemma_id_back,
    lemma_digest_back,
    lemma_bytes_back,
    lemma_tag_back,
    lemma_optional_id_back,
}

/// What steps accept is what is written.
pub broadcast group group_split {
    lemma_u8_split,
    lemma_u16_split,
    lemma_u32_split,
    lemma_u64_split,
    lemma_id_split,
    lemma_digest_split,
    lemma_bytes_split,
    lemma_tag_split,
    lemma_optional_id_split,
}

} // verus!
