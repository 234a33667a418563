//! Canonical typed projections and change-event payloads for workspace queries.
//!
//! A path record carries one opaque byte string so publication does not learn
//! query semantics. This module is the sole owner of those bytes. Decoding is
//! strict: field ids are sorted, unique, bounded, and every scalar has one
//! canonical representation.

use crate::be::{be_bytes, bytes_less, copy_bytes, lex_less, put_be, put_slice};
use crate::publication_records::first_fault;
use crate::text::{find_foreign_byte, first_foreign_byte, read_text, same_text, text_of, utf8};
use crate::wire::{check, fail, put_byte, put_sized, sized, start, step_bytes, step_take,
    step_u16, step_u64, step_u8, stepped, Parse, Reader, WireError};
use std::cmp::Ordering;
use vstd::prelude::*;

verus! {

/// Only supported typed-query payload format.
pub const QUERY_RECORD_VALUE_FORMAT_VERSION: u8 = 1;

/// Only supported compact secondary-index value format.
pub const SECONDARY_INDEX_VALUE_FORMAT_VERSION: u8 = 2;

/// Only supported path-index locator value format.
pub const PATH_INDEX_LOCATOR_VALUE_FORMAT_VERSION: u8 = 1;

/// Only supported durable change-event payload format.
pub const CHANGE_EVENT_VALUE_FORMAT_VERSION: u8 = 2;

/// Maximum number of fields in one path projection.
pub const MAX_TYPED_PROJECTION_FIELDS: usize = 60;

/// Maximum encoded path projection size.
pub const MAX_TYPED_PROJECTION_BYTES: usize = 65_536;

/// Maximum field-id size.
pub const MAX_QUERY_FIELD_ID_BYTES: usize = 128;

/// Maximum string or byte scalar size.
pub const MAX_QUERY_SCALAR_BYTES: usize = 65_536;

/// Strict typed-query payload failure.
#[derive(Clone, Copy, Debug, PartialEq, Eq)]
pub enum QueryRecordError {
    UnsupportedValueVersion { actual: u8, expected: u8 },
    UnknownDiscriminant { type_label: &'static str, value: u8 },
    EmptyFieldId,
    InvalidFieldId { index: usize, byte: u8 },
    ReservedFieldId { field_id: &'static str },
    FieldCountLimit { count: usize, max: usize },
    LengthLimit { field: &'static str, length: usize, max: usize },
    InvalidUtf8 { field: &'static str },
    InvalidBoolean { value: u8 },
    NonFiniteFloat,
    NonCanonicalFloatZero,
    ZeroScalar { field: &'static str },
    InvalidOptionalTag { field: &'static str, value: u8 },
    InvalidPath { reason: &'static str },
    InvalidWorkbenchId { reason: &'static str },
    NonCanonicalFieldOrder,
    NonCanonicalEncoding,
    Truncated { field: &'static str, needed: usize, remaining: usize },
    TrailingBytes { count: usize },
}

impl WireError for QueryRecordError {
    open spec fn spec_truncated(field: &'static str, needed: usize, remaining: usize) -> Self {
        QueryRecordError::Truncated { field, needed, remaining }
    }

    open spec fn spec_trailing(count: usize) -> Self {
        QueryRecordError::TrailingBytes { count }
    }

    open spec fn spec_length_limit(field: &'static str, length: usize, max: usize) -> Self {
        QueryRecordError::LengthLimit { field, length, max }
    }

    open spec fn spec_optional_tag(field: &'static str, value: u8) -> Self {
        QueryRecordError::InvalidOptionalTag { field, value }
    }

    open spec fn spec_unknown_discriminant(type_label: &'static str, value: u8) -> Self {
        QueryRecordError::UnknownDiscriminant { type_label, value }
    }

    open spec fn spec_zero_scalar(field: &'static str) -> Self {
        QueryRecordError::ZeroScalar { field }
    }

    fn truncated(field: &'static str, needed: usize, remaining: usize) -> (error: Self) {
        QueryRecordError::Truncated { field, needed, remaining }
    }

    fn trailing(count: usize) -> (error: Self) {
        QueryRecordError::TrailingBytes { count }
    }

    fn length_limit(field: &'static str, length: usize, max: usize) -> (error: Self) {
        QueryRecordError::LengthLimit { field, length, max }
    }

    fn optional_tag(field: &'static str, value: u8) -> (error: Self) {
        QueryRecordError::InvalidOptionalTag { field, value }
    }

    fn unknown_discriminant(type_label: &'static str, value: u8) -> (error: Self) {
        QueryRecordError::UnknownDiscriminant { type_label, value }
    }

    fn zero_scalar(field: &'static str) -> (error: Self) {
        QueryRecordError::ZeroScalar { field }
    }
}

/// Validated stable field identity used by predicates, projections, and groups.
#[derive(Debug, PartialEq, Eq)]
pub struct QueryFieldId {
    pub text: String,
}

impl View for QueryFieldId {
    type V = Seq<char>;

    open spec fn view(&self) -> Seq<char> {
        self.text@
    }
}

/// Why a text is no field id, if it is none.
pub open spec fn field_id_fault(text: Seq<char>) -> Option<QueryRecordError> {
    let bytes = utf8(text);
    if bytes.len() == 0 {
        Some(QueryRecordError::EmptyFieldId)
    } else if bytes.len() > MAX_QUERY_FIELD_ID_BYTES {
        Some(
            QueryRecordError::LengthLimit {
                field: "field_id",
                length: bytes.len() as usize,
                max: MAX_QUERY_FIELD_ID_BYTES,
            },
        )
    } else if first_foreign_byte(bytes) < bytes.len() {
        Some(
            QueryRecordError::InvalidFieldId {
                index: first_foreign_byte(bytes) as usize,
                byte: bytes[first_foreign_byte(bytes) as int],
            },
        )
    } else {
        None
    }
}

/// The built-in field that a text names, if it names one.
pub open spec fn builtin_field(text: Seq<char>) -> Option<&'static str> {
    if text == "body_digest_uri"@ {
        Some("body_digest_uri")
    } else if text == "content_type"@ {
        Some("content_type")
    } else if text == "generation"@ {
        Some("generation")
    } else if text == "logical_size"@ {
        Some("logical_size")
    } else if text == "manifest_id"@ {
        Some("manifest_id")
    } else if text == "path"@ {
        Some("path")
    } else if text == "producer"@ {
        Some("producer")
    } else if text == "workbench_id"@ {
        Some("workbench_id")
    } else {
        None
    }
}

fn find_builtin_field(text: &str) -> (found: Option<&'static str>)
    ensures
        found == builtin_field(text@),
{
    if same_text(text, "body_digest_uri") {
        Some("body_digest_uri")
    } else if same_text(text, "content_type") {
        Some("content_type")
    } else if same_text(text, "generation") {
        Some("generation")
    } else if same_text(text, "logical_size") {
        Some("logical_size")
    } else if same_text(text, "manifest_id") {
        Some("manifest_id")
    } else if same_text(text, "path") {
        Some("path")
    } else if same_text(text, "producer") {
        Some("producer")
    } else if same_text(text, "workbench_id") {
        Some("workbench_id")
    } else {
        None
    }
}

fn validate_field_id(field: &str) -> (result: Result<(), QueryRecordError>)
    ensures
        match result {
            Ok(_) => field_id_fault(field@) is None,
            Err(error) => field_id_fault(field@) == Some(error),
        },
{
    let bytes: &[u8] = field.as_bytes();
    if bytes.len() == 0 {
        return Err(QueryRecordError::EmptyFieldId);
    }
    if bytes.len() > MAX_QUERY_FIELD_ID_BYTES {
        return Err(
            QueryRecordError::LengthLimit {
                field: "field_id",
                length: bytes.len(),
                max: MAX_QUERY_FIELD_ID_BYTES,
            },
        );
    }
    let index: usize = find_foreign_byte(bytes);
    if index < bytes.len() {
        return Err(QueryRecordError::InvalidFieldId { index, byte: bytes[index] });
    }
    Ok(())
}

impl QueryFieldId {
    /// Accepts 1 to 128 ASCII letters, digits, `_`, `.` and `-`.
    pub fn new(value: &str) -> (id: Result<QueryFieldId, QueryRecordError>)
        ensures
            match id {
                Ok(id) => field_id_fault(value@) is None && id@ == value@,
                Err(error) => field_id_fault(value@) == Some(error),
            },
    {
        validate_field_id(value)?;
        Ok(QueryFieldId { text: value.to_owned() })
    }

    pub fn as_str(&self) -> (text: &str)
        ensures
            text@ == self@,
    {
        self.text.as_str()
    }

    pub fn as_bytes(&self) -> (bytes: &[u8])
        ensures
            bytes@ == utf8(self@),
    {
        self.text.as_str().as_bytes()
    }

    /// Whether the id names a field that every path has.
    pub fn is_builtin(&self) -> (builtin: bool)
        ensures
            builtin == (builtin_field(self@) is Some),
    {
        find_builtin_field(self.text.as_str()).is_some()
    }
}

impl Clone for QueryFieldId {
    fn clone(&self) -> (copy: Self)
        ensures
            copy == *self,
    {
        QueryFieldId { text: self.text.clone() }
    }
}

/// Field ids sort by their bytes.
pub open spec fn field_less(a: Seq<char>, b: Seq<char>) -> bool {
    lex_less(utf8(a), utf8(b))
}

/// A finite IEEE-754 value with canonical positive zero, by its bits.
#[derive(Clone, Copy, Debug, PartialEq, Eq, Structural)]
pub struct FiniteFloat {
    pub bits: u64,
}

/// Bits whose exponent is all ones are an infinity or not a number.
pub open spec fn is_finite_bits(bits: u64) -> bool {
    (bits as nat / 0x10_0000_0000_0000) % 0x800 != 0x7ff
}

/// The sign bit alone: negative zero.
pub const NEGATIVE_ZERO_BITS: u64 = 0x8000_0000_0000_0000;

impl FiniteFloat {
    /// Finite, and not negative zero.
    pub open spec fn wf(self) -> bool {
        is_finite_bits(self.bits) && self.bits != NEGATIVE_ZERO_BITS
    }

    /// The finite value with the given IEEE-754 bits; negative zero becomes
    /// zero.
    pub fn new(bits: u64) -> (result: Result<FiniteFloat, QueryRecordError>)
        ensures
            result == (if !is_finite_bits(bits) {
                Err::<FiniteFloat, QueryRecordError>(QueryRecordError::NonFiniteFloat)
            } else if bits == NEGATIVE_ZERO_BITS {
                Ok(FiniteFloat { bits: 0 })
            } else {
                Ok(FiniteFloat { bits })
            }),
            result is Ok ==> result.unwrap().wf(),
    {
        if (bits / 0x10_0000_0000_0000) % 0x800 == 0x7ff {
            return Err(QueryRecordError::NonFiniteFloat);
        }
        if bits == NEGATIVE_ZERO_BITS {
            Ok(FiniteFloat { bits: 0 })
        } else {
            Ok(FiniteFloat { bits })
        }
    }

    /// The IEEE-754 bits of the value.
    pub fn get(self) -> (bits: u64)
        ensures
            bits == self.bits,
    {
        self.bits
    }

    /// The value with exactly the given bits.
    pub fn from_canonical_bits(bits: u64) -> (result: Result<FiniteFloat, QueryRecordError>)
        ensures
            result == (if !is_finite_bits(bits) {
                Err::<FiniteFloat, QueryRecordError>(QueryRecordError::NonFiniteFloat)
            } else if bits == NEGATIVE_ZERO_BITS {
                Err(QueryRecordError::NonCanonicalFloatZero)
            } else {
                Ok(FiniteFloat { bits })
            }),
    {
        let finite: FiniteFloat = FiniteFloat::new(bits)?;
        if finite.bits != bits {
            return Err(QueryRecordError::NonCanonicalFloatZero);
        }
        Ok(finite)
    }

    /// Whether the value comes before `other` in the IEEE-754 total order.
    pub fn precedes(self, other: FiniteFloat) -> (before: bool)
        ensures
            before == (float_rank(self) < float_rank(other)),
    {
        ordered_float(self) < ordered_float(other)
    }
}

impl PartialOrd for FiniteFloat {
    fn partial_cmp(&self, other: &FiniteFloat) -> (order: Option<Ordering>) {
        if self.precedes(*other) {
            Some(Ordering::Less)
        } else if other.precedes(*self) {
            Some(Ordering::Greater)
        } else {
            Some(Ordering::Equal)
        }
    }
}

impl vstd::std_specs::cmp::PartialOrdSpecImpl for FiniteFloat {
    open spec fn obeys_partial_cmp_spec() -> bool {
        true
    }

    open spec fn partial_cmp_spec(&self, other: &FiniteFloat) -> Option<Ordering> {
        if float_rank(*self) < float_rank(*other) {
            Some(Ordering::Less)
        } else if float_rank(*other) < float_rank(*self) {
            Some(Ordering::Greater)
        } else {
            Some(Ordering::Equal)
        }
    }
}

/// The rank of a float in the IEEE-754 total order: negative values descend
/// with their bits, the others ascend above them.
pub open spec fn float_rank(value: FiniteFloat) -> nat {
    if value.bits < NEGATIVE_ZERO_BITS {
        (value.bits + 0x8000_0000_0000_0000) as nat
    } else {
        (0xffff_ffff_ffff_ffff - value.bits) as nat
    }
}

fn ordered_float(value: FiniteFloat) -> (rank: u64)
    ensures
        rank == float_rank(value),
{
    if value.bits < NEGATIVE_ZERO_BITS {
        value.bits + 0x8000_0000_0000_0000
    } else {
        0xffff_ffff_ffff_ffff - value.bits
    }
}

/// Stable scalar type advertised by the query catalog.
#[derive(Clone, Copy, Debug, PartialEq, Eq, PartialOrd, Ord, Hash, Structural)]
pub enum QueryScalarType {
    Null,
    Boolean,
    Signed,
    Unsigned,
    Float,
    Timestamp,
    Bytes,
    String,
}

impl QueryScalarType {
    /// The stored byte of each type.
    pub open spec fn spec_tag(self) -> u8 {
        match self {
            QueryScalarType::Null => 1,
            QueryScalarType::Boolean => 2,
            QueryScalarType::Signed => 3,
            QueryScalarType::Unsigned => 4,
            QueryScalarType::Float => 5,
            QueryScalarType::Timestamp => 6,
            QueryScalarType::Bytes => 7,
            QueryScalarType::String => 8,
        }
    }

    pub fn tag(self) -> (tag: u8)
        ensures
            tag == self.spec_tag(),
    {
        match self {
            QueryScalarType::Null => 1,
            QueryScalarType::Boolean => 2,
            QueryScalarType::Signed => 3,
            QueryScalarType::Unsigned => 4,
            QueryScalarType::Float => 5,
            QueryScalarType::Timestamp => 6,
            QueryScalarType::Bytes => 7,
            QueryScalarType::String => 8,
        }
    }

    /// The type stored as `value`.
    pub fn try_from(value: u8) -> (result: Result<QueryScalarType, QueryRecordError>)
        ensures
            match result {
                Ok(kind) => kind.spec_tag() == value,
                Err(error) => (value == 0 || value > 8) && error
                    == (QueryRecordError::UnknownDiscriminant {
                    type_label: "QueryScalarType",
                    value,
                }),
            },
    {
        match value {
            1 => Ok(QueryScalarType::Null),
            2 => Ok(QueryScalarType::Boolean),
            3 => Ok(QueryScalarType::Signed),
            4 => Ok(QueryScalarType::Unsigned),
            5 => Ok(QueryScalarType::Float),
            6 => Ok(QueryScalarType::Timestamp),
            7 => Ok(QueryScalarType::Bytes),
            8 => Ok(QueryScalarType::String),
            value => Err(
                QueryRecordError::UnknownDiscriminant { type_label: "QueryScalarType", value },
            ),
        }
    }
}

/// Canonical scalar supported by metadata queries.
#[derive(Debug, PartialEq, Eq)]
pub enum QueryScalar {
    Null,
    Boolean(bool),
    Signed(i64),
    Unsigned(u64),
    Float(FiniteFloat),
    Timestamp(i64),
    Bytes(Vec<u8>),
    String(String),
}

/// A scalar with its bytes and text as sequences.
#[verifier::ext_equal]
pub enum ScalarView {
    Null,
    Boolean(bool),
    Signed(i64),
    Unsigned(u64),
    Float(FiniteFloat),
    Timestamp(i64),
    Bytes(Seq<u8>),
    String(Seq<char>),
}

impl View for QueryScalar {
    type V = ScalarView;

    open spec fn view(&self) -> ScalarView {
        match self {
            QueryScalar::Null => ScalarView::Null,
            QueryScalar::Boolean(value) => ScalarView::Boolean(*value),
            QueryScalar::Signed(value) => ScalarView::Signed(*value),
            QueryScalar::Unsigned(value) => ScalarView::Unsigned(*value),
            QueryScalar::Float(value) => ScalarView::Float(*value),
            QueryScalar::Timestamp(value) => ScalarView::Timestamp(*value),
            QueryScalar::Bytes(value) => ScalarView::Bytes(value@),
            QueryScalar::String(value) => ScalarView::String(value@),
        }
    }
}

impl ScalarView {
    /// The type of a scalar.
    pub open spec fn scalar_type(self) -> QueryScalarType {
        match self {
            ScalarView::Null => QueryScalarType::Null,
            ScalarView::Boolean(_) => QueryScalarType::Boolean,
            ScalarView::Signed(_) => QueryScalarType::Signed,
            ScalarView::Unsigned(_) => QueryScalarType::Unsigned,
            ScalarView::Float(_) => QueryScalarType::Float,
            ScalarView::Timestamp(_) => QueryScalarType::Timestamp,
            ScalarView::Bytes(_) => QueryScalarType::Bytes,
            ScalarView::String(_) => QueryScalarType::String,
        }
    }

    /// A float is finite and canonical, and bytes and text are within their
    /// limit.
    pub open spec fn storable(self) -> bool {
        match self {
            ScalarView::Float(value) => value.wf(),
            ScalarView::Bytes(value) => value.len() <= MAX_QUERY_SCALAR_BYTES,
            ScalarView::String(value) => utf8(value).len() <= MAX_QUERY_SCALAR_BYTES,
            _ => true,
        }
    }
}

/// Scalars sort by type, and within a type by value; bytes and texts sort
/// bytewise.
pub open spec fn scalar_less(a: ScalarView, b: ScalarView) -> bool {
    if a.scalar_type() != b.scalar_type() {
        a.scalar_type().spec_tag() < b.scalar_type().spec_tag()
    } else {
        match (a, b) {
            (ScalarView::Boolean(x), ScalarView::Boolean(y)) => !x && y,
            (ScalarView::Signed(x), ScalarView::Signed(y)) => x < y,
            (ScalarView::Unsigned(x), ScalarView::Unsigned(y)) => x < y,
            (ScalarView::Float(x), ScalarView::Float(y)) => float_rank(x) < float_rank(y),
            (ScalarView::Timestamp(x), ScalarView::Timestamp(y)) => x < y,
            (ScalarView::Bytes(x), ScalarView::Bytes(y)) => lex_less(x, y),
            (ScalarView::String(x), ScalarView::String(y)) => lex_less(utf8(x), utf8(y)),
            _ => false,
        }
    }
}

impl PartialOrd for QueryScalar {
    fn partial_cmp(&self, other: &QueryScalar) -> (order: Option<Ordering>) {
        if self.precedes(other) {
            Some(Ordering::Less)
        } else if other.precedes(self) {
            Some(Ordering::Greater)
        } else {
            Some(Ordering::Equal)
        }
    }
}

impl vstd::std_specs::cmp::PartialOrdSpecImpl for QueryScalar {
    open spec fn obeys_partial_cmp_spec() -> bool {
        true
    }

    open spec fn partial_cmp_spec(&self, other: &QueryScalar) -> Option<Ordering> {
        if scalar_less(self@, other@) {
            Some(Ordering::Less)
        } else if scalar_less(other@, self@) {
            Some(Ordering::Greater)
        } else {
            Some(Ordering::Equal)
        }
    }
}

impl QueryScalar {
    pub fn scalar_type(&self) -> (kind: QueryScalarType)
        ensures
            kind == self@.scalar_type(),
    {
        match self {
            QueryScalar::Null => QueryScalarType::Null,
            QueryScalar::Boolean(_) => QueryScalarType::Boolean,
            QueryScalar::Signed(_) => QueryScalarType::Signed,
            QueryScalar::Unsigned(_) => QueryScalarType::Unsigned,
            QueryScalar::Float(_) => QueryScalarType::Float,
            QueryScalar::Timestamp(_) => QueryScalarType::Timestamp,
            QueryScalar::Bytes(_) => QueryScalarType::Bytes,
            QueryScalar::String(_) => QueryScalarType::String,
        }
    }

    /// The stored byte of the scalar's type.
    pub fn discriminant(&self) -> (tag: u8)
        ensures
            tag == self@.scalar_type().spec_tag(),
    {
        self.scalar_type().tag()
    }

    /// Whether the scalar sorts before `other`.
    pub fn precedes(&self, other: &QueryScalar) -> (before: bool)
        ensures
            before == scalar_less(self@, other@),
    {
        let (left, right) = (self.discriminant(), other.discriminant());
        if left != right {
            return left < right;
        }
        match (self, other) {
            (QueryScalar::Boolean(x), QueryScalar::Boolean(y)) => !*x && *y,
            (QueryScalar::Signed(x), QueryScalar::Signed(y)) => *x < *y,
            (QueryScalar::Unsigned(x), QueryScalar::Unsigned(y)) => *x < *y,
            (QueryScalar::Float(x), QueryScalar::Float(y)) => x.precedes(*y),
            (QueryScalar::Timestamp(x), QueryScalar::Timestamp(y)) => *x < *y,
            (QueryScalar::Bytes(x), QueryScalar::Bytes(y)) => bytes_less(
                x.as_slice(),
                y.as_slice(),
            ),
            (QueryScalar::String(x), QueryScalar::String(y)) => bytes_less(
                x.as_str().as_bytes(),
                y.as_str().as_bytes(),
            ),
            _ => false,
        }
    }

    /// A scalar equal to this one.
    pub fn duplicate(&self) -> (copy: QueryScalar)
        ensures
            copy@ == self@,
    {
        match self {
            QueryScalar::Null => QueryScalar::Null,
            QueryScalar::Boolean(value) => QueryScalar::Boolean(*value),
            QueryScalar::Signed(value) => QueryScalar::Signed(*value),
            QueryScalar::Unsigned(value) => QueryScalar::Unsigned(*value),
            QueryScalar::Float(value) => QueryScalar::Float(*value),
            QueryScalar::Timestamp(value) => QueryScalar::Timestamp(*value),
            QueryScalar::Bytes(value) => QueryScalar::Bytes(copy_bytes(value.as_slice())),
            QueryScalar::String(value) => QueryScalar::String(value.clone()),
        }
    }
}

/// A two's-complement number as an unsigned one.
pub open spec fn signed_bits(value: i64) -> nat {
    if value >= 0 {
        value as nat
    } else {
        (value + 0x1_0000_0000_0000_0000) as nat
    }
}

/// The number with the given two's-complement bits.
pub open spec fn signed_of(bits: u64) -> i64 {
    if bits < 0x8000_0000_0000_0000 {
        bits as i64
    } else {
        (bits - 0x1_0000_0000_0000_0000) as i64
    }
}

fn to_signed_bits(value: i64) -> (bits: u64)
    ensures
        bits == signed_bits(value),
{
    if value >= 0 {
        value as u64
    } else {
        (value as i128 + 0x1_0000_0000_0000_0000) as u64
    }
}

fn from_signed_bits(bits: u64) -> (value: i64)
    ensures
        value == signed_of(bits),
{
    if bits < 0x8000_0000_0000_0000 {
        bits as i64
    } else {
        (bits as i128 - 0x1_0000_0000_0000_0000) as i64
    }
}

/// The stored form of a scalar: its type byte, then its value.
pub open spec fn scalar_bytes(value: ScalarView) -> Seq<u8> {
    seq![value.scalar_type().spec_tag()] + match value {
        ScalarView::Null => Seq::empty(),
        ScalarView::Boolean(value) => seq![if value {
            1u8
        } else {
            0u8
        }],
        ScalarView::Signed(value) => be_bytes(signed_bits(value), 8),
        ScalarView::Unsigned(value) => be_bytes(value as nat, 8),
        ScalarView::Float(value) => be_bytes(value.bits as nat, 8),
        ScalarView::Timestamp(value) => be_bytes(signed_bits(value), 8),
        ScalarView::Bytes(value) => sized(value),
        ScalarView::String(value) => sized(utf8(value)),
    }
}

/// A scalar: its type byte, then a value of that type in its one form.
#[verifier::opaque]
pub open spec fn step_scalar(st: Parse<QueryRecordError>) -> (
    ScalarView,
    Parse<QueryRecordError>,
) {
    let (tag, s1) = step_u8(st, "scalar_type");
    if s1.err is Some {
        (ScalarView::Null, s1)
    } else if tag == 1 {
        (ScalarView::Null, s1)
    } else if tag == 2 {
        let (value, s2) = step_u8(s1, "boolean");
        (
            ScalarView::Boolean(value == 1),
            check(s2, value <= 1, QueryRecordError::InvalidBoolean { value }),
        )
    } else if tag == 3 {
        let (bits, s2) = step_u64(s1, "signed");
        (ScalarView::Signed(signed_of(bits)), s2)
    } else if tag == 4 {
        let (value, s2) = step_u64(s1, "unsigned");
        (ScalarView::Unsigned(value), s2)
    } else if tag == 5 {
        let (bits, s2) = step_u64(s1, "float");
        let s3 = check(s2, is_finite_bits(bits), QueryRecordError::NonFiniteFloat);
        (
            ScalarView::Float(FiniteFloat { bits }),
            check(s3, bits != NEGATIVE_ZERO_BITS, QueryRecordError::NonCanonicalFloatZero),
        )
    } else if tag == 6 {
        let (bits, s2) = step_u64(s1, "timestamp");
        (ScalarView::Timestamp(signed_of(bits)), s2)
    } else if tag == 7 {
        let (bytes, s2) = step_bytes(s1, "bytes_scalar", MAX_QUERY_SCALAR_BYTES);
        (ScalarView::Bytes(bytes), s2)
    } else if tag == 8 {
        let (bytes, s2) = step_bytes(s1, "string_scalar", MAX_QUERY_SCALAR_BYTES);
        (
            ScalarView::String(text_of(bytes).unwrap()),
            check(
                s2,
                text_of(bytes) is Some,
                QueryRecordError::InvalidUtf8 { field: "string_scalar" },
            ),
        )
    } else {
        (
            ScalarView::Null,
            fail(
                s1,
                QueryRecordError::UnknownDiscriminant { type_label: "QueryScalarType", value: tag },
            ),
        )
    }
}

/// After a failure nothing is read.
broadcast proof fn lemma_scalar_after_failure(st: Parse<QueryRecordError>)
    requires
        st.err is Some,
    ensures
        (#[trigger] step_scalar(st)).1 == st,
{
    reveal(step_scalar);
}

fn read_scalar(reader: &mut Reader) -> (result: Result<QueryScalar, QueryRecordError>)
    requires
        old(reader).wf(),
    ensures
        final(reader).wf(),
        match result {
            Ok(value) => {
                &&& step_scalar(start(old(reader).rest())).0 == value@
                &&& stepped(step_scalar(start(old(reader).rest())).1, *final(reader))
            },
            Err(error) => step_scalar(start(old(reader).rest())).1.err == Some(error),
        },
{
    proof {
        reveal(step_scalar);
    }
    let tag: u8 = reader.u8("scalar_type")?;
    let kind: QueryScalarType = QueryScalarType::try_from(tag)?;
    match kind {
        QueryScalarType::Null => Ok(QueryScalar::Null),
        QueryScalarType::Boolean => {
            let value: u8 = reader.u8("boolean")?;
            if value > 1 {
                return Err(QueryRecordError::InvalidBoolean { value });
            }
            Ok(QueryScalar::Boolean(value == 1))
        },
        QueryScalarType::Signed => {
            let bits: u64 = reader.u64("signed")?;
            Ok(QueryScalar::Signed(from_signed_bits(bits)))
        },
        QueryScalarType::Unsigned => {
            let value: u64 = reader.u64("unsigned")?;
            Ok(QueryScalar::Unsigned(value))
        },
        QueryScalarType::Float => {
            let bits: u64 = reader.u64("float")?;
            let value: FiniteFloat = FiniteFloat::from_canonical_bits(bits)?;
            Ok(QueryScalar::Float(value))
        },
        QueryScalarType::Timestamp => {
            let bits: u64 = reader.u64("timestamp")?;
            Ok(QueryScalar::Timestamp(from_signed_bits(bits)))
        },
        QueryScalarType::Bytes => {
            let bytes: &[u8] = reader.bytes("bytes_scalar", MAX_QUERY_SCALAR_BYTES)?;
            Ok(QueryScalar::Bytes(copy_bytes(bytes)))
        },
        QueryScalarType::String => {
            let bytes: &[u8] = reader.bytes("string_scalar", MAX_QUERY_SCALAR_BYTES)?;
            match read_text(bytes) {
                None => Err(QueryRecordError::InvalidUtf8 { field: "string_scalar" }),
                Some(text) => Ok(QueryScalar::String(text)),
            }
        },
    }
}

fn put_scalar(out: &mut Vec<u8>, value: &QueryScalar)
    requires
        value@.scalar_type() == QueryScalarType::Bytes ==> value@->Bytes_0.len() <= u32::MAX,
        value@.scalar_type() == QueryScalarType::String ==> utf8(value@->String_0).len()
            <= u32::MAX,
    ensures
        final(out)@ == old(out)@ + scalar_bytes(value@),
{
    broadcast use crate::wire::lemma_concat_assoc, crate::wire::lemma_concat_empty;

    put_byte(out, value.discriminant());
    match value {
        QueryScalar::Null => {},
        QueryScalar::Boolean(value) => {
            let byte: u8 = if *value {
                1
            } else {
                0
            };
            put_byte(out, byte);
        },
        QueryScalar::Signed(value) => put_be(out, to_signed_bits(*value) as u128, 8),
        QueryScalar::Unsigned(value) => put_be(out, *value as u128, 8),
        QueryScalar::Float(value) => put_be(out, value.bits as u128, 8),
        QueryScalar::Timestamp(value) => put_be(out, to_signed_bits(*value) as u128, 8),
        QueryScalar::Bytes(value) => put_sized(out, value.as_slice()),
        QueryScalar::String(value) => put_sized(out, value.as_str().as_bytes()),
    }
}

proof fn lemma_scalar_back(value: ScalarView, tail: Seq<u8>)
    requires
        value.storable(),
    ensures
        step_scalar(start(scalar_bytes(value) + tail)) == (value, start::<QueryRecordError>(tail)),
{
    reveal(step_scalar);
    broadcast use crate::wire::group_read_back, crate::text::lemma_text_of_utf8;

    let tag = value.scalar_type().spec_tag();
    assert(Seq::<u8>::empty() + tail =~= tail);
    match value {
        ScalarView::Signed(value) => {
            let bits = signed_bits(value) as u64;
            assert(be_bytes(signed_bits(value), 8) == be_bytes(bits as nat, 8));
        },
        ScalarView::Timestamp(value) => {
            let bits = signed_bits(value) as u64;
            assert(be_bytes(signed_bits(value), 8) == be_bytes(bits as nat, 8));
        },
        _ => {},
    }
}

proof fn lemma_scalar_split(st: Parse<QueryRecordError>)
    ensures
        step_scalar(st).1.err is None ==> {
            let (value, next) = step_scalar(st);
            st.err is None && value.storable() && st.rest == scalar_bytes(value) + next.rest
        },
{
    reveal(step_scalar);
    broadcast use crate::wire::group_split, crate::wire::lemma_concat_assoc;
    broadcast use crate::text::lemma_utf8_text_of;

    let (value, next) = step_scalar(st);
    if next.err is None {
        assert(Seq::<u8>::empty() + next.rest =~= next.rest);
    }
}

/// A projection field: its id and value.
pub type FieldView = (Seq<char>, ScalarView);

/// The stored form of one field.
pub open spec fn field_bytes(field: FieldView) -> Seq<u8> {
    be_bytes(utf8(field.0).len(), 2) + utf8(field.0) + scalar_bytes(field.1)
}

/// The stored forms of the fields, in order.
pub open spec fn fields_bytes(fields: Seq<FieldView>) -> Seq<u8>
    decreases fields.len(),
{
    if fields.len() == 0 {
        Seq::empty()
    } else {
        field_bytes(fields[0]) + fields_bytes(fields.skip(1))
    }
}

/// The stored form of a projection.
pub open spec fn projection_bytes(fields: Seq<FieldView>) -> Seq<u8> {
    seq![QUERY_RECORD_VALUE_FORMAT_VERSION] + be_bytes(fields.len(), 2) + fields_bytes(fields)
}

/// Field ids are strictly increasing.
pub open spec fn fields_sorted(fields: Seq<FieldView>) -> bool {
    forall|i: int, j: int|
        #![trigger fields[i], fields[j]]
        0 <= i < j < fields.len() ==> field_less(fields[i].0, fields[j].0)
}

/// Why a field cannot be stored, if it cannot.
pub open spec fn field_fault(field: FieldView) -> Option<QueryRecordError> {
    first_fault(
        field_id_fault(field.0),
        match builtin_field(field.0) {
            Some(field_id) => Some(QueryRecordError::ReservedFieldId { field_id }),
            None => match field.1 {
                ScalarView::Bytes(value) if value.len() > MAX_QUERY_SCALAR_BYTES => Some(
                    QueryRecordError::LengthLimit {
                        field: "bytes_scalar",
                        length: value.len() as usize,
                        max: MAX_QUERY_SCALAR_BYTES,
                    },
                ),
                ScalarView::String(value) if utf8(value).len() > MAX_QUERY_SCALAR_BYTES => Some(
                    QueryRecordError::LengthLimit {
                        field: "string_scalar",
                        length: utf8(value).len() as usize,
                        max: MAX_QUERY_SCALAR_BYTES,
                    },
                ),
                _ => None,
            },
        },
    )
}

/// The fault of the first field that has one.
pub open spec fn fields_fault(fields: Seq<FieldView>) -> Option<QueryRecordError>
    decreases fields.len(),
{
    if fields.len() == 0 {
        None
    } else {
        first_fault(field_fault(fields[0]), fields_fault(fields.skip(1)))
    }
}

/// Why a projection cannot be stored, if it cannot: too many fields, a faulty
/// field, or a stored form over the limit, in this order.
pub open spec fn projection_fault(fields: Seq<FieldView>) -> Option<QueryRecordError> {
    if fields.len() > MAX_TYPED_PROJECTION_FIELDS {
        Some(
            QueryRecordError::FieldCountLimit {
                count: fields.len() as usize,
                max: MAX_TYPED_PROJECTION_FIELDS,
            },
        )
    } else if fields_fault(fields) is Some {
        fields_fault(fields)
    } else if projection_bytes(fields).len() > MAX_TYPED_PROJECTION_BYTES {
        Some(
            QueryRecordError::LengthLimit {
                field: "typed_projection",
                length: projection_bytes(fields).len() as usize,
                max: MAX_TYPED_PROJECTION_BYTES,
            },
        )
    } else {
        None
    }
}

/// Floats of a projection are finite and canonical.
pub open spec fn floats_canonical(fields: Seq<FieldView>) -> bool {
    forall|i: int|
        0 <= i < fields.len() ==> match (#[trigger] fields[i]).1 {
            ScalarView::Float(value) => value.wf(),
            _ => true,
        }
}

/// The fault of a list is that of its first part, then that of the rest.
proof fn lemma_fields_fault_split(fields: Seq<FieldView>, i: int)
    requires
        0 <= i < fields.len(),
    ensures
        fields_fault(fields.take(i + 1)) == first_fault(
            fields_fault(fields.take(i)),
            field_fault(fields[i]),
        ),
    decreases i,
{
    let part = fields.take(i + 1);
    if i == 0 {
        assert(fields_fault(fields.take(0)) is None);
        assert(fields_fault(part.skip(1)) is None);
        assert(part[0] == fields[0]);
    } else {
        assert(part[0] == fields[0] && fields.take(i)[0] == fields[0]);
        lemma_fields_fault_split(fields.skip(1), i - 1);
        assert(part.skip(1) =~= fields.skip(1).take(i));
        assert(fields.take(i).skip(1) =~= fields.skip(1).take(i - 1));
        assert(fields.skip(1)[i - 1] == fields[i]);
    }
}

/// A faulty field makes the whole list faulty, with the fault of the prefix.
proof fn lemma_fields_fault_prefix(fields: Seq<FieldView>, i: int)
    requires
        0 <= i <= fields.len(),
        fields_fault(fields.take(i)) is Some,
    ensures
        fields_fault(fields) == fields_fault(fields.take(i)),
    decreases fields.len(),
{
    if i > 0 && field_fault(fields[0]) is None {
        assert(fields.take(i).skip(1) =~= fields.skip(1).take(i - 1));
        lemma_fields_fault_prefix(fields.skip(1), i - 1);
    }
}

/// One more field appends its stored form.
proof fn lemma_fields_bytes_split(fields: Seq<FieldView>, i: int)
    requires
        0 <= i < fields.len(),
    ensures
        fields_bytes(fields.take(i + 1)) == fields_bytes(fields.take(i)) + field_bytes(fields[i]),
    decreases i,
{
    let part = fields.take(i + 1);
    assert(part[0] == fields[0]);
    if i == 0 {
        assert(fields_bytes(fields.take(0)) == Seq::<u8>::empty());
        assert(fields_bytes(part.skip(1)) == Seq::<u8>::empty());
        assert(field_bytes(fields[0]) + Seq::<u8>::empty() =~= Seq::<u8>::empty() + field_bytes(
            fields[0],
        ));
    } else {
        let before = fields.take(i);
        assert(before[0] == fields[0]);
        lemma_fields_bytes_split(fields.skip(1), i - 1);
        assert(part.skip(1) =~= fields.skip(1).take(i));
        assert(before.skip(1) =~= fields.skip(1).take(i - 1));
        assert(fields.skip(1)[i - 1] == fields[i]);
        crate::wire::lemma_concat_assoc(
            field_bytes(fields[0]),
            fields_bytes(before.skip(1)),
            field_bytes(fields[i]),
        );
    }
}

/// A sorted collection of fields, one value for each id.
#[derive(Debug, PartialEq, Eq)]
pub struct QueryFields {
    pub entries: Vec<(QueryFieldId, QueryScalar)>,
}

/// A field entry seen through its parts.
pub open spec fn entry_view(entry: (QueryFieldId, QueryScalar)) -> FieldView {
    (entry.0@, entry.1@)
}

impl View for QueryFields {
    type V = Seq<FieldView>;

    open spec fn view(&self) -> Seq<FieldView> {
        self.entries@.map_values(|entry: (QueryFieldId, QueryScalar)| entry_view(entry))
    }
}

/// Whether the collection holds `value` under `name`.
pub open spec fn holds(fields: Seq<FieldView>, name: Seq<char>, value: ScalarView) -> bool {
    fields.contains((name, value))
}

impl QueryFields {
    /// Ids are strictly increasing.
    pub open spec fn wf(self) -> bool {
        fields_sorted(self@)
    }

    /// No fields.
    pub fn new() -> (fields: QueryFields)
        ensures
            fields.wf(),
            fields@ == Seq::<FieldView>::empty(),
    {
        let fields = QueryFields { entries: Vec::new() };
        assert(fields@ =~= Seq::<FieldView>::empty());
        fields
    }

    pub fn len(&self) -> (count: usize)
        ensures
            count == self@.len(),
    {
        self.entries.len()
    }

    pub fn is_empty(&self) -> (empty: bool)
        ensures
            empty == (self@.len() == 0),
    {
        self.entries.len() == 0
    }

    /// The position of the first id that is not below `field`.
    fn position(&self, field: &QueryFieldId) -> (at: usize)
        requires
            self.wf(),
        ensures
            at <= self@.len(),
            forall|i: int| 0 <= i < at ==> field_less(#[trigger] self@[i].0, field@),
            at < self@.len() ==> !field_less(self@[at as int].0, field@),
    {
        let mut at: usize = 0;
        while at < self.entries.len() && bytes_less(
            self.entries[at].0.as_bytes(),
            field.as_bytes(),
        )
            invariant
                at <= self@.len(),
                self@.len() == self.entries@.len(),
                forall|i: int| 0 <= i < at ==> field_less(#[trigger] self@[i].0, field@),
            decreases self@.len() - at,
        {
            assert(self@[at as int].0 == self.entries@[at as int].0@);
            at = at + 1;
        }
        if at < self.entries.len() {
            assert(self@[at as int].0 == self.entries@[at as int].0@);
        }
        at
    }

    /// Holds `value` under `field` from now on; other ids keep theirs.
    pub fn insert(&mut self, field: QueryFieldId, value: QueryScalar)
        requires
            old(self).wf(),
        ensures
            final(self).wf(),
            forall|name: Seq<char>, held: ScalarView|
                holds(final(self)@, name, held) <==> (if name == field@ {
                    held == value@
                } else {
                    holds(old(self)@, name, held)
                }),
    {
        let at: usize = self.position(&field);
        let ghost before = self@;
        let ghost pair = (field@, value@);
        proof {
            assert forall|i: int| at < i < before.len() implies field_less(
                field@,
                #[trigger] before[i].0,
            ) by {
                let middle = before[at as int].0;
                assert(field_less(middle, before[i].0));
                if middle != field@ {
                    lemma_field_total(middle, field@);
                    lemma_field_transitive(field@, middle, before[i].0);
                }
            }
            lemma_field_irreflexive(field@);
        }
        if at < self.entries.len() && same_text(self.entries[at].0.as_str(), field.as_str()) {
            self.entries.set(at, (field, value));
            assert(self@ =~= before.update(at as int, pair));
            proof {
                assert forall|name: Seq<char>, held: ScalarView|
                    holds(self@, name, held) <==> (if name == field@ {
                        held == value@
                    } else {
                        holds(before, name, held)
                    }) by {
                    lemma_updated_holds(before, at as int, pair, name, held);
                }
            }
        } else {
            proof {
                if at < before.len() {
                    assert(before[at as int].0 != field@);
                    lemma_field_total(before[at as int].0, field@);
                }
            }
            self.entries.insert(at, (field, value));
            assert(self@ =~= before.insert(at as int, pair));
            proof {
                assert forall|name: Seq<char>, held: ScalarView|
                    holds(self@, name, held) <==> (if name == field@ {
                        held == value@
                    } else {
                        holds(before, name, held)
                    }) by {
                    lemma_inserted_holds(before, at as int, pair, name, held);
                }
            }
        }
    }

    /// The value held under `field`, if there is one.
    pub fn get(&self, field: &QueryFieldId) -> (value: Option<&QueryScalar>)
        requires
            self.wf(),
        ensures
            match value {
                Some(value) => holds(self@, field@, value@),
                None => forall|held: ScalarView| !holds(self@, field@, held),
            },
    {
        let at: usize = self.position(field);
        if at < self.entries.len() && same_text(self.entries[at].0.as_str(), field.as_str()) {
            assert(self@[at as int] == (field@, self.entries@[at as int].1@));
            Some(&self.entries[at].1)
        } else {
            proof {
                lemma_field_irreflexive(field@);
                assert forall|held: ScalarView| !holds(self@, field@, held) by {
                    if holds(self@, field@, held) {
                        let i = choose|i: int| 0 <= i < self@.len() && self@[i] == (field@, held);
                        assert(i >= at);
                        assert(self@[at as int].0 != field@);
                        assert(i > at);
                        assert(field_less(self@[at as int].0, self@[i].0));
                    }
                }
            }
            None
        }
    }
}

proof fn lemma_field_irreflexive(a: Seq<char>)
    ensures
        !field_less(a, a),
{
    crate::be::lemma_lex_irreflexive(utf8(a));
}

proof fn lemma_field_transitive(a: Seq<char>, b: Seq<char>, c: Seq<char>)
    requires
        field_less(a, b),
        field_less(b, c),
    ensures
        field_less(a, c),
{
    crate::be::lemma_lex_transitive(utf8(a), utf8(b), utf8(c));
}

proof fn lemma_field_total(a: Seq<char>, b: Seq<char>)
    requires
        a != b,
    ensures
        field_less(a, b) || field_less(b, a),
{
    if utf8(a) == utf8(b) {
        crate::text::lemma_utf8_injective(a, b);
    }
    crate::be::lemma_lex_total(utf8(a), utf8(b));
}

proof fn lemma_updated_holds(
    fields: Seq<FieldView>,
    at: int,
    pair: FieldView,
    name: Seq<char>,
    held: ScalarView,
)
    requires
        0 <= at < fields.len(),
        fields_sorted(fields),
        fields[at].0 == pair.0,
    ensures
        holds(fields.update(at, pair), name, held) <==> (if name == pair.0 {
            held == pair.1
        } else {
            holds(fields, name, held)
        }),
{
    let next = fields.update(at, pair);
    assert(next[at] == pair);
    if holds(next, name, held) {
        let i = choose|i: int| 0 <= i < next.len() && next[i] == (name, held);
        if i != at {
            assert(fields[i] == (name, held));
            lemma_field_irreflexive(name);
            if i < at {
                assert(field_less(fields[i].0, fields[at].0));
            } else {
                assert(field_less(fields[at].0, fields[i].0));
            }
        }
    }
    if name != pair.0 && holds(fields, name, held) {
        let i = choose|i: int| 0 <= i < fields.len() && fields[i] == (name, held);
        assert(next[i] == (name, held));
    }
}

proof fn lemma_inserted_holds(
    fields: Seq<FieldView>,
    at: int,
    pair: FieldView,
    name: Seq<char>,
    held: ScalarView,
)
    requires
        0 <= at <= fields.len(),
        forall|i: int| 0 <= i < fields.len() ==> (#[trigger] fields[i]).0 != pair.0,
    ensures
        holds(fields.insert(at, pair), name, held) <==> (if name == pair.0 {
            held == pair.1
        } else {
            holds(fields, name, held)
        }),
{
    let next = fields.insert(at, pair);
    assert(next[at] == pair);
    if holds(next, name, held) {
        let i = choose|i: int| 0 <= i < next.len() && next[i] == (name, held);
        if i < at {
            assert(fields[i] == (name, held));
        } else if i > at {
            assert(fields[i - 1] == (name, held));
        }
    }
    if name != pair.0 && holds(fields, name, held) {
        let i = choose|i: int| 0 <= i < fields.len() && fields[i] == (name, held);
        if i < at {
            assert(next[i] == (name, held));
        } else {
            assert(next[i + 1] == (name, held));
        }
    }
}

/// The expected format version stands first.
pub open spec fn step_query_version(st: Parse<QueryRecordError>, expected: u8) -> Parse<
    QueryRecordError,
> {
    let (actual, s1) = step_u8(st, "value_format_version");
    check(
        s1,
        actual == expected,
        QueryRecordError::UnsupportedValueVersion { actual, expected },
    )
}

fn read_query_version(reader: &mut Reader, expected: u8) -> (result: Result<(), QueryRecordError>)
    requires
        old(reader).wf(),
    ensures
        final(reader).wf(),
        match result {
            Ok(_) => stepped(
                step_query_version(start(old(reader).rest()), expected),
                *final(reader),
            ),
            Err(error) => step_query_version(start(old(reader).rest()), expected).err == Some(
                error,
            ),
        },
{
    let actual: u8 = reader.u8("value_format_version")?;
    if actual != expected {
        return Err(QueryRecordError::UnsupportedValueVersion { actual, expected });
    }
    Ok(())
}

/// A field id: a two-byte length of at most 128, then valid text.
pub open spec fn step_field_id(st: Parse<QueryRecordError>) -> (
    Seq<char>,
    Parse<QueryRecordError>,
) {
    let (length, s1) = step_u16(st, "field_id");
    let s2 = check(
        s1,
        length <= MAX_QUERY_FIELD_ID_BYTES,
        QueryRecordError::LengthLimit {
            field: "field_id",
            length: length as usize,
            max: MAX_QUERY_FIELD_ID_BYTES,
        },
    );
    let (bytes, s3) = step_take(s2, "field_id", length as nat);
    let s4 = check(
        s3,
        text_of(bytes) is Some,
        QueryRecordError::InvalidUtf8 { field: "field_id" },
    );
    let text = text_of(bytes).unwrap();
    (text, check_query_fault(s4, field_id_fault(text)))
}

/// Fails with `fault` if there is one.
pub open spec fn check_query_fault(
    st: Parse<QueryRecordError>,
    fault: Option<QueryRecordError>,
) -> Parse<QueryRecordError> {
    crate::publication_records::check_fault(st, fault)
}

/// One field: an id that is not built in and follows `previous`, then a
/// scalar.
pub open spec fn step_field(st: Parse<QueryRecordError>, previous: Option<Seq<char>>) -> (
    FieldView,
    Parse<QueryRecordError>,
) {
    let (name, s1) = step_field_id(st);
    let s2 = check_query_fault(
        s1,
        match builtin_field(name) {
            Some(field_id) => Some(QueryRecordError::ReservedFieldId { field_id }),
            None => None,
        },
    );
    let s3 = check(
        s2,
        previous is Some ==> field_less(previous.unwrap(), name),
        QueryRecordError::NonCanonicalFieldOrder,
    );
    let (value, s4) = step_scalar(s3);
    ((name, value), s4)
}

/// `count` fields in strictly increasing order.
pub open spec fn step_fields(
    st: Parse<QueryRecordError>,
    count: nat,
    previous: Option<Seq<char>>,
) -> (Seq<FieldView>, Parse<QueryRecordError>)
    decreases count,
{
    if count == 0 || st.err is Some {
        (Seq::empty(), st)
    } else {
        let (field, s1) = step_field(st, previous);
        let (rest, s2) = step_fields(s1, (count - 1) as nat, Some(field.0));
        (seq![field] + rest, s2)
    }
}

/// The fields that a projection payload holds, or why it holds none.
pub open spec fn parse_projection(bytes: Seq<u8>) -> Result<Seq<FieldView>, QueryRecordError> {
    if bytes.len() > MAX_TYPED_PROJECTION_BYTES {
        Err(
            QueryRecordError::LengthLimit {
                field: "typed_projection",
                length: bytes.len() as usize,
                max: MAX_TYPED_PROJECTION_BYTES,
            },
        )
    } else {
        let s0 = step_query_version(start(bytes), QUERY_RECORD_VALUE_FORMAT_VERSION);
        let (count, s1) = step_u16(s0, "field_count");
        let s2 = check(
            s1,
            count <= MAX_TYPED_PROJECTION_FIELDS,
            QueryRecordError::FieldCountLimit {
                count: count as usize,
                max: MAX_TYPED_PROJECTION_FIELDS,
            },
        );
        let (fields, s3) = step_fields(s2, count as nat, None);
        crate::wire::outcome(crate::wire::step_end(s3), fields)
    }
}

/// The fields that stored projection bytes hold: none for no bytes.
pub open spec fn parse_stored_projection(bytes: Seq<u8>) -> Result<
    Seq<FieldView>,
    QueryRecordError,
> {
    if bytes.len() == 0 {
        Ok(Seq::empty())
    } else {
        parse_projection(bytes)
    }
}

fn read_field_id(reader: &mut Reader) -> (result: Result<QueryFieldId, QueryRecordError>)
    requires
        old(reader).wf(),
    ensures
        final(reader).wf(),
        match result {
            Ok(value) => {
                &&& step_field_id(start(old(reader).rest())).0 == value@
                &&& stepped(step_field_id(start(old(reader).rest())).1, *final(reader))
            },
            Err(error) => step_field_id(start(old(reader).rest())).1.err == Some(error),
        },
{
    let length: usize = reader.u16("field_id")? as usize;
    if length > MAX_QUERY_FIELD_ID_BYTES {
        return Err(
            QueryRecordError::LengthLimit {
                field: "field_id",
                length,
                max: MAX_QUERY_FIELD_ID_BYTES,
            },
        );
    }
    let bytes: &[u8] = reader.take("field_id", length)?;
    match read_text(bytes) {
        None => Err(QueryRecordError::InvalidUtf8 { field: "field_id" }),
        Some(text) => QueryFieldId::new(text.as_str()),
    }
}

/// Canonical field map stored with a path entry.
#[derive(Debug, PartialEq, Eq)]
pub struct TypedProjection {
    pub fields: QueryFields,
}

impl View for TypedProjection {
    type V = Seq<FieldView>;

    open spec fn view(&self) -> Seq<FieldView> {
        self.fields@
    }
}

fn check_fields(fields: &QueryFields) -> (result: Result<(), QueryRecordError>)
    ensures
        match result {
            Ok(_) => fields@.len() <= MAX_TYPED_PROJECTION_FIELDS && fields_fault(fields@) is None,
            Err(error) => projection_fault(fields@) == Some(error),
        },
{
    if fields.len() > MAX_TYPED_PROJECTION_FIELDS {
        return Err(
            QueryRecordError::FieldCountLimit {
                count: fields.len(),
                max: MAX_TYPED_PROJECTION_FIELDS,
            },
        );
    }
    let mut i: usize = 0;
    while i < fields.entries.len()
        invariant
            i <= fields@.len(),
            fields@.len() == fields.entries@.len(),
            fields@.len() <= MAX_TYPED_PROJECTION_FIELDS,
            fields_fault(fields@.take(i as int)) is None,
        decreases fields@.len() - i,
    {
        let result = check_field(&fields.entries[i].0, &fields.entries[i].1);
        proof {
            assert(fields@[i as int] == entry_view(fields.entries@[i as int]));
            lemma_fields_fault_split(fields@, i as int);
        }
        match result {
            Ok(_) => {},
            Err(error) => {
                proof {
                    lemma_fields_fault_prefix(fields@, i + 1);
                }
                return Err(error);
            },
        }
        i = i + 1;
    }
    assert(fields@.take(i as int) =~= fields@);
    Ok(())
}

fn check_field(field: &QueryFieldId, value: &QueryScalar) -> (result: Result<
    (),
    QueryRecordError,
>)
    ensures
        match result {
            Ok(_) => field_fault((field@, value@)) is None,
            Err(error) => field_fault((field@, value@)) == Some(error),
        },
{
    validate_field_id(field.as_str())?;
    match find_builtin_field(field.as_str()) {
        Some(field_id) => {
            return Err(QueryRecordError::ReservedFieldId { field_id });
        },
        None => {},
    }
    match value {
        QueryScalar::Bytes(value) => {
            if value.len() > MAX_QUERY_SCALAR_BYTES {
                return Err(
                    QueryRecordError::LengthLimit {
                        field: "bytes_scalar",
                        length: value.len(),
                        max: MAX_QUERY_SCALAR_BYTES,
                    },
                );
            }
        },
        QueryScalar::String(value) => {
            let bytes: &[u8] = value.as_str().as_bytes();
            if bytes.len() > MAX_QUERY_SCALAR_BYTES {
                return Err(
                    QueryRecordError::LengthLimit {
                        field: "string_scalar",
                        length: bytes.len(),
                        max: MAX_QUERY_SCALAR_BYTES,
                    },
                );
            }
        },
        _ => {},
    }
    Ok(())
}

/// A list without fault has no faulty field.
proof fn lemma_no_field_fault(fields: Seq<FieldView>, i: int)
    requires
        fields_fault(fields) is None,
        0 <= i < fields.len(),
    ensures
        field_fault(fields[i]) is None,
    decreases fields.len(),
{
    if i > 0 {
        lemma_no_field_fault(fields.skip(1), i - 1);
        assert(fields.skip(1)[i - 1] == fields[i]);
    }
}

fn encode_fields(fields: &QueryFields) -> (out: Vec<u8>)
    requires
        fields@.len() <= MAX_TYPED_PROJECTION_FIELDS,
        fields_fault(fields@) is None,
    ensures
        out@ == projection_bytes(fields@),
{
    let mut out: Vec<u8> = vec![QUERY_RECORD_VALUE_FORMAT_VERSION];
    assert(out@ =~= seq![QUERY_RECORD_VALUE_FORMAT_VERSION]);
    put_be(&mut out, fields.len() as u128, 2);
    let ghost header = out@;
    let mut i: usize = 0;
    assert(fields_bytes(fields@.take(0)) == Seq::<u8>::empty());
    assert(header + Seq::<u8>::empty() =~= header);
    while i < fields.entries.len()
        invariant
            i <= fields@.len(),
            fields@.len() == fields.entries@.len(),
            fields_fault(fields@) is None,
            out@ == header + fields_bytes(fields@.take(i as int)),
        decreases fields@.len() - i,
    {
        let name: &[u8] = fields.entries[i].0.as_bytes();
        let ghost before = out@;
        proof {
            assert(fields@[i as int] == entry_view(fields.entries@[i as int]));
            lemma_no_field_fault(fields@, i as int);
            lemma_fields_bytes_split(fields@, i as int);
        }
        put_be(&mut out, name.len() as u128, 2);
        put_slice(&mut out, name);
        put_scalar(&mut out, &fields.entries[i].1);
        assert(out@ =~= before + field_bytes(fields@[i as int]));
        assert(out@ =~= header + fields_bytes(fields@.take(i + 1)));
        i = i + 1;
    }
    assert(fields@.take(i as int) =~= fields@);
    out
}

fn encode_projection(fields: &QueryFields) -> (result: Result<Vec<u8>, QueryRecordError>)
    ensures
        match result {
            Ok(bytes) => projection_fault(fields@) is None && bytes@ == projection_bytes(fields@),
            Err(error) => projection_fault(fields@) == Some(error),
        },
{
    check_fields(fields)?;
    let encoded: Vec<u8> = encode_fields(fields);
    if encoded.len() > MAX_TYPED_PROJECTION_BYTES {
        return Err(
            QueryRecordError::LengthLimit {
                field: "typed_projection",
                length: encoded.len(),
                max: MAX_TYPED_PROJECTION_BYTES,
            },
        );
    }
    Ok(encoded)
}

impl TypedProjection {
    /// Ids are strictly increasing.
    pub open spec fn wf(self) -> bool {
        self.fields.wf()
    }

    /// A projection of the given fields, if they can be stored.
    pub fn new(fields: QueryFields) -> (result: Result<TypedProjection, QueryRecordError>)
        ensures
            match result {
                Ok(projection) => projection_fault(fields@) is None && projection.fields == fields,
                Err(error) => projection_fault(fields@) == Some(error),
            },
    {
        encode_projection(&fields)?;
        Ok(TypedProjection { fields })
    }

    /// The projection without fields.
    pub fn empty() -> (projection: TypedProjection)
        ensures
            projection.wf(),
            projection@ == Seq::<FieldView>::empty(),
    {
        TypedProjection { fields: QueryFields::new() }
    }

    pub fn get(&self, field: &QueryFieldId) -> (value: Option<&QueryScalar>)
        requires
            self.wf(),
        ensures
            match value {
                Some(value) => holds(self@, field@, value@),
                None => forall|held: ScalarView| !holds(self@, field@, held),
            },
    {
        self.fields.get(field)
    }

    pub fn fields(&self) -> (fields: &QueryFields)
        ensures
            *fields == self.fields,
    {
        &self.fields
    }

    pub fn encode(&self) -> (result: Result<Vec<u8>, QueryRecordError>)
        ensures
            match result {
                Ok(bytes) => projection_fault(self@) is None && bytes@ == projection_bytes(self@),
                Err(error) => projection_fault(self@) == Some(error),
            },
    {
        encode_projection(&self.fields)
    }

    /// Decodes projection bytes read back from a durable record, where no
    /// bytes at all stand for no projection.
    pub fn decode_stored(encoded: &[u8]) -> (result: Result<TypedProjection, QueryRecordError>)
        ensures
            crate::wire::viewed(result) == parse_stored_projection(encoded@),
            result is Ok ==> result.unwrap().wf(),
    {
        if encoded.len() == 0 {
            Ok(TypedProjection::empty())
        } else {
            TypedProjection::decode(encoded)
        }
    }

    pub fn decode(encoded: &[u8]) -> (result: Result<TypedProjection, QueryRecordError>)
        ensures
            crate::wire::viewed(result) == parse_projection(encoded@),
            result is Ok ==> result.unwrap().wf(),
    {
        if encoded.len() > MAX_TYPED_PROJECTION_BYTES {
            return Err(
                QueryRecordError::LengthLimit {
                    field: "typed_projection",
                    length: encoded.len(),
                    max: MAX_TYPED_PROJECTION_BYTES,
                },
            );
        }
        let mut reader = Reader::new(encoded);
        read_query_version(&mut reader, QUERY_RECORD_VALUE_FORMAT_VERSION)?;
        let count: usize = reader.u16("field_count")? as usize;
        if count > MAX_TYPED_PROJECTION_FIELDS {
            return Err(
                QueryRecordError::FieldCountLimit { count, max: MAX_TYPED_PROJECTION_FIELDS },
            );
        }
        let ghost all = step_fields(start(reader.rest()), count as nat, None);
        let mut fields = QueryFields::new();
        let mut i: usize = 0;
        assert(fields@ + all.0 =~= all.0);
        while i < count
            invariant
                i <= count,
                reader.wf(),
                fields.wf(),
                fields@.len() == i,
                fields@.len() == fields.entries@.len(),
                all.0 == fields@ + step_fields(
                    start(reader.rest()),
                    (count - i) as nat,
                    last_name(fields@),
                ).0,
                all.1 == step_fields(
                    start(reader.rest()),
                    (count - i) as nat,
                    last_name(fields@),
                ).1,
                parse_projection(encoded@) == crate::wire::outcome(
                    crate::wire::step_end(all.1),
                    all.0,
                ),
            decreases count - i,
        {
            let ghost here = reader.rest();
            let ghost previous = last_name(fields@);
            let ghost step = step_field(start(here), previous);
            proof {
                broadcast use lemma_scalar_after_failure;

                lemma_step_fields_unfold(start(here), (count - i) as nat, previous);
            }
            let field: QueryFieldId = read_field_id(&mut reader)?;
            match find_builtin_field(field.as_str()) {
                Some(field_id) => {
                    return Err(QueryRecordError::ReservedFieldId { field_id });
                },
                None => {},
            }
            if i > 0 {
                assert(fields@[i - 1] == entry_view(fields.entries@[i - 1]));
                if !bytes_less(fields.entries[i - 1].0.as_bytes(), field.as_bytes()) {
                    return Err(QueryRecordError::NonCanonicalFieldOrder);
                }
            }
            let value: QueryScalar = read_scalar(&mut reader)?;
            let ghost before = fields@;
            let ghost pair = (field@, value@);
            fields.entries.push((field, value));
            proof {
                assert(fields@ =~= before.push(pair));
                assert(step.0 == pair);
                lemma_push_sorted(before, pair);
                let rest = step_fields(
                    start(reader.rest()),
                    (count - i - 1) as nat,
                    Some(pair.0),
                );
                assert(before + (seq![pair] + rest.0) =~= before.push(pair) + rest.0);
            }
            i = i + 1;
        }
        reader.end()?;
        assert(all.0 =~= fields@);
        Ok(TypedProjection { fields })
    }

    /// A projection equal to this one.
    pub fn duplicate(&self) -> (copy: TypedProjection)
        ensures
            copy@ == self@,
            self.wf() ==> copy.wf(),
    {
        let mut entries: Vec<(QueryFieldId, QueryScalar)> = Vec::new();
        let mut i: usize = 0;
        while i < self.fields.entries.len()
            invariant
                i <= self.fields.entries@.len(),
                entries@.len() == i,
                forall|k: int|
                    0 <= k < i ==> entry_view(#[trigger] entries@[k]) == entry_view(
                        self.fields.entries@[k],
                    ),
            decreases self.fields.entries@.len() - i,
        {
            entries.push(
                (self.fields.entries[i].0.clone(), self.fields.entries[i].1.duplicate()),
            );
            i = i + 1;
        }
        let fields = QueryFields { entries };
        assert(fields@ =~= self.fields@);
        TypedProjection { fields }
    }
}

/// The id of the last field, if there is one.
spec fn last_name(fields: Seq<FieldView>) -> Option<Seq<char>> {
    if fields.len() == 0 {
        None
    } else {
        Some(fields.last().0)
    }
}

proof fn lemma_step_fields_unfold(
    st: Parse<QueryRecordError>,
    count: nat,
    previous: Option<Seq<char>>,
)
    requires
        count > 0,
        st.err is None,
    ensures
        step_fields(st, count, previous) == ({
            let (field, s1) = step_field(st, previous);
            let (rest, s2) = step_fields(s1, (count - 1) as nat, Some(field.0));
            (seq![field] + rest, s2)
        }),
        step_field(st, previous).1.err is Some ==> step_fields(st, count, previous).1
            == step_field(st, previous).1,
{
    let (field, s1) = step_field(st, previous);
    reveal_with_fuel(step_fields, 2);
}

proof fn lemma_push_sorted(fields: Seq<FieldView>, pair: FieldView)
    requires
        fields_sorted(fields),
        fields.len() > 0 ==> field_less(fields.last().0, pair.0),
    ensures
        fields_sorted(fields.push(pair)),
{
    let next = fields.push(pair);
    assert forall|i: int, j: int|
        #![trigger next[i], next[j]]
        0 <= i < j < next.len() implies field_less(next[i].0, next[j].0) by {
        if j == fields.len() && i < fields.len() - 1 {
            assert(field_less(fields[i].0, fields.last().0));
            lemma_field_transitive(fields[i].0, fields.last().0, pair.0);
        }
    }
}

proof fn lemma_field_back(field: FieldView, previous: Option<Seq<char>>, tail: Seq<u8>)
    requires
        field_fault(field) is None,
        field.1.storable(),
        previous is Some ==> field_less(previous.unwrap(), field.0),
    ensures
        step_field(start(field_bytes(field) + tail), previous) == (
            field,
            start::<QueryRecordError>(tail),
        ),
{
    broadcast use crate::text::lemma_text_of_utf8;

    let name = utf8(field.0);
    let size = be_bytes(name.len(), 2);
    let value = scalar_bytes(field.1);
    crate::wire::lemma_concat_assoc(size + name, value, tail);
    crate::wire::lemma_concat_assoc(size, name, value + tail);
    crate::wire::lemma_u16_back::<QueryRecordError>(
        name.len() as u16,
        name + (value + tail),
        "field_id",
    );
    crate::wire::lemma_take_back::<QueryRecordError>(name, value + tail, "field_id", name.len());
    lemma_scalar_back(field.1, tail);
}

proof fn lemma_fields_back(
    fields: Seq<FieldView>,
    previous: Option<Seq<char>>,
    tail: Seq<u8>,
)
    requires
        fields_fault(fields) is None,
        floats_canonical(fields),
        fields_sorted(fields),
        previous is Some && fields.len() > 0 ==> field_less(previous.unwrap(), fields[0].0),
    ensures
        step_fields(start(fields_bytes(fields) + tail), fields.len(), previous) == (
            fields,
            start::<QueryRecordError>(tail),
        ),
    decreases fields.len(),
{
    if fields.len() == 0 {
        assert(Seq::<u8>::empty() + tail =~= tail);
        assert(fields =~= Seq::empty());
    } else {
        let rest = fields.skip(1);
        let first = fields[0];
        crate::wire::lemma_concat_assoc(field_bytes(first), fields_bytes(rest), tail);
        lemma_field_back(first, previous, fields_bytes(rest) + tail);
        assert forall|i: int| 0 <= i < rest.len() implies match (#[trigger] rest[i]).1 {
            ScalarView::Float(value) => value.wf(),
            _ => true,
        } by {
            assert(rest[i] == fields[i + 1]);
        }
        assert forall|i: int, j: int|
            #![trigger rest[i], rest[j]]
            0 <= i < j < rest.len() implies field_less(rest[i].0, rest[j].0) by {
            assert(field_less(fields[i + 1].0, fields[j + 1].0));
        }
        if rest.len() > 0 {
            assert(field_less(fields[0].0, fields[1].0));
        }
        lemma_fields_back(rest, Some(first.0), tail);
        assert(seq![first] + rest =~= fields);
    }
}

/// A storable projection is read back as it was written.
pub proof fn projection_round_trip(fields: Seq<FieldView>)
    requires
        projection_fault(fields) is None,
        fields_sorted(fields),
        floats_canonical(fields),
    ensures
        parse_projection(projection_bytes(fields)) == Ok::<_, QueryRecordError>(fields),
{
    let version = seq![QUERY_RECORD_VALUE_FORMAT_VERSION];
    let count = be_bytes(fields.len(), 2);
    let body = fields_bytes(fields);
    crate::wire::lemma_concat_assoc(version, count, body);
    crate::wire::lemma_u8_back::<QueryRecordError>(
        QUERY_RECORD_VALUE_FORMAT_VERSION,
        count + body,
        "value_format_version",
    );
    crate::wire::lemma_u16_back::<QueryRecordError>(fields.len() as u16, body, "field_count");
    crate::wire::lemma_concat_empty(body);
    lemma_fields_back(fields, None, Seq::empty());
}

proof fn lemma_field_split(st: Parse<QueryRecordError>, previous: Option<Seq<char>>)
    ensures
        step_field(st, previous).1.err is None ==> {
            let (field, next) = step_field(st, previous);
            &&& st.err is None
            &&& field_fault(field) is None
            &&& field.1.storable()
            &&& previous is Some ==> field_less(previous.unwrap(), field.0)
            &&& st.rest == field_bytes(field) + next.rest
        },
{
    broadcast use crate::wire::lemma_u16_split, crate::wire::lemma_take_split;
    broadcast use crate::text::lemma_utf8_text_of, lemma_scalar_after_failure;

    let (field, next) = step_field(st, previous);
    let (name, s1) = step_field_id(st);
    let s2 = check_query_fault(
        s1,
        match builtin_field(name) {
            Some(field_id) => Some(QueryRecordError::ReservedFieldId { field_id }),
            None => None,
        },
    );
    let s3 = check(
        s2,
        previous is Some ==> field_less(previous.unwrap(), name),
        QueryRecordError::NonCanonicalFieldOrder,
    );
    lemma_scalar_split(s3);
    if next.err is None {
        let size = be_bytes(utf8(name).len(), 2);
        crate::wire::lemma_concat_assoc(size, utf8(name), s3.rest);
        crate::wire::lemma_concat_assoc(size + utf8(name), scalar_bytes(field.1), next.rest);
    }
}

proof fn lemma_fields_split(
    st: Parse<QueryRecordError>,
    count: nat,
    previous: Option<Seq<char>>,
)
    ensures
        step_fields(st, count, previous).1.err is None ==> {
            let (fields, next) = step_fields(st, count, previous);
            &&& st.err is None
            &&& fields.len() == count
            &&& fields_fault(fields) is None
            &&& floats_canonical(fields)
            &&& fields_sorted(fields)
            &&& previous is Some && fields.len() > 0 ==> field_less(
                previous.unwrap(),
                fields[0].0,
            )
            &&& st.rest == fields_bytes(fields) + next.rest
        },
    decreases count,
{
    let (fields, next) = step_fields(st, count, previous);
    if next.err is None {
        if count == 0 {
            assert(Seq::<u8>::empty() + next.rest =~= next.rest);
        } else {
            let (first, s1) = step_field(st, previous);
            let (rest, s2) = step_fields(s1, (count - 1) as nat, Some(first.0));
            lemma_step_fields_unfold(st, count, previous);
            lemma_fields_split(s1, (count - 1) as nat, Some(first.0));
            lemma_field_split(st, previous);
            assert(fields =~= seq![first] + rest);
            assert(fields.skip(1) =~= rest);
            crate::wire::lemma_concat_assoc(field_bytes(first), fields_bytes(rest), next.rest);
            assert forall|i: int, j: int|
                #![trigger fields[i], fields[j]]
                0 <= i < j < fields.len() implies field_less(fields[i].0, fields[j].0) by {
                assert(fields[j] == rest[j - 1]);
                if i > 0 {
                    assert(fields[i] == rest[i - 1]);
                } else if j > 1 {
                    assert(field_less(rest[0].0, rest[j - 1].0));
                    lemma_field_transitive(first.0, rest[0].0, rest[j - 1].0);
                }
            }
            assert forall|i: int| 0 <= i < fields.len() implies match (#[trigger] fields[i]).1 {
                ScalarView::Float(value) => value.wf(),
                _ => true,
            } by {
                if i > 0 {
                    assert(fields[i] == rest[i - 1]);
                }
            }
        }
    }
}

/// Every accepted projection payload is the one stored form of sorted,
/// storable fields.
pub proof fn projection_canonical(bytes: Seq<u8>)
    requires
        parse_projection(bytes) is Ok,
    ensures
        bytes == projection_bytes(parse_projection(bytes).unwrap()),
        projection_fault(parse_projection(bytes).unwrap()) is None,
        fields_sorted(parse_projection(bytes).unwrap()),
        floats_canonical(parse_projection(bytes).unwrap()),
{
    broadcast use crate::wire::lemma_u16_split, crate::wire::lemma_u8_split;

    let s0 = step_query_version(start(bytes), QUERY_RECORD_VALUE_FORMAT_VERSION);
    let (count, s1) = step_u16(s0, "field_count");
    let s2 = check(
        s1,
        count <= MAX_TYPED_PROJECTION_FIELDS,
        QueryRecordError::FieldCountLimit {
            count: count as usize,
            max: MAX_TYPED_PROJECTION_FIELDS,
        },
    );
    let (fields, s3) = step_fields(s2, count as nat, None);
    lemma_fields_split(s2, count as nat, None);
    crate::wire::lemma_concat_assoc(
        seq![QUERY_RECORD_VALUE_FORMAT_VERSION],
        be_bytes(count as nat, 2),
        fields_bytes(fields),
    );
    assert(s3.rest =~= Seq::<u8>::empty());
    crate::wire::lemma_concat_empty(fields_bytes(fields));
}

} // verus!
