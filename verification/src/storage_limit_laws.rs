//! What can be stored: the limits of texts, byte strings and dependencies.

use crate::be::lex_less;
use crate::publication_records::{artifact_revision_fault, gc_candidate_fault, path_entry_fault,
    string_fault, ArtifactRevisionView, GcCandidateView, PathEntryView};
use crate::query_records::{field_fault, fields_fault, projection_bytes, projection_fault,
    scalar_less, FieldView, ScalarView};
use crate::text::{all_segments_plain, first_foreign_byte, first_index_of, is_name_byte,
    is_plain_segment, is_segment, path_fault, utf8, workbench_id_fault};
use vstd::prelude::*;

verus! {

/// Whether a text can be stored: not empty, without NUL, and of at most `max`
/// bytes.
pub open spec fn text_fits(text: Seq<char>, max: int) -> bool {
    let bytes = utf8(text);
    &&& 0 < bytes.len() <= max
    &&& forall|i: int| 0 <= i < bytes.len() ==> bytes[i] != 0
}

proof fn lemma_first_index(bytes: Seq<u8>, byte: u8)
    ensures
        first_index_of(bytes, byte) <= bytes.len(),
        first_index_of(bytes, byte) == bytes.len() <==> forall|i: int|
            0 <= i < bytes.len() ==> bytes[i] != byte,
    decreases bytes.len(),
{
    if bytes.len() > 0 && bytes[0] != byte {
        let rest = bytes.skip(1);
        lemma_first_index(rest, byte);
        if first_index_of(rest, byte) == rest.len() {
            assert forall|i: int| 0 <= i < bytes.len() implies bytes[i] != byte by {
                if i > 0 {
                    assert(rest[i - 1] == bytes[i]);
                }
            }
        } else if forall|i: int| 0 <= i < bytes.len() ==> bytes[i] != byte {
            assert forall|i: int| 0 <= i < rest.len() implies rest[i] != byte by {
                assert(rest[i] == bytes[i + 1]);
            }
        }
    }
}

proof fn lemma_text_fits(field: &'static str, text: Seq<char>, max: usize)
    ensures
        string_fault(field, utf8(text), max) is None <==> text_fits(text, max as int),
{
    lemma_first_index(utf8(text), 0);
}

/// Whether a count and a depth of dependencies go together: at most 64 and at
/// most 8, and both zero or neither.
pub open spec fn dependencies_fit(count: u32, depth: u8) -> bool {
    &&& count <= 64
    &&& depth <= 8
    &&& count == 0 <==> depth == 0
}

/// A path entry is stored exactly where its texts fit: digests of at most 256
/// bytes, a content type of at most 255, a producer of at most 512 and a
/// manifest id of at most 1024 where it has them, a projection of at most
/// 65536, and dependencies that go together.
pub proof fn path_entries_are_stored_exactly(entry: PathEntryView)
    ensures
        path_entry_fault(entry) is None <==> {
            &&& text_fits(entry.body_digest_uri, 256)
            &&& text_fits(entry.manifest_digest_uri, 256)
            &&& dependencies_fit(entry.dependency_count, entry.dependency_depth)
            &&& text_fits(entry.content_type, 255)
            &&& entry.producer matches Some(text) ==> text_fits(text, 512)
            &&& entry.manifest_id matches Some(text) ==> text_fits(text, 1024)
            &&& entry.typed_index_projection.len() <= 65_536
        },
{
    lemma_text_fits("body_digest_uri", entry.body_digest_uri, 256);
    lemma_text_fits("manifest_digest_uri", entry.manifest_digest_uri, 256);
    lemma_text_fits("content_type", entry.content_type, 255);
    if entry.producer is Some {
        lemma_text_fits("producer", entry.producer.unwrap(), 512);
    }
    if entry.manifest_id is Some {
        lemma_text_fits("manifest_id", entry.manifest_id.unwrap(), 1024);
    }
}

/// A revision is stored exactly where its texts fit: digests of at most 256
/// bytes and a content type of at most 255, and dependencies that go together.
pub proof fn revisions_are_stored_exactly(record: ArtifactRevisionView)
    ensures
        artifact_revision_fault(record) is None <==> {
            &&& text_fits(record.body_digest_uri, 256)
            &&& text_fits(record.manifest_digest_uri, 256)
            &&& text_fits(record.content_type, 255)
            &&& dependencies_fit(record.dependency_count, record.dependency_depth)
        },
{
    lemma_text_fits("body_digest_uri", record.body_digest_uri, 256);
    lemma_text_fits("manifest_digest_uri", record.manifest_digest_uri, 256);
    lemma_text_fits("content_type", record.content_type, 255);
}

/// A candidate is stored exactly where its evidence, if it has any, is of at
/// most 4096 bytes.
pub proof fn candidates_are_stored_exactly(record: GcCandidateView)
    ensures
        gc_candidate_fault(record) is None <==> (record.quarantine_evidence matches Some(evidence)
            ==> evidence.len() <= 4096),
{
}

/// Whether a text can name a field: 1 to 128 ASCII letters, digits, `_`, `.`
/// and `-`.
pub open spec fn names_field(text: Seq<char>) -> bool {
    let bytes = utf8(text);
    &&& 1 <= bytes.len() <= 128
    &&& forall|i: int| 0 <= i < bytes.len() ==> is_name_byte(#[trigger] bytes[i])
}

proof fn lemma_first_foreign(bytes: Seq<u8>)
    ensures
        first_foreign_byte(bytes) <= bytes.len(),
        first_foreign_byte(bytes) == bytes.len() <==> forall|i: int|
            0 <= i < bytes.len() ==> is_name_byte(#[trigger] bytes[i]),
    decreases bytes.len(),
{
    if bytes.len() > 0 && is_name_byte(bytes[0]) {
        let rest = bytes.skip(1);
        lemma_first_foreign(rest);
        if first_foreign_byte(rest) == rest.len() {
            assert forall|i: int| 0 <= i < bytes.len() implies is_name_byte(#[trigger] bytes[i]) by {
                if i > 0 {
                    assert(rest[i - 1] == bytes[i]);
                }
            }
        } else if forall|i: int| 0 <= i < bytes.len() ==> is_name_byte(#[trigger] bytes[i]) {
            assert forall|i: int| 0 <= i < rest.len() implies is_name_byte(#[trigger] rest[i]) by {
                assert(rest[i] == bytes[i + 1]);
            }
        }
    }
}

/// A name byte is an ASCII letter, a digit, `_`, `.` or `-`.
pub proof fn names_are_made_of(byte: u8)
    ensures
        is_name_byte(byte) <==> {
            ||| 'a' as u32 <= byte <= 'z' as u32
            ||| 'A' as u32 <= byte <= 'Z' as u32
            ||| '0' as u32 <= byte <= '9' as u32
            ||| byte == '_' as u32
            ||| byte == '.' as u32
            ||| byte == '-' as u32
        },
{
}

/// A field is stored exactly where its name is a field's, is none of the
/// built-in ones, and its value, where it is a text or a byte string, is of at
/// most 65536 bytes.
pub proof fn fields_are_stored_exactly(field: FieldView)
    ensures
        field_fault(field) is None <==> {
            &&& names_field(field.0)
            &&& field.0 != "body_digest_uri"@
            &&& field.0 != "content_type"@
            &&& field.0 != "generation"@
            &&& field.0 != "logical_size"@
            &&& field.0 != "manifest_id"@
            &&& field.0 != "path"@
            &&& field.0 != "producer"@
            &&& field.0 != "workbench_id"@
            &&& field.1 matches ScalarView::Bytes(value) ==> value.len() <= 65_536
            &&& field.1 matches ScalarView::String(value) ==> utf8(value).len() <= 65_536
        },
{
    lemma_first_foreign(utf8(field.0));
}

/// A projection is stored exactly where it has at most 60 fields, each can be
/// stored, and all of it is of at most 65536 bytes.
pub proof fn projections_are_stored_exactly(fields: Seq<FieldView>)
    ensures
        projection_fault(fields) is None <==> {
            &&& fields.len() <= 60
            &&& forall|i: int| 0 <= i < fields.len() ==> field_fault(#[trigger] fields[i]) is None
            &&& projection_bytes(fields).len() <= 65_536
        },
{
    lemma_fields_fault(fields);
}

proof fn lemma_fields_fault(fields: Seq<FieldView>)
    ensures
        fields_fault(fields) is None <==> forall|i: int|
            0 <= i < fields.len() ==> field_fault(#[trigger] fields[i]) is None,
    decreases fields.len(),
{
    if fields.len() > 0 {
        let rest = fields.skip(1);
        lemma_fields_fault(rest);
        if fields_fault(fields) is None {
            assert forall|i: int| 0 <= i < fields.len() implies field_fault(
                #[trigger] fields[i],
            ) is None by {
                if i > 0 {
                    assert(rest[i - 1] == fields[i]);
                }
            }
        } else if forall|i: int| 0 <= i < fields.len() ==> field_fault(#[trigger] fields[i]) is None {
            assert(field_fault(fields[0]) is None);
            assert forall|i: int| 0 <= i < rest.len() implies field_fault(
                #[trigger] rest[i],
            ) is None by {
                assert(rest[i] == fields[i + 1]);
            }
        }
    }
}

/// A text names a workbench exactly where it is one to 128 bytes, each of them
/// one of which names are made.
pub proof fn workbenches_are_named_exactly(text: Seq<char>)
    ensures
        workbench_id_fault(text) is None <==> {
            let bytes = utf8(text);
            &&& 1 <= bytes.len() <= 128
            &&& forall|i: int| 0 <= i < bytes.len() ==> is_name_byte(#[trigger] bytes[i])
        },
{
    lemma_first_foreign(utf8(text));
}

/// A text is a path exactly where it is one to 4096 bytes, none of them zero,
/// and no part between its slashes is empty, one dot or two dots.
pub proof fn paths_are_accepted_exactly(text: Seq<char>)
    ensures
        path_fault(text) is None <==> {
            let bytes = utf8(text);
            &&& 1 <= bytes.len() <= 4096
            &&& forall|i: int| 0 <= i < bytes.len() ==> #[trigger] bytes[i] != 0
            &&& forall|i: int, j: int|
                #![trigger is_part(bytes, i, j)]
                is_part(bytes, i, j) ==> i < j && !is_dots(bytes, i, j)
        },
{
    let bytes = utf8(text);
    lemma_wanted_byte(bytes, 0);
    if forall|i: int, j: int|
        #![trigger is_part(bytes, i, j)]
        is_part(bytes, i, j) ==> i < j && !is_dots(bytes, i, j) {
        assert forall|i: int, j: int| #[trigger] is_segment(bytes, i, j) implies is_plain_segment(
            bytes.subrange(i, j),
        ) by {
            assert(is_part(bytes, i, j));
            lemma_dots(bytes, i, j);
        }
    }
    if all_segments_plain(bytes) {
        assert forall|i: int, j: int| #[trigger] is_part(bytes, i, j) implies i < j && !is_dots(
            bytes,
            i,
            j,
        ) by {
            assert(is_segment(bytes, i, j));
            lemma_dots(bytes, i, j);
        }
    }
}

proof fn lemma_dots(bytes: Seq<u8>, i: int, j: int)
    requires
        0 <= i <= j <= bytes.len(),
    ensures
        is_plain_segment(bytes.subrange(i, j)) <==> i < j && !is_dots(bytes, i, j),
{
    let part = bytes.subrange(i, j);
    if is_dots(bytes, i, j) {
        assert(part =~= seq![0x2eu8] || part =~= seq![0x2eu8, 0x2eu8]);
    }
    if part == seq![0x2eu8] {
        assert(part[0] == 0x2eu8);
        assert(part.len() == 1);
    }
    if part == seq![0x2eu8, 0x2eu8] {
        assert(part[0] == 0x2eu8 && part[1] == 0x2eu8);
        assert(part.len() == 2);
    }
}

/// Whether the bytes from `i` to `j` are one dot or two.
pub open spec fn is_dots(bytes: Seq<u8>, i: int, j: int) -> bool {
    &&& i < j <= i + 2
    &&& forall|k: int| i <= k < j ==> #[trigger] bytes[k] == '.' as u32
}

/// Whether the bytes from `i` to `j` stand between two slashes, or between a
/// slash and an end of the text, and hold no slash.
pub open spec fn is_part(bytes: Seq<u8>, i: int, j: int) -> bool {
    &&& 0 <= i <= j <= bytes.len()
    &&& i > 0 ==> bytes[i - 1] == '/' as u32
    &&& j < bytes.len() ==> bytes[j] == '/' as u32
    &&& forall|k: int| i <= k < j ==> bytes[k] != '/' as u32
}

proof fn lemma_wanted_byte(bytes: Seq<u8>, wanted: u8)
    ensures
        first_index_of(bytes, wanted) < bytes.len() <==> exists|i: int|
            0 <= i < bytes.len() && #[trigger] bytes[i] == wanted,
    decreases bytes.len(),
{
    if bytes.len() > 0 {
        let rest = bytes.skip(1);
        lemma_wanted_byte(rest, wanted);
        if exists|i: int| 0 <= i < bytes.len() && #[trigger] bytes[i] == wanted {
            let i = choose|i: int| 0 <= i < bytes.len() && #[trigger] bytes[i] == wanted;
            if i > 0 {
                assert(rest[i - 1] == wanted);
            }
        }
        if exists|i: int| 0 <= i < rest.len() && #[trigger] rest[i] == wanted {
            let i = choose|i: int| 0 <= i < rest.len() && #[trigger] rest[i] == wanted;
            assert(bytes[i + 1] == wanted);
        }
    }
}

/// Values of one type sort as the values do, bytes and texts bytewise; a float
/// sorts by its magnitude, the other way round below zero. Values of different
/// types sort by their types.
pub proof fn scalars_sort_as_their_values(a: ScalarView, b: ScalarView)
    ensures
        a is Boolean && b is Boolean ==> (scalar_less(a, b) <==> a == ScalarView::Boolean(false)
            && b == ScalarView::Boolean(true)),
        (a, b) matches (ScalarView::Signed(x), ScalarView::Signed(y)) ==> (scalar_less(a, b) <==> x
            < y),
        (a, b) matches (ScalarView::Unsigned(x), ScalarView::Unsigned(y)) ==> (scalar_less(a, b)
            <==> x < y),
        (a, b) matches (ScalarView::Timestamp(x), ScalarView::Timestamp(y)) ==> (scalar_less(a, b)
            <==> x < y),
        (a, b) matches (ScalarView::Float(x), ScalarView::Float(y)) ==> {
            let sign = 0x8000_0000_0000_0000u64;
            scalar_less(a, b) <==> if x.bits < sign {
                y.bits < sign && x.bits < y.bits
            } else {
                y.bits < sign || x.bits > y.bits
            }
        },
        (a, b) matches (ScalarView::Bytes(x), ScalarView::Bytes(y)) ==> (scalar_less(a, b)
            <==> lex_less(x, y)),
        (a, b) matches (ScalarView::String(x), ScalarView::String(y)) ==> (scalar_less(a, b)
            <==> lex_less(utf8(x), utf8(y))),
        a is Null && !(b is Null) ==> scalar_less(a, b) && !scalar_less(b, a),
        b is String && !(a is String) ==> scalar_less(a, b) && !scalar_less(b, a),
{
}

} // verus!
