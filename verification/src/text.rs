//! UTF-8 text and the two validated names that records carry.

use crate::be::{copy_bytes, same_bytes};
use vstd::prelude::*;
use vstd::utf8::{decode_utf8, encode_utf8, valid_utf8};

verus! {

/// The UTF-8 bytes of a text.
pub open spec fn utf8(text: Seq<char>) -> Seq<u8> {
    encode_utf8(text)
}

/// `String::from_utf8`: succeeds exactly on valid UTF-8, and the text it
/// returns has the given bytes.
#[verifier::external_body]
fn text_from_utf8(bytes: Vec<u8>) -> (text: Option<String>)
    ensures
        match text {
            Some(text) => valid_utf8(bytes@) && text@ == decode_utf8(bytes@),
            None => !valid_utf8(bytes@),
        },
{
    String::from_utf8(bytes).ok()
}

/// Two texts with the same UTF-8 bytes are equal.
pub proof fn lemma_utf8_injective(a: Seq<char>, b: Seq<char>)
    requires
        utf8(a) == utf8(b),
    ensures
        a == b,
{
    vstd::utf8::encode_utf8_decode_utf8(a);
    vstd::utf8::encode_utf8_decode_utf8(b);
}

/// The text with the given UTF-8 bytes, if there is one.
pub open spec fn text_of(bytes: Seq<u8>) -> Option<Seq<char>> {
    if valid_utf8(bytes) {
        Some(decode_utf8(bytes))
    } else {
        None
    }
}

/// `text_of` inverts `utf8`.
pub broadcast proof fn lemma_text_of_utf8(text: Seq<char>)
    ensures
        text_of(#[trigger] utf8(text)) == Some(text),
{
    vstd::utf8::encode_utf8_valid_utf8(text);
    vstd::utf8::encode_utf8_decode_utf8(text);
}

/// `utf8` inverts `text_of` where it gives a text.
pub broadcast proof fn lemma_utf8_text_of(bytes: Seq<u8>)
    ensures
        (#[trigger] text_of(bytes)) is Some ==> utf8(text_of(bytes).unwrap()) == bytes,
{
    if valid_utf8(bytes) {
        vstd::utf8::decode_utf8_encode_utf8(bytes);
    }
}

/// Reads a text from its UTF-8 bytes.
pub fn read_text(bytes: &[u8]) -> (text: Option<String>)
    ensures
        match text {
            Some(text) => text_of(bytes@) == Some(text@),
            None => text_of(bytes@) is None,
        },
{
    text_from_utf8(copy_bytes(bytes))
}

/// Whether two texts are equal.
pub fn same_text(a: &str, b: &str) -> (same: bool)
    ensures
        same == (a@ == b@),
{
    let same: bool = same_bytes(a.as_bytes(), b.as_bytes());
    proof {
        if same {
            lemma_utf8_injective(a@, b@);
        }
    }
    same
}

/// Index of the first byte equal to `wanted`, or the length if there is none.
pub open spec fn first_index_of(bytes: Seq<u8>, wanted: u8) -> nat
    decreases bytes.len(),
{
    if bytes.len() == 0 || bytes[0] == wanted {
        0
    } else {
        1 + first_index_of(bytes.skip(1), wanted)
    }
}

/// Where `wanted` first stands in `bytes`, if it does.
pub fn find_byte(bytes: &[u8], wanted: u8) -> (at: usize)
    ensures
        at == first_index_of(bytes@, wanted),
{
    let mut i: usize = 0;
    assert(bytes@.skip(0) =~= bytes@);
    while i < bytes.len() && bytes[i] != wanted
        invariant
            i <= bytes@.len(),
            first_index_of(bytes@, wanted) == i + first_index_of(bytes@.skip(i as int), wanted),
        decreases bytes@.len() - i,
    {
        assert(bytes@.skip(i as int).skip(1) =~= bytes@.skip(i + 1));
        i = i + 1;
    }
    i
}

/// Why a name is not accepted.
#[derive(Clone, Copy, Debug, PartialEq, Eq)]
pub struct NameError {
    pub reason: &'static str,
}

/// An ASCII letter or digit, `_`, `.` or `-`.
pub open spec fn is_name_byte(byte: u8) -> bool {
    ||| 0x30 <= byte <= 0x39
    ||| 0x41 <= byte <= 0x5a
    ||| 0x61 <= byte <= 0x7a
    ||| byte == 0x5f
    ||| byte == 0x2e
    ||| byte == 0x2d
}

/// Whether `byte` may stand in a name.
pub fn name_byte(byte: u8) -> (ok: bool)
    ensures
        ok == is_name_byte(byte),
{
    (0x30 <= byte && byte <= 0x39) || (0x41 <= byte && byte <= 0x5a) || (0x61 <= byte && byte
        <= 0x7a) || byte == 0x5f || byte == 0x2e || byte == 0x2d
}

/// Index of the first byte that may not stand in a name, or the length.
pub open spec fn first_foreign_byte(bytes: Seq<u8>) -> nat
    decreases bytes.len(),
{
    if bytes.len() == 0 || !is_name_byte(bytes[0]) {
        0
    } else {
        1 + first_foreign_byte(bytes.skip(1))
    }
}

/// Where the first byte stands that may not stand in a name.
pub fn find_foreign_byte(bytes: &[u8]) -> (at: usize)
    ensures
        at == first_foreign_byte(bytes@),
        at <= bytes@.len(),
{
    let mut i: usize = 0;
    assert(bytes@.skip(0) =~= bytes@);
    while i < bytes.len() && name_byte(bytes[i])
        invariant
            i <= bytes@.len(),
            first_foreign_byte(bytes@) == i + first_foreign_byte(bytes@.skip(i as int)),
        decreases bytes@.len() - i,
    {
        assert(bytes@.skip(i as int).skip(1) =~= bytes@.skip(i + 1));
        i = i + 1;
    }
    i
}

/// Stable name of a workbench.
///
/// Which texts are names is this library's own rule: 1 to 128 bytes of ASCII
/// letters, digits, `_`, `.` and `-`. No stored row fixes it.
#[derive(Debug, PartialEq, Eq)]
pub struct WorkbenchId {
    pub text: String,
}

/// Longest workbench name in bytes.
pub const MAX_WORKBENCH_ID_BYTES: usize = 128;

impl View for WorkbenchId {
    type V = Seq<char>;

    open spec fn view(&self) -> Seq<char> {
        self.text@
    }
}

/// Why a text is no workbench name, if it is none.
pub open spec fn workbench_id_fault(text: Seq<char>) -> Option<NameError> {
    let bytes = utf8(text);
    if bytes.len() == 0 {
        Some(NameError { reason: "name is empty" })
    } else if bytes.len() > MAX_WORKBENCH_ID_BYTES {
        Some(NameError { reason: "name is too long" })
    } else if first_foreign_byte(bytes) < bytes.len() {
        Some(NameError { reason: "name has an unsupported byte" })
    } else {
        None
    }
}

impl WorkbenchId {
    /// Accepts 1 to 128 ASCII letters, digits, `_`, `.` and `-`.
    pub fn new(value: &str) -> (id: Result<WorkbenchId, NameError>)
        ensures
            match id {
                Ok(id) => workbench_id_fault(value@) is None && id@ == value@,
                Err(error) => workbench_id_fault(value@) == Some(error),
            },
    {
        let bytes: &[u8] = value.as_bytes();
        if bytes.len() == 0 {
            return Err(NameError { reason: "name is empty" });
        }
        if bytes.len() > MAX_WORKBENCH_ID_BYTES {
            return Err(NameError { reason: "name is too long" });
        }
        if find_foreign_byte(bytes) < bytes.len() {
            return Err(NameError { reason: "name has an unsupported byte" });
        }
        Ok(WorkbenchId { text: value.to_owned() })
    }

    pub fn as_str(&self) -> (text: &str)
        ensures
            text@ == self@,
    {
        self.text.as_str()
    }

    pub fn as_bytes(&self) -> (bytes: &[u8])
        ensures
            bytes@ == utf8(self@),
    {
        self.text.as_str().as_bytes()
    }
}

impl Clone for WorkbenchId {
    fn clone(&self) -> (copy: Self)
        ensures
            copy == *self,
    {
        WorkbenchId { text: self.text.clone() }
    }
}

/// Relative path with no empty, `.` or `..` segment.
///
/// Which texts are paths is this library's own rule: 1 to 4096 bytes, no NUL,
/// and no segment that would have to be resolved. No stored row fixes it.
#[derive(Debug, PartialEq, Eq)]
pub struct NormalizedRelativePath {
    pub text: String,
}

/// Longest path in bytes.
pub const MAX_PATH_BYTES: usize = 4096;

impl View for NormalizedRelativePath {
    type V = Seq<char>;

    open spec fn view(&self) -> Seq<char> {
        self.text@
    }
}

/// Whether `bytes[i..j]` is one `/`-separated segment of a path.
pub open spec fn is_segment(bytes: Seq<u8>, i: int, j: int) -> bool {
    &&& 0 <= i <= j <= bytes.len()
    &&& i == 0 || bytes[i - 1] == 0x2f
    &&& j == bytes.len() || bytes[j] == 0x2f
    &&& forall|k: int| i <= k < j ==> bytes[k] != 0x2f
}

/// A segment that may stand in a normalized path.
pub open spec fn is_plain_segment(segment: Seq<u8>) -> bool {
    segment.len() > 0 && segment != seq![0x2eu8] && segment != seq![0x2eu8, 0x2eu8]
}

/// Whether every segment is non-empty and neither `.` nor `..`.
pub open spec fn all_segments_plain(bytes: Seq<u8>) -> bool {
    forall|i: int, j: int|
        #![trigger is_segment(bytes, i, j)]
        is_segment(bytes, i, j) ==> is_plain_segment(bytes.subrange(i, j))
}

/// Why a text is no normalized path, if it is none.
pub open spec fn path_fault(text: Seq<char>) -> Option<NameError> {
    let bytes = utf8(text);
    if bytes.len() == 0 {
        Some(NameError { reason: "path is empty" })
    } else if bytes.len() > MAX_PATH_BYTES {
        Some(NameError { reason: "path is too long" })
    } else if first_index_of(bytes, 0) < bytes.len() {
        Some(NameError { reason: "path contains NUL" })
    } else if !all_segments_plain(bytes) {
        Some(NameError { reason: "path has an empty or dot segment" })
    } else {
        None
    }
}

fn segments_plain(bytes: &[u8]) -> (plain: bool)
    ensures
        plain == all_segments_plain(bytes@),
{
    let mut start: usize = 0;
    let mut i: usize = 0;
    loop
        invariant
            start <= i <= bytes@.len(),
            start == 0 || bytes@[start - 1] == 0x2f,
            forall|k: int| start <= k < i ==> bytes@[k] != 0x2f,
            forall|a: int, b: int|
                #![trigger is_segment(bytes@, a, b)]
                is_segment(bytes@, a, b) && a < start ==> is_plain_segment(bytes@.subrange(a, b)),
        decreases bytes@.len() - i,
    {
        if i == bytes.len() || bytes[i] == 0x2f {
            assert(is_segment(bytes@, start as int, i as int));
            let length: usize = i - start;
            let ghost segment = bytes@.subrange(start as int, i as int);
            if length == 0 {
                return false;
            }
            if length == 1 && bytes[start] == 0x2e {
                assert(segment =~= seq![0x2eu8]);
                return false;
            }
            if length == 2 && bytes[start] == 0x2e && bytes[start + 1] == 0x2e {
                assert(segment =~= seq![0x2eu8, 0x2eu8]);
                return false;
            }
            proof {
                assert(segment[0] == bytes@[start as int]);
                if length == 2 {
                    assert(segment[1] == bytes@[start + 1]);
                }
                assert(is_plain_segment(segment));
                assert forall|a: int, b: int|
                    #![trigger is_segment(bytes@, a, b)]
                    is_segment(bytes@, a, b) && a <= i implies is_plain_segment(
                    bytes@.subrange(a, b),
                ) by {
                    if a >= start {
                        if a > start {
                            assert(bytes@[a - 1] == 0x2f);
                        }
                        if b < i {
                            assert(bytes@[b] == 0x2f);
                        } else if b > i {
                            assert(bytes@[i as int] != 0x2f);
                        }
                        assert(a == start && b == i);
                    }
                }
            }
            if i == bytes.len() {
                return true;
            }
            start = i + 1;
        }
        i = i + 1;
    }
}

impl NormalizedRelativePath {
    /// Accepts 1 to 4096 bytes without NUL whose `/`-separated segments are
    /// all non-empty and neither `.` nor `..`.
    pub fn new(value: &str) -> (path: Result<NormalizedRelativePath, NameError>)
        ensures
            match path {
                Ok(path) => path_fault(value@) is None && path@ == value@,
                Err(error) => path_fault(value@) == Some(error),
            },
    {
        let bytes: &[u8] = value.as_bytes();
        if bytes.len() == 0 {
            return Err(NameError { reason: "path is empty" });
        }
        if bytes.len() > MAX_PATH_BYTES {
            return Err(NameError { reason: "path is too long" });
        }
        if find_byte(bytes, 0) < bytes.len() {
            return Err(NameError { reason: "path contains NUL" });
        }
        if !segments_plain(bytes) {
            return Err(NameError { reason: "path has an empty or dot segment" });
        }
        Ok(NormalizedRelativePath { text: value.to_owned() })
    }

    pub fn as_str(&self) -> (text: &str)
        ensures
            text@ == self@,
    {
        self.text.as_str()
    }

    pub fn as_bytes(&self) -> (bytes: &[u8])
        ensures
            bytes@ == utf8(self@),
    {
        self.text.as_str().as_bytes()
    }
}

impl Clone for NormalizedRelativePath {
    fn clone(&self) -> (copy: Self)
        ensures
            copy == *self,
    {
        NormalizedRelativePath { text: self.text.clone() }
    }
}

} // verus!
