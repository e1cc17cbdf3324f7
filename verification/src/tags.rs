//! The comment header of an Ogg Opus stream, the packet that starts with
//! `OpusTags`.
//!
//! ```text
//! 8 bytes   magic signature
//! 4 bytes   length of the vendor string, little endian
//! n bytes   vendor string
//! 4 bytes   number of comments, little endian
//! then, for each comment:
//! 4 bytes   length of the comment, little endian
//! n bytes   the comment, `NAME=value`
//! ```

use byteorder::ByteOrder;
use byteorder::LittleEndian;
use vstd::prelude::*;
use vstd::slice::slice_subrange;
use vstd::slice::slice_to_vec;

verus! {

/// The number of bytes of the magic signature in front of the header.
pub const MAGIC_LENGTH: usize = 8;

/// The byte `=` between the name and the value of a comment.
pub const SEPARATOR: u8 = 0x3d;

/// Why a comment header could not be read.
#[derive(Debug, Clone, Copy, PartialEq, Eq, Structural)]
pub enum MetaDataError {
    /// The header ends before a length, or before the bytes that a length
    /// declares.
    Truncated,
    /// A comment holds no `=`.
    MissingSeparator,
}

/// One entry of a comment header: the name in front of the `=` and the value
/// behind it. The entry of the vendor string has an empty name.
#[derive(Debug)]
pub struct FieldData {
    pub name: Vec<u8>,
    pub info: Vec<u8>,
}

/// The mathematical value of a [`FieldData`].
pub struct FieldView {
    pub name: Seq<u8>,
    pub info: Seq<u8>,
}

impl View for FieldData {
    type V = FieldView;

    open spec fn view(&self) -> FieldView {
        FieldView { name: self.name@, info: self.info@ }
    }
}

/// The values of a list of entries, in order.
pub open spec fn spec_fields(fields: Seq<FieldData>) -> Seq<FieldView> {
    Seq::new(fields.len(), |i: int| fields[i]@)
}

/// The number that the first four bytes of `bytes` encode, least significant
/// byte first.
pub open spec fn spec_u32_le(bytes: Seq<u8>) -> int {
    bytes[0] + 0x100 * bytes[1] + 0x1_0000 * bytes[2] + 0x100_0000 * bytes[3]
}

/// The string at `pos` in `data`: four bytes of length, then as many bytes
/// as the length says. The result is where the bytes of the string start and
/// end; there is none if `data` ends before the string does.
pub open spec fn spec_string(data: Seq<u8>, pos: int) -> Option<(int, int)> {
    if pos < 0 || pos + 4 > data.len() {
        None
    } else {
        let from = pos + 4;
        let to = from + spec_u32_le(data.subrange(pos, from));
        if to > data.len() {
            None
        } else {
            Some((from, to))
        }
    }
}

/// The first `=` of `text` is at index `at`.
pub open spec fn spec_is_first_separator(text: Seq<u8>, at: int) -> bool {
    &&& 0 <= at < text.len()
    &&& text[at] == SEPARATOR
    &&& forall|j: int| 0 <= j < at ==> text[j] != SEPARATOR
}

/// The comment `text` divided at its first `=`; none if it holds no `=`.
pub open spec fn spec_field(text: Seq<u8>) -> Option<FieldView> {
    if exists|at: int| spec_is_first_separator(text, at) {
        let at = choose|at: int| spec_is_first_separator(text, at);
        Some(FieldView { name: text.take(at), info: text.skip(at + 1) })
    } else {
        None
    }
}

/// Up to `count` comments read one behind the other from `pos`. An empty
/// comment ends the list early.
pub open spec fn spec_comments(data: Seq<u8>, pos: int, count: nat) -> Result<
    Seq<FieldView>,
    MetaDataError,
>
    decreases count,
{
    if count == 0 {
        Ok(Seq::empty())
    } else {
        match spec_string(data, pos) {
            None => Err(MetaDataError::Truncated),
            Some((from, to)) => if from == to {
                Ok(Seq::empty())
            } else {
                match spec_field(data.subrange(from, to)) {
                    None => Err(MetaDataError::MissingSeparator),
                    Some(field) => spec_after(
                        seq![field],
                        spec_comments(data, to, (count - 1) as nat),
                    ),
                }
            },
        }
    }
}

/// The entries `done` in front of the entries that are still to come, if
/// those can be read.
pub open spec fn spec_after(
    done: Seq<FieldView>,
    rest: Result<Seq<FieldView>, MetaDataError>,
) -> Result<Seq<FieldView>, MetaDataError> {
    match rest {
        Ok(fields) => Ok(done + fields),
        Err(e) => Err(e),
    }
}

/// The entries of the comment header `data`: the vendor string under an
/// empty name, then the comments.
pub open spec fn spec_meta_data(data: Seq<u8>) -> Result<Seq<FieldView>, MetaDataError> {
    match spec_string(data, MAGIC_LENGTH as int) {
        None => Err(MetaDataError::Truncated),
        Some((from, to)) => if to + 4 > data.len() {
            Err(MetaDataError::Truncated)
        } else {
            spec_after(
                seq![FieldView { name: Seq::empty(), info: data.subrange(from, to) }],
                spec_comments(data, to + 4, spec_u32_le(data.subrange(to, to + 4)) as nat),
            )
        },
    }
}

/// A comment has one first `=`.
pub proof fn lemma_first_separator_unique(text: Seq<u8>, a: int, b: int)
    requires
        spec_is_first_separator(text, a),
        spec_is_first_separator(text, b),
    ensures
        a == b,
{
}

/// A comment that is divided at its first `=` can be put together again, and
/// the name holds no `=`. A comment is without a division exactly if it holds
/// no `=` at all.
pub proof fn lemma_field_rejoins(text: Seq<u8>)
    ensures
        spec_field(text) matches Some(field) ==> field.name + seq![SEPARATOR] + field.info == text
            && !field.name.contains(SEPARATOR),
        spec_field(text) is None <==> !text.contains(SEPARATOR),
{
    if text.contains(SEPARATOR) {
        let i = choose|i: int| 0 <= i < text.len() && text[i] == SEPARATOR;
        lemma_separator_before(text, i);
    }
}

/// The comments that can be read are at most as many as were asked for, and
/// none of their names holds a `=`.
pub proof fn lemma_comments_entries(data: Seq<u8>, pos: int, count: nat)
    ensures
        spec_comments(data, pos, count) matches Ok(fields) ==> fields.len() <= count && forall|
            i: int,
        |
            0 <= i < fields.len() ==> !(#[trigger] fields[i]).name.contains(SEPARATOR),
    decreases count,
{
    if count > 0 {
        if let Some((from, to)) = spec_string(data, pos) {
            if from != to {
                lemma_field_rejoins(data.subrange(from, to));
                lemma_comments_entries(data, to, (count - 1) as nat);
            }
        }
    }
}

/// The entries of a comment header that can be read: the first is the vendor
/// string under an empty name; the others are comments, at most as many as
/// the header declares, and none of their names holds a `=`.
pub proof fn lemma_meta_data_entries(data: Seq<u8>)
    requires
        spec_meta_data(data) is Ok,
    ensures
        ({
            let fields = spec_meta_data(data)->Ok_0;
            let (from, to) = spec_string(data, MAGIC_LENGTH as int)->Some_0;
            &&& MAGIC_LENGTH + 4 == from <= to <= data.len() - 4
            &&& 1 <= fields.len() <= 1 + spec_u32_le(data.subrange(to, to + 4))
            &&& fields[0] == FieldView { name: Seq::empty(), info: data.subrange(from, to) }
            &&& forall|i: int|
                1 <= i < fields.len() ==> !(#[trigger] fields[i]).name.contains(SEPARATOR)
        }),
{
    let to = spec_string(data, MAGIC_LENGTH as int)->Some_0.1;
    let count = spec_u32_le(data.subrange(to, to + 4)) as nat;
    lemma_comments_entries(data, to + 4, count);
}

proof fn lemma_separator_before(text: Seq<u8>, i: int)
    requires
        0 <= i < text.len(),
        text[i] == SEPARATOR,
    ensures
        exists|at: int| spec_is_first_separator(text, at),
    decreases i,
{
    if exists|j: int| 0 <= j < i && text[j] == SEPARATOR {
        let j = choose|j: int| 0 <= j < i && text[j] == SEPARATOR;
        lemma_separator_before(text, j);
    } else {
        assert(spec_is_first_separator(text, i));
    }
}

/// Decodes the first four bytes of `buf` as a little-endian number with
/// `byteorder::ByteOrder::read_u32` of `byteorder::LittleEndian`. That
/// function panics on fewer than four bytes, and returns
/// `u32::from_le_bytes` of the first four otherwise: the first byte is the
/// least significant.
#[verifier::external_body]
fn read_u32_le(buf: &[u8]) -> (value: u32)
    requires
        buf@.len() >= 4,
    ensures
        value == spec_u32_le(buf@),
{
    LittleEndian::read_u32(buf)
}

/// Reads the string at `pos`: returns where its bytes start and end.
fn read_string(data: &[u8], pos: usize) -> (r: Option<(usize, usize)>)
    ensures
        match r {
            Some((from, to)) => spec_string(data@, pos as int) == Some((from as int, to as int)),
            None => spec_string(data@, pos as int) is None,
        },
        r matches Some((from, to)) ==> pos + 4 == from <= to <= data@.len(),
{
    let len: usize = data.len();
    if pos > len || len - pos < 4 {
        return None;
    }
    let from: usize = pos + 4;
    let length: u32 = read_u32_le(slice_subrange(data, pos, from));
    if length as usize > len - from {
        return None;
    }
    Some((from, from + length as usize))
}

/// Finds the first `=` of a comment.
fn find_separator(text: &[u8]) -> (r: Option<usize>)
    ensures
        match r {
            Some(at) => spec_is_first_separator(text@, at as int),
            None => forall|at: int| !spec_is_first_separator(text@, at),
        },
{
    let mut at: usize = 0;
    while at < text.len()
        invariant
            at <= text@.len(),
            forall|j: int| 0 <= j < at ==> text@[j] != SEPARATOR,
        decreases text@.len() - at,
    {
        if text[at] == SEPARATOR {
            return Some(at);
        }
        at = at + 1;
    }
    None
}

/// Divides a comment at its first `=` into a name and a value. Returns
/// `None` if the comment holds no `=`.
pub fn split_field(text: &[u8]) -> (r: Option<FieldData>)
    ensures
        match r {
            Some(field) => spec_field(text@) == Some(field@),
            None => spec_field(text@) is None,
        },
{
    let len: usize = text.len();
    match find_separator(text) {
        None => None,
        Some(at) => {
            let name: Vec<u8> = slice_to_vec(slice_subrange(text, 0, at));
            let info: Vec<u8> = slice_to_vec(slice_subrange(text, at + 1, len));
            proof {
                let chosen = choose|c: int| spec_is_first_separator(text@, c);
                lemma_first_separator_unique(text@, at as int, chosen);
            }
            Some(FieldData { name, info })
        },
    }
}

/// Reads a comment header: the vendor string, as an entry with an empty
/// name, and the comments behind it, each divided at its first `=`. The list
/// of comments ends with the number of comments that the header declares, or
/// early with a comment of length zero.
pub fn read_meta_data(comments_bytes: &[u8]) -> (r: Result<Vec<FieldData>, MetaDataError>)
    ensures
        match r {
            Ok(fields) => spec_meta_data(comments_bytes@) == Ok::<Seq<FieldView>, MetaDataError>(
                spec_fields(fields@),
            ),
            Err(e) => spec_meta_data(comments_bytes@) == Err::<Seq<FieldView>, MetaDataError>(e),
        },
{
    let len: usize = comments_bytes.len();
    let (from, to) = match read_string(comments_bytes, MAGIC_LENGTH) {
        Some(vendor) => vendor,
        None => {
            return Err(MetaDataError::Truncated);
        },
    };
    if len - to < 4 {
        return Err(MetaDataError::Truncated);
    }
    let count: u32 = read_u32_le(slice_subrange(comments_bytes, to, to + 4));
    let vendor = FieldData {
        name: Vec::new(),
        info: slice_to_vec(slice_subrange(comments_bytes, from, to)),
    };
    let mut metadata: Vec<FieldData> = Vec::new();
    metadata.push(vendor);
    let mut pos: usize = to + 4;
    let mut i: u32 = 0;
    assert(spec_fields(metadata@) =~= seq![vendor@]);
    while i < count
        invariant
            i <= count,
            len == comments_bytes@.len(),
            pos <= len,
            spec_meta_data(comments_bytes@) == spec_after(
                spec_fields(metadata@),
                spec_comments(comments_bytes@, pos as int, (count - i) as nat),
            ),
        decreases count - i,
    {
        let ghost done = spec_fields(metadata@);
        let (from, to) = match read_string(comments_bytes, pos) {
            Some(comment) => comment,
            None => {
                return Err(MetaDataError::Truncated);
            },
        };
        if from == to {
            return Ok(metadata);
        }
        let field: FieldData = match split_field(slice_subrange(comments_bytes, from, to)) {
            Some(field) => field,
            None => {
                return Err(MetaDataError::MissingSeparator);
            },
        };
        proof {
            let next = spec_comments(comments_bytes@, to as int, (count - i - 1) as nat);
            assert(spec_fields(metadata@.push(field)) =~= done + seq![field@]);
            if let Ok(fields) = next {
                assert(done + (seq![field@] + fields) =~= (done + seq![field@]) + fields);
            }
        }
        metadata.push(field);
        pos = to;
        i = i + 1;
    }
    Ok(metadata)
}

} // verus!
