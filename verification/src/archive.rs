//! The named-tensor archive that a checkpoint is stored in.
//!
//! Parsing and lookup are left to the `safetensors` crate. Its behaviour is
//! stated here and not proved. What is proved is the test that keeps a buffer
//! away from the parser whose header gives an offset beyond the machine word.
use safetensors::{SafeTensorError, SafeTensors};
use vstd::prelude::*;

verus! {

/// `safetensors::SafeTensors`: a parsed archive, which borrows the buffer it
/// was parsed from. Nothing inside it is seen here.
#[verifier::external_type_specification]
#[verifier::external_body]
pub struct ExSafeTensors<'data>(SafeTensors<'data>);

/// `safetensors::SafeTensorError`: why parsing or a lookup failed. Nothing
/// inside it is seen here.
#[verifier::external_type_specification]
#[verifier::external_body]
pub struct ExSafeTensorError(SafeTensorError);

/// Why a buffer could not be opened as an archive.
#[derive(Debug)]
pub enum ArchiveError {
    /// The header holds, where an offset may stand, a number that, added to
    /// the length of the header, is beyond the machine word: no tensor of
    /// the buffer can end there.
    OffsetOutOfRange,
    /// The parser refused the buffer.
    Parser { cause: SafeTensorError },
}

/// What parsing a byte buffer as an archive gives: for each tensor name the
/// raw bytes stored under it, or `None` for a buffer that is no archive.
pub uninterp spec fn parsed_archive(bytes: Seq<u8>) -> Option<Map<Seq<char>, Seq<u8>>>;

/// The tensors of a parsed archive: for each name the raw bytes stored under
/// it.
pub uninterp spec fn archive_tensors(archive: &SafeTensors) -> Map<Seq<char>, Seq<u8>>;

/// The length of the header, as the first eight bytes of the buffer give it:
/// a little-endian number.
pub open spec fn header_len(bytes: Seq<u8>) -> nat {
    (bytes[0] as nat) + 0x100 * (bytes[1] as nat) + 0x1_0000 * (bytes[2] as nat) + 0x100_0000 * (
    bytes[3] as nat) + 0x1_0000_0000 * (bytes[4] as nat) + 0x100_0000_0000 * (bytes[5] as nat)
        + 0x1_0000_0000_0000 * (bytes[6] as nat) + 0x100_0000_0000_0000 * (bytes[7] as nat)
}

/// The header of the buffer: the bytes that follow the first eight, as many
/// as these announce, where the buffer holds that many.
pub open spec fn header_of(bytes: Seq<u8>) -> Option<Seq<u8>> {
    if bytes.len() >= 8 && header_len(bytes) <= bytes.len() - 8 {
        Some(bytes.subrange(8, 8 + header_len(bytes) as int))
    } else {
        None
    }
}

/// Whether the byte is a decimal digit.
pub open spec fn is_digit(b: u8) -> bool {
    0x30 <= b <= 0x39
}

/// The key under which the header of an archive gives the dimensions of a
/// tensor: `shape`, as bytes.
pub open spec fn shape_key() -> Seq<u8> {
    seq![0x73, 0x68, 0x61, 0x70, 0x65]
}

/// How far a JSON text has been read.
pub struct Reading {
    /// Whether the position lies inside a string literal.
    pub in_string: bool,
    /// Whether the character in front of the position was a backslash that
    /// takes the next character out of its meaning.
    pub escaped: bool,
    /// How many characters of the shape key the string literal that was
    /// opened last has spelled, and no others; one more than the key has
    /// once the literal departs from the key or holds a backslash.
    pub spelled: nat,
    /// The number that the decimal digits in front of the position write,
    /// outside of any string literal and not behind the shape key; zero
    /// elsewhere.
    pub number: nat,
}

impl Reading {
    /// The string literal that was read last is the shape key, letter for
    /// letter: what follows it are the dimensions of a tensor.
    pub open spec fn names_shape(self) -> bool {
        self.spelled == shape_key().len()
    }
}

/// The reading of the text up to position `k`. A string literal runs from a
/// quotation mark to the next one that no backslash escapes. The number is
/// the value of the longest run of digits that ends at the position, outside
/// of any string literal and with another string literal than the shape key
/// as the last one in front of it; zero where there is no such run.
pub open spec fn reading(text: Seq<u8>, k: int) -> Reading
    decreases k,
{
    if k <= 0 {
        Reading { in_string: false, escaped: false, spelled: 0, number: 0 }
    } else {
        let before = reading(text, k - 1);
        let b = text[k - 1];
        if before.in_string {
            if before.escaped {
                Reading { escaped: false, number: 0, ..before }
            } else if b == 0x5c {
                Reading { escaped: true, spelled: shape_key().len() + 1, number: 0, ..before }
            } else if b == 0x22 {
                Reading { in_string: false, number: 0, ..before }
            } else if before.spelled < shape_key().len() && b == shape_key()[before.spelled as int] {
                Reading { spelled: before.spelled + 1, number: 0, ..before }
            } else {
                Reading { spelled: shape_key().len() + 1, number: 0, ..before }
            }
        } else if b == 0x22 {
            Reading { in_string: true, escaped: false, spelled: 0, number: 0 }
        } else if is_digit(b) && !before.names_shape() {
            Reading { number: 10 * before.number + (b - 0x30) as nat, ..before }
        } else {
            Reading { number: 0, ..before }
        }
    }
}

/// No run of decimal digits in the text that may write an offset writes a
/// number above the limit: none outside of the string literals and the
/// dimensions.
pub open spec fn numbers_within(text: Seq<u8>, limit: nat) -> bool {
    forall|k: int| 0 <= k <= text.len() ==> reading(text, k).number <= limit
}

/// Every number of the header that may be an offset can be added to the
/// length of the header and to the eight bytes in front of it within the
/// machine word. A buffer too short for its header has no offset to add.
pub open spec fn offsets_fit(bytes: Seq<u8>) -> bool {
    match header_of(bytes) {
        None => true,
        Some(header) => numbers_within(header, (usize::MAX - 8 - header.len()) as nat),
    }
}

/// What opening a byte buffer as an archive gives: what parsing it gives,
/// unless a number of its header is out of range.
pub open spec fn archive_of(bytes: Seq<u8>) -> Option<Map<Seq<char>, Seq<u8>>> {
    if offsets_fit(bytes) {
        parsed_archive(bytes)
    } else {
        None
    }
}

/// Calls `SafeTensors::deserialize`, which reads the length-prefixed JSON
/// header of the buffer and checks it against the data that follows. Claimed:
/// whether it succeeds, and which tensors the archive then holds, depends on
/// the bytes alone.
///
/// The crate adds the end of the last tensor, as the header gives it, to the
/// length of the header and to eight, with a plain `+`, before it compares
/// the sum with the length of the buffer. That end is a number of the header,
/// written as a run of decimal digits outside of any string literal. It need
/// not stand behind the key `data_offsets`: the crate also takes the entry
/// of a tensor as an array of type, dimensions and offsets. It never stands
/// behind the key `shape`: in front of an offset stands the offsets' key or
/// the tensor's type. The call is kept to buffers in which no number that may
/// be an offset brings the sum beyond the machine word.
#[verifier::external_body]
fn parse_archive<'a>(bytes: &'a [u8]) -> (r: Result<SafeTensors<'a>, SafeTensorError>)
    requires
        offsets_fit(bytes@),
    ensures
        r is Ok <==> parsed_archive(bytes@) is Some,
        r matches Ok(archive) ==> archive_tensors(&archive) == parsed_archive(bytes@).unwrap(),
{
    SafeTensors::deserialize(bytes)
}

/// Calls `SafeTensors::tensor` and takes the data of the view it returns.
/// Claimed: the lookup succeeds exactly for the names that the archive holds,
/// and gives the bytes stored under the name.
#[verifier::external_body]
fn tensor_bytes<'a>(archive: &SafeTensors<'a>, name: &str) -> (r: Result<&'a [u8], SafeTensorError>)
    ensures
        r is Ok <==> archive_tensors(archive).contains_key(name@),
        r matches Ok(bytes) ==> bytes@ == archive_tensors(archive)[name@],
{
    Ok(archive.tensor(name)?.data())
}

/// Reads the length of the header from the start of a buffer.
pub fn read_header_len(bytes: &[u8]) -> (r: u64)
    requires
        bytes@.len() >= 8,
    ensures
        r == header_len(bytes@),
{
    bytes[0] as u64 + 0x100 * (bytes[1] as u64) + 0x1_0000 * (bytes[2] as u64) + 0x100_0000 * (
    bytes[3] as u64) + 0x1_0000_0000 * (bytes[4] as u64) + 0x100_0000_0000 * (bytes[5] as u64)
        + 0x1_0000_0000_0000 * (bytes[6] as u64) + 0x100_0000_0000_0000 * (bytes[7] as u64)
}

/// One byte of the shape key.
fn shape_key_byte(k: usize) -> (r: u8)
    requires
        k < shape_key().len(),
    ensures
        r == shape_key()[k as int],
{
    if k == 0 {
        0x73
    } else if k == 1 {
        0x68
    } else if k == 2 {
        0x61
    } else if k == 3 {
        0x70
    } else {
        0x65
    }
}

/// Whether every number of the header that may be an offset can be added to
/// the length of the header and to eight within the machine word.
pub fn offsets_in_range(bytes: &[u8]) -> (r: bool)
    ensures
        r == offsets_fit(bytes@),
{
    let len: usize = bytes.len();
    if len < 8 {
        return true;
    }
    let announced: u64 = read_header_len(bytes);
    if announced > (len - 8) as u64 {
        return true;
    }
    let n: usize = announced as usize;
    let limit: usize = usize::MAX - 8 - n;
    let ghost header = bytes@.subrange(8, 8 + n as int);
    let mut in_string: bool = false;
    let mut escaped: bool = false;
    let mut spelled: usize = 0;
    let mut run: usize = 0;
    let mut i: usize = 0;
    while i < n
        invariant
            len == bytes@.len(),
            8 + n <= len,
            header == bytes@.subrange(8, 8 + n as int),
            header_of(bytes@) == Some(header),
            limit == usize::MAX - 8 - n,
            i <= n,
            spelled <= 6,
            reading(header, i as int) == (Reading {
                in_string,
                escaped,
                spelled: spelled as nat,
                number: run as nat,
            }),
            forall|k: int| 0 <= k <= i ==> reading(header, k).number <= limit,
        decreases n - i,
    {
        let b: u8 = bytes[8 + i];
        assert(header[i as int] == b);
        if in_string {
            if escaped {
                escaped = false;
            } else if b == 0x5c {
                escaped = true;
                spelled = 6;
            } else if b == 0x22 {
                in_string = false;
            } else if spelled < 5 && b == shape_key_byte(spelled) {
                spelled = spelled + 1;
            } else {
                spelled = 6;
            }
            run = 0;
        } else if b == 0x22 {
            in_string = true;
            escaped = false;
            spelled = 0;
            run = 0;
        } else if b >= 0x30 && b <= 0x39 && spelled != 5 {
            let d: usize = (b - 0x30) as usize;
            if limit < d || run > (limit - d) / 10 {
                assert(reading(header, i + 1).number > limit);
                return false;
            }
            run = 10 * run + d;
        } else {
            run = 0;
        }
        i = i + 1;
    }
    true
}

/// Opens a byte buffer as an archive of named tensors.
///
/// A buffer whose header holds a number out of range where an offset may
/// stand is refused before it is parsed: no tensor that the buffer holds ends
/// there. Digits inside a string, as in a name, and behind the key `shape`
/// are no offset.
pub fn open_archive<'a>(bytes: &'a [u8]) -> (r: Result<SafeTensors<'a>, ArchiveError>)
    ensures
        r is Ok <==> archive_of(bytes@) is Some,
        r matches Ok(archive) ==> archive_tensors(&archive) == archive_of(bytes@).unwrap(),
        r matches Err(e) ==> (e is OffsetOutOfRange <==> !offsets_fit(bytes@)),
{
    if !offsets_in_range(bytes) {
        return Err(ArchiveError::OffsetOutOfRange);
    }
    match parse_archive(bytes) {
        Ok(archive) => Ok(archive),
        Err(cause) => Err(ArchiveError::Parser { cause }),
    }
}

/// Looks a tensor up by name.
pub fn find_tensor<'a>(archive: &SafeTensors<'a>, name: &str) -> (r: Option<&'a [u8]>)
    ensures
        r is Some <==> archive_tensors(archive).contains_key(name@),
        r matches Some(bytes) ==> bytes@ == archive_tensors(archive)[name@],
{
    match tensor_bytes(archive, name) {
        Ok(bytes) => Some(bytes),
        Err(_) => None,
    }
}

} // verus!
