//! The payment record, its wire layout, and the encode/decode pair.

use crate::endian::read_u32_be;
use crate::endian::read_u64_be;
use crate::endian::push_u32_be;
use crate::endian::push_u64_be;
use crate::endian::spec_u32_from_be_bytes;
use crate::endian::spec_u32_to_be_bytes;
use crate::endian::spec_u64_to_be_bytes;
use vstd::prelude::*;
use vstd::utf8::encode_utf8;
use vstd::utf8::valid_utf8;

verus! {

broadcast use {vstd::slice::group_slice_axioms, vstd::utf8::encode_utf8_valid_utf8};

/// The largest byte length a decoder accepts for either text field.
///
/// The check runs before the field body is read, so a hostile length
/// prefix cannot force an oversized read or allocation.
pub const MAX_LEN: u32 = 1024;

/// Everything that can go wrong while encoding or decoding a record.
#[derive(Debug, PartialEq)]
pub enum BitError {
    /// An underlying write failure during encode, with its description.
    Io(String),
    /// A text field's bytes are not valid UTF-8; carries a description.
    Utf8(String),
    /// Fewer bytes remain than the current field requires.
    InsufficientData,
    /// Bytes remain after a complete record has been parsed.
    TrailingData,
    /// A declared field length exceeds [`MAX_LEN`].
    StringTooLong,
}

/// The variant of a [`BitError`], without the descriptive payload that
/// the `Io` and `Utf8` variants carry.
pub enum ErrorKind {
    Io,
    Utf8,
    InsufficientData,
    TrailingData,
    StringTooLong,
}

impl BitError {
    /// The variant of this error, payload stripped.
    pub open spec fn kind(self) -> ErrorKind {
        match self {
            BitError::Io(_) => ErrorKind::Io,
            BitError::Utf8(_) => ErrorKind::Utf8,
            BitError::InsufficientData => ErrorKind::InsufficientData,
            BitError::TrailingData => ErrorKind::TrailingData,
            BitError::StringTooLong => ErrorKind::StringTooLong,
        }
    }
}

/// A payment: who pays, who is paid, and how much.
#[derive(Debug, PartialEq)]
pub struct SimplePayment {
    pub from: String,
    pub to: String,
    pub amount: u64,
}

impl Default for SimplePayment {
    /// The empty payment: empty names, amount zero.
    fn default() -> (r: Self)
        ensures
            r.from@ == Seq::<char>::empty(),
            r.to@ == Seq::<char>::empty(),
            r.amount == 0,
    {
        SimplePayment { from: String::new(), to: String::new(), amount: 0 }
    }
}

/// The wire form of a record whose text fields have the given UTF-8 bytes:
/// each field is prefixed by its byte length as a big-endian `u32`, and the
/// amount follows as eight big-endian bytes.
///
/// The prefix holds the low 32 bits of the byte length, which is all the
/// wire format can carry; for any field a decoder accepts the length is at
/// most [`MAX_LEN`], far below that boundary.
pub open spec fn wire(fb: Seq<u8>, tb: Seq<u8>, amount: u64) -> Seq<u8> {
    spec_u32_to_be_bytes((fb.len() % 0x1_0000_0000) as u32) + fb + spec_u32_to_be_bytes((
    tb.len() % 0x1_0000_0000) as u32) + tb + spec_u64_to_be_bytes(amount)
}

/// The length declared by the four prefix bytes at offset `pos`.
pub open spec fn field_len(b: Seq<u8>, pos: int) -> int {
    spec_u32_from_be_bytes(b.subrange(pos, pos + 4)) as int
}

/// The body of the length-prefixed field at offset `pos`.
pub open spec fn field_bytes(b: Seq<u8>, pos: int) -> Seq<u8> {
    b.subrange(pos + 4, pos + 4 + field_len(b, pos))
}

/// The offset just past the length-prefixed field at offset `pos`.
pub open spec fn field_end(b: Seq<u8>, pos: int) -> int {
    pos + 4 + field_len(b, pos)
}

/// Why parsing the length-prefixed field at offset `pos` fails, or `None`
/// if it succeeds. The declared length is held against [`MAX_LEN`] before
/// the body is looked at.
pub open spec fn field_fail(b: Seq<u8>, pos: int) -> Option<ErrorKind> {
    if b.len() - pos < 4 {
        Some(ErrorKind::InsufficientData)
    } else if field_len(b, pos) > MAX_LEN {
        Some(ErrorKind::StringTooLong)
    } else if b.len() - pos - 4 < field_len(b, pos) {
        Some(ErrorKind::InsufficientData)
    } else if !valid_utf8(field_bytes(b, pos)) {
        Some(ErrorKind::Utf8)
    } else {
        None
    }
}

/// Why decoding the buffer `b` as one complete record fails, or `None` if
/// it succeeds: the `from` field, then the `to` field, then eight bytes of
/// amount, with nothing left over.
pub open spec fn spec_fail(b: Seq<u8>) -> Option<ErrorKind> {
    if field_fail(b, 0) is Some {
        field_fail(b, 0)
    } else {
        let p1 = field_end(b, 0);
        if field_fail(b, p1) is Some {
            field_fail(b, p1)
        } else {
            let p2 = field_end(b, p1);
            if b.len() - p2 < 8 {
                Some(ErrorKind::InsufficientData)
            } else if b.len() - p2 > 8 {
                Some(ErrorKind::TrailingData)
            } else {
                None
            }
        }
    }
}

/// Appends every byte of `s` to `buf`.
fn push_bytes(buf: &mut Vec<u8>, s: &[u8])
    ensures
        final(buf)@ == old(buf)@ + s@,
{
    let n = s.len();
    let mut i: usize = 0;
    while i < n
        invariant
            n == s@.len(),
            i <= n,
            buf@ == old(buf)@ + s@.subrange(0, i as int),
        decreases n - i,
    {
        buf.push(*vstd::slice::slice_index_get(s, i));
        i = i + 1;
        proof {
            assert(buf@ =~= old(buf)@ + s@.subrange(0, i as int));
        }
    }
    proof {
        assert(buf@ =~= old(buf)@ + s@);
    }
}

/// Relies on `String::from_utf8`: it returns the string whose UTF-8 bytes
/// are exactly the input, and fails exactly when the input is not valid
/// UTF-8. The error's description is passed along as plain text.
#[verifier::external_body]
fn bytes_to_string(v: Vec<u8>) -> (r: Result<String, String>)
    ensures
        match r {
            Ok(s) => encode_utf8(s@) == v@,
            Err(_) => !valid_utf8(v@),
        },
{
    match String::from_utf8(v) {
        Ok(s) => Ok(s),
        Err(e) => Err(e.to_string()),
    }
}

impl SimplePayment {
    /// Serializes this record: each text field as its UTF-8 bytes behind a
    /// big-endian length prefix, then the amount, with no separators.
    ///
    /// Encoding never fails, and does not hold the fields to [`MAX_LEN`]:
    /// a record whose field exceeds the limit encodes to a buffer that
    /// [`SimplePayment::decode`] will later reject.
    pub fn encode(&self) -> (r: Result<Vec<u8>, BitError>)
        ensures
            r matches Ok(b) && b@ == wire(
                encode_utf8(self.from@),
                encode_utf8(self.to@),
                self.amount,
            ),
    {
        let mut buf: Vec<u8> = Vec::new();

        let from_bytes = self.from.as_str().as_bytes();
        let from_len = (from_bytes.len() as u64 % 0x1_0000_0000) as u32;
        push_u32_be(&mut buf, from_len);
        push_bytes(&mut buf, from_bytes);

        let to_bytes = self.to.as_str().as_bytes();
        let to_len = (to_bytes.len() as u64 % 0x1_0000_0000) as u32;
        push_u32_be(&mut buf, to_len);
        push_bytes(&mut buf, to_bytes);

        push_u64_be(&mut buf, self.amount);
        proof {
            assert(buf@ =~= wire(encode_utf8(self.from@), encode_utf8(self.to@), self.amount));
        }
        Ok(buf)
    }

    /// Parses one record from `bytes`: the `from` field, then the `to`
    /// field, then eight bytes of amount, with nothing left over. Each
    /// declared field length is held against [`MAX_LEN`] before the field
    /// body is read.
    ///
    /// On success the input is exactly the wire form of the returned
    /// record; on failure the error is the one [`spec_fail`] names.
    pub fn decode(bytes: &[u8]) -> (r: Result<Self, BitError>)
        ensures
            match r {
                Ok(p) => {
                    &&& spec_fail(bytes@) is None
                    &&& bytes@ == wire(encode_utf8(p.from@), encode_utf8(p.to@), p.amount)
                    &&& encode_utf8(p.from@).len() <= MAX_LEN
                    &&& encode_utf8(p.to@).len() <= MAX_LEN
                },
                Err(e) => spec_fail(bytes@) == Some(e.kind()),
            },
    {
        proof {
            vstd::slice::axiom_spec_len(bytes);
        }
        let mut cursor: usize = 0;

        let from = match read_string_from_cursor(bytes, &mut cursor) {
            Ok(s) => s,
            Err(e) => {
                return Err(e);
            },
        };
        let ghost p1 = cursor as int;

        let to = match read_string_from_cursor(bytes, &mut cursor) {
            Ok(s) => s,
            Err(e) => {
                return Err(e);
            },
        };
        let ghost p2 = cursor as int;

        if bytes.len() - cursor < 8 {
            return Err(BitError::InsufficientData);
        }
        let amount = read_u64_be(bytes, cursor);
        if cursor + 8 < bytes.len() {
            return Err(BitError::TrailingData);
        }

        let p = SimplePayment { from, to, amount };
        proof {
            crate::endian::lemma_u32_be_bytes_inverse(bytes@.subrange(0, 4));
            crate::endian::lemma_u32_be_bytes_inverse(bytes@.subrange(p1, p1 + 4));
            crate::endian::lemma_u64_be_bytes_inverse(bytes@.subrange(p2, p2 + 8));
            assert(bytes@ =~= wire(encode_utf8(p.from@), encode_utf8(p.to@), p.amount));
        }
        Ok(p)
    }
}

/// Reads one length-prefixed UTF-8 field from `bytes`, starting at
/// `*cursor` and leaving the cursor just past the field on success.
pub fn read_string_from_cursor(bytes: &[u8], cursor: &mut usize) -> (r: Result<String, BitError>)
    requires
        *old(cursor) <= bytes@.len(),
    ensures
        match r {
            Ok(s) => {
                &&& field_fail(bytes@, *old(cursor) as int) is None
                &&& encode_utf8(s@) == field_bytes(bytes@, *old(cursor) as int)
                &&& *final(cursor) == field_end(bytes@, *old(cursor) as int)
                &&& *final(cursor) <= bytes@.len()
            },
            Err(e) => field_fail(bytes@, *old(cursor) as int) == Some(e.kind()),
        },
{
    let pos = *cursor;
    if bytes.len() - pos < 4 {
        return Err(BitError::InsufficientData);
    }
    let len = read_u32_be(bytes, pos);
    if len > MAX_LEN {
        return Err(BitError::StringTooLong);
    }
    let start = pos + 4;
    if bytes.len() - start < len as usize {
        return Err(BitError::InsufficientData);
    }
    let end = start + len as usize;
    let body = vstd::slice::slice_subrange(bytes, start, end);
    let buf = vstd::slice::slice_to_vec(body);
    *cursor = end;
    match bytes_to_string(buf) {
        Ok(s) => Ok(s),
        Err(msg) => Err(BitError::Utf8(msg)),
    }
}

} // verus!
