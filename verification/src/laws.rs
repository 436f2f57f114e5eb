//! The codec's laws: round-trip identity, truncation and trailing-data
//! detection, and oversized-length rejection.

use crate::codec::field_bytes;
use crate::codec::field_end;
use crate::codec::field_fail;
use crate::codec::field_len;
use crate::codec::spec_fail;
use crate::codec::wire;
use crate::codec::ErrorKind;
use crate::codec::SimplePayment;
use crate::codec::MAX_LEN;
use crate::endian::lemma_u32_be_bytes_roundtrip;
use crate::endian::lemma_u64_be_bytes_roundtrip;
use crate::endian::spec_u32_to_be_bytes;
use crate::endian::spec_u64_to_be_bytes;
use vstd::prelude::*;
use vstd::utf8::decode_utf8;
use vstd::utf8::encode_utf8;
use vstd::utf8::valid_utf8;

verus! {

broadcast use {vstd::utf8::encode_utf8_valid_utf8, vstd::utf8::encode_utf8_decode_utf8};

/// The wire form of two valid fields within [`MAX_LEN`] decodes, and the
/// fields read back are the ones written.
pub proof fn lemma_wire_decodes(fb: Seq<u8>, tb: Seq<u8>, amount: u64)
    requires
        valid_utf8(fb),
        valid_utf8(tb),
        fb.len() <= MAX_LEN,
        tb.len() <= MAX_LEN,
    ensures
        spec_fail(wire(fb, tb, amount)) is None,
        field_bytes(wire(fb, tb, amount), 0) == fb,
        field_bytes(wire(fb, tb, amount), field_end(wire(fb, tb, amount), 0)) == tb,
{
    let w = wire(fb, tb, amount);
    let n1 = fb.len() as int;
    let n2 = tb.len() as int;
    let x1 = (fb.len() % 0x1_0000_0000) as u32;
    let x2 = (tb.len() % 0x1_0000_0000) as u32;
    lemma_u32_be_bytes_roundtrip(x1);
    lemma_u32_be_bytes_roundtrip(x2);
    assert(w.len() == 16 + n1 + n2);
    assert(w.subrange(0, 4) =~= spec_u32_to_be_bytes(x1));
    assert(field_len(w, 0) == n1);
    assert(w.subrange(4, 4 + n1) =~= fb);
    assert(field_fail(w, 0) is None);
    let p1 = field_end(w, 0);
    assert(w.subrange(p1, p1 + 4) =~= spec_u32_to_be_bytes(x2));
    assert(field_len(w, p1) == n2);
    assert(w.subrange(p1 + 4, p1 + 4 + n2) =~= tb);
    assert(field_fail(w, p1) is None);
    assert(w.len() - field_end(w, p1) == 8);
}

/// Two wire forms with fields within [`MAX_LEN`] are byte-for-byte equal
/// only if they were made from the same fields and amount.
pub proof fn lemma_wire_injective(
    fb1: Seq<u8>,
    tb1: Seq<u8>,
    a1: u64,
    fb2: Seq<u8>,
    tb2: Seq<u8>,
    a2: u64,
)
    requires
        fb1.len() <= MAX_LEN,
        tb1.len() <= MAX_LEN,
        fb2.len() <= MAX_LEN,
        tb2.len() <= MAX_LEN,
        wire(fb1, tb1, a1) == wire(fb2, tb2, a2),
    ensures
        fb1 == fb2,
        tb1 == tb2,
        a1 == a2,
{
    let w = wire(fb1, tb1, a1);
    let x1 = (fb1.len() % 0x1_0000_0000) as u32;
    let x2 = (fb2.len() % 0x1_0000_0000) as u32;
    lemma_u32_be_bytes_roundtrip(x1);
    lemma_u32_be_bytes_roundtrip(x2);
    assert(w.subrange(0, 4) =~= spec_u32_to_be_bytes(x1));
    assert(w.subrange(0, 4) =~= spec_u32_to_be_bytes(x2));
    assert(x1 == x2);
    let n1 = fb1.len() as int;
    assert(fb1 =~= w.subrange(4, 4 + n1));
    assert(fb2 =~= w.subrange(4, 4 + n1));
    assert(w.len() == 16 + fb1.len() + tb1.len());
    assert(w.len() == 16 + fb2.len() + tb2.len());
    let n2 = tb1.len() as int;
    let p1 = 4 + n1;
    assert(tb1 =~= w.subrange(p1 + 4, p1 + 4 + n2));
    assert(tb2 =~= w.subrange(p1 + 4, p1 + 4 + n2));
    let p2 = p1 + 4 + n2;
    lemma_u64_be_bytes_roundtrip(a1);
    lemma_u64_be_bytes_roundtrip(a2);
    assert(spec_u64_to_be_bytes(a1) =~= w.subrange(p2, p2 + 8));
    assert(spec_u64_to_be_bytes(a2) =~= w.subrange(p2, p2 + 8));
}

/// Round-trip identity: for a record `r` whose field byte lengths are
/// within [`MAX_LEN`], the wire form that `encode` produces decodes, and
/// any record `p` meeting `decode`'s success contract on that wire form
/// carries the same fields and amount as `r`.
pub proof fn lemma_round_trip(r: SimplePayment, p: SimplePayment)
    requires
        encode_utf8(r.from@).len() <= MAX_LEN,
        encode_utf8(r.to@).len() <= MAX_LEN,
        encode_utf8(p.from@).len() <= MAX_LEN,
        encode_utf8(p.to@).len() <= MAX_LEN,
        wire(encode_utf8(p.from@), encode_utf8(p.to@), p.amount) == wire(
            encode_utf8(r.from@),
            encode_utf8(r.to@),
            r.amount,
        ),
    ensures
        spec_fail(wire(encode_utf8(r.from@), encode_utf8(r.to@), r.amount)) is None,
        p.from@ == r.from@,
        p.to@ == r.to@,
        p.amount == r.amount,
{
    lemma_wire_decodes(encode_utf8(r.from@), encode_utf8(r.to@), r.amount);
    lemma_wire_injective(
        encode_utf8(p.from@),
        encode_utf8(p.to@),
        p.amount,
        encode_utf8(r.from@),
        encode_utf8(r.to@),
        r.amount,
    );
    assert(decode_utf8(encode_utf8(p.from@)) == p.from@);
    assert(decode_utf8(encode_utf8(r.from@)) == r.from@);
    assert(decode_utf8(encode_utf8(p.to@)) == p.to@);
    assert(decode_utf8(encode_utf8(r.to@)) == r.to@);
}

/// Truncation detection: removing one or more trailing bytes from a
/// buffer that decodes leaves one that fails with `InsufficientData`.
pub proof fn lemma_truncation_detected(b: Seq<u8>, n: int)
    requires
        spec_fail(b) is None,
        0 < n <= b.len(),
    ensures
        spec_fail(b.take(b.len() - n)) == Some(ErrorKind::InsufficientData),
{
    let len = b.len() as int;
    let n1 = field_len(b, 0);
    let p1 = field_end(b, 0);
    let n2 = field_len(b, p1);
    let p2 = field_end(b, p1);
    let m = len - n;
    let t = b.take(m);
    if m < 4 {
        assert(field_fail(t, 0) == Some(ErrorKind::InsufficientData));
    } else {
        assert(t.subrange(0, 4) =~= b.subrange(0, 4));
        assert(field_len(t, 0) == n1);
        if m - 4 < n1 {
            assert(field_fail(t, 0) == Some(ErrorKind::InsufficientData));
        } else {
            assert(t.subrange(4, 4 + n1) =~= b.subrange(4, 4 + n1));
            assert(field_fail(t, 0) is None);
            assert(field_end(t, 0) == p1);
            if m - p1 < 4 {
                assert(field_fail(t, p1) == Some(ErrorKind::InsufficientData));
            } else {
                assert(t.subrange(p1, p1 + 4) =~= b.subrange(p1, p1 + 4));
                assert(field_len(t, p1) == n2);
                if m - p1 - 4 < n2 {
                    assert(field_fail(t, p1) == Some(ErrorKind::InsufficientData));
                } else {
                    assert(t.subrange(p1 + 4, p1 + 4 + n2) =~= b.subrange(p1 + 4, p1 + 4 + n2));
                    assert(field_fail(t, p1) is None);
                    assert(field_end(t, p1) == p2);
                    assert(t.len() - p2 < 8);
                }
            }
        }
    }
}

/// Trailing-data detection: appending any non-empty byte sequence to a
/// buffer that decodes leaves one that fails with `TrailingData`.
pub proof fn lemma_trailing_detected(b: Seq<u8>, extra: Seq<u8>)
    requires
        spec_fail(b) is None,
        extra.len() > 0,
    ensures
        spec_fail(b + extra) == Some(ErrorKind::TrailingData),
{
    let len = b.len() as int;
    let n1 = field_len(b, 0);
    let p1 = field_end(b, 0);
    let n2 = field_len(b, p1);
    let p2 = field_end(b, p1);
    let c = b + extra;
    assert(c.subrange(0, 4) =~= b.subrange(0, 4));
    assert(field_len(c, 0) == n1);
    assert(c.subrange(4, 4 + n1) =~= b.subrange(4, 4 + n1));
    assert(field_fail(c, 0) is None);
    assert(field_end(c, 0) == p1);
    assert(c.subrange(p1, p1 + 4) =~= b.subrange(p1, p1 + 4));
    assert(field_len(c, p1) == n2);
    assert(c.subrange(p1 + 4, p1 + 4 + n2) =~= b.subrange(p1 + 4, p1 + 4 + n2));
    assert(field_fail(c, p1) is None);
    assert(field_end(c, p1) == p2);
    assert(c.len() - p2 > 8);
}

/// Oversized-length rejection: a buffer whose first four bytes declare a
/// `from` length beyond [`MAX_LEN`] fails with `StringTooLong`, whether or
/// not that many bytes follow.
pub proof fn lemma_oversized_rejected(b: Seq<u8>)
    requires
        b.len() >= 4,
        field_len(b, 0) > MAX_LEN,
    ensures
        spec_fail(b) == Some(ErrorKind::StringTooLong),
{
    assert(field_fail(b, 0) == Some(ErrorKind::StringTooLong));
}

} // verus!
