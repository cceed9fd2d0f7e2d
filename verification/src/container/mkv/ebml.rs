//! EBML, the binary markup Matroska is written in: element ids, variable-length sizes and
//! the elements the muxer writes.
use crate::error::Error;
use crate::io::{be16, be32, push_all, splice, ByteWriter};
use vstd::prelude::*;

verus! {

/// The eight big-endian bytes of `v`.
pub open spec fn be64(v: u64) -> Seq<u8> {
    seq![
        (v >> 56u64) as u8,
        (v >> 48u64) as u8,
        (v >> 40u64) as u8,
        (v >> 32u64) as u8,
        (v >> 24u64) as u8,
        (v >> 16u64) as u8,
        (v >> 8u64) as u8,
        v as u8,
    ]
}

/// The bytes of an element id: as many as the id needs, from one to four, big-endian.
pub open spec fn ebml_id(id: u32) -> Seq<u8> {
    if id <= 0xFF {
        seq![id as u8]
    } else if id <= 0xFFFF {
        be16(id as int)
    } else if id <= 0xFF_FFFF {
        seq![(id >> 16u32) as u8] + be16((id as u16) as int)
    } else {
        be32(id as int)
    }
}

/// The variable-length encoding of an element size: one to four bytes where the size fits
/// under the all-ones value of that width, eight bytes otherwise.
pub open spec fn vint_size(size: u64) -> Seq<u8> {
    if size < 0x7F {
        seq![0x80u8 | (size as u8)]
    } else if size < 0x3FFF {
        seq![((0x4000u16 | (size as u16)) >> 8u16) as u8, (0x4000u16 | (size as u16)) as u8]
    } else if size < 0x1F_FFFF {
        seq![0x20u8 | ((size >> 16u64) as u8), (size >> 8u64) as u8, size as u8]
    } else if size < 0x0FFF_FFFF {
        be32((0x1000_0000u32 | (size as u32)) as int)
    } else {
        be64(0x0100_0000_0000_0000u64 | size)
    }
}

/// The "unknown size" marker: an eight-byte size with every value bit set.
pub open spec fn unknown_size() -> Seq<u8> {
    seq![0x01u8, 0xFF, 0xFF, 0xFF, 0xFF, 0xFF, 0xFF, 0xFF]
}

/// The number of bytes an unsigned integer takes without its leading zero bytes (one for 0).
pub open spec fn uint_len(v: u64) -> int {
    if v < 0x100 {
        1
    } else if v < 0x1_0000 {
        2
    } else if v < 0x100_0000 {
        3
    } else if v < 0x1_0000_0000 {
        4
    } else if v < 0x100_0000_0000 {
        5
    } else if v < 0x1_0000_0000_0000 {
        6
    } else if v < 0x100_0000_0000_0000 {
        7
    } else {
        8
    }
}

/// An element holding the bytes `data`.
pub open spec fn ebml_bytes(id: u32, data: Seq<u8>) -> Seq<u8> {
    ebml_id(id) + vint_size(data.len() as u64) + data
}

/// An unsigned integer element: its significant bytes, big-endian.
pub open spec fn ebml_uint(id: u32, v: u64) -> Seq<u8> {
    ebml_bytes(id, be64(v).skip(8 - uint_len(v)))
}

/// Writes `bytes` at the position: `Overflow` only where the end would pass `usize::MAX`.
fn put(w: &mut ByteWriter, bytes: &Vec<u8>) -> (r: Result<(), Error>)
    ensures
        old(w).position() + bytes@.len() <= usize::MAX ==> r is Ok && final(w).contents() == splice(
            old(w).contents(),
            old(w).position() as int,
            bytes@,
        ) && final(w).position() == old(w).position() + bytes@.len(),
        old(w).position() + bytes@.len() > usize::MAX ==> r == Err::<(), Error>(Error::Overflow) && *final(w) == *old(w),
{
    w.write_all(bytes.as_slice())
}

/// Appends the eight big-endian bytes of `x`.
pub fn push_be64(v: &mut Vec<u8>, x: u64)
    ensures
        final(v)@ == old(v)@ + be64(x),
{
    v.push((x >> 56u64) as u8);
    v.push((x >> 48u64) as u8);
    v.push((x >> 40u64) as u8);
    v.push((x >> 32u64) as u8);
    v.push((x >> 24u64) as u8);
    v.push((x >> 16u64) as u8);
    v.push((x >> 8u64) as u8);
    v.push(x as u8);
    assert(final(v)@ =~= old(v)@ + be64(x));
}

/// Appends the bytes of an element id.
pub fn push_id(v: &mut Vec<u8>, id: u32)
    ensures
        final(v)@ == old(v)@ + ebml_id(id),
{
    if id <= 0xFF {
        v.push(id as u8);
    } else if id <= 0xFFFF {
        let b = crate::io::u16_be_bytes(id as u16);
        push_all(v, &b);
    } else if id <= 0xFF_FFFF {
        v.push((id >> 16u32) as u8);
        let b = crate::io::u16_be_bytes(id as u16);
        push_all(v, &b);
    } else {
        let b = crate::io::u32_be_bytes(id);
        push_all(v, &b);
    }
    assert(final(v)@ =~= old(v)@ + ebml_id(id));
}

/// The variable-length encoding of a size, as a length and eight bytes of which that many
/// count.
fn encode_vint_size(size: u64) -> (r: (u8, [u8; 8]))
    ensures
        r.0 as int == vint_size(size).len(),
        r.1@.take(r.0 as int) == vint_size(size),
{
    let mut buf = [0u8; 8];
    if size < 0x7F {
        buf[0] = 0x80u8 | (size as u8);
        assert(buf@.take(1) =~= vint_size(size));
        (1, buf)
    } else if size < 0x3FFF {
        let val: u16 = 0x4000u16 | (size as u16);
        buf[0] = (val >> 8u16) as u8;
        buf[1] = val as u8;
        assert(buf@.take(2) =~= vint_size(size));
        (2, buf)
    } else if size < 0x1F_FFFF {
        buf[0] = 0x20u8 | ((size >> 16u64) as u8);
        buf[1] = (size >> 8u64) as u8;
        buf[2] = size as u8;
        assert(buf@.take(3) =~= vint_size(size));
        (3, buf)
    } else if size < 0x0FFF_FFFF {
        let val: u32 = 0x1000_0000u32 | (size as u32);
        let b = crate::io::u32_be_bytes(val);
        buf[0] = b[0];
        buf[1] = b[1];
        buf[2] = b[2];
        buf[3] = b[3];
        assert(buf@.take(4) =~= vint_size(size));
        (4, buf)
    } else {
        let val: u64 = 0x0100_0000_0000_0000u64 | size;
        let buf = [
            (val >> 56u64) as u8,
            (val >> 48u64) as u8,
            (val >> 40u64) as u8,
            (val >> 32u64) as u8,
            (val >> 24u64) as u8,
            (val >> 16u64) as u8,
            (val >> 8u64) as u8,
            val as u8,
        ];
        assert(buf@.take(8) =~= vint_size(size));
        (8, buf)
    }
}

/// Appends the variable-length encoding of a size.
pub fn push_size(v: &mut Vec<u8>, size: u64)
    ensures
        final(v)@ == old(v)@ + vint_size(size),
{
    let (len, buf) = encode_vint_size(size);
    push_all(v, vstd::slice::slice_subrange(&buf, 0, len as usize));
}

/// The number of significant bytes of `value` (one for 0).
fn uint_encoded_len(value: u64) -> (n: usize)
    ensures
        n == uint_len(value),
{
    if value < 0x100 {
        1
    } else if value < 0x1_0000 {
        2
    } else if value < 0x100_0000 {
        3
    } else if value < 0x1_0000_0000 {
        4
    } else if value < 0x100_0000_0000 {
        5
    } else if value < 0x1_0000_0000_0000 {
        6
    } else if value < 0x100_0000_0000_0000 {
        7
    } else {
        8
    }
}

/// Appends an unsigned integer element.
pub fn push_uint(v: &mut Vec<u8>, id: u32, value: u64)
    ensures
        final(v)@ == old(v)@ + ebml_uint(id, value),
{
    let bytes = uint_encoded_len(value);
    let mut be: Vec<u8> = Vec::new();
    push_be64(&mut be, value);
    assert(be@ =~= be64(value));
    let tail = vstd::slice::slice_subrange(be.as_slice(), 8 - bytes, 8);
    assert(tail@ =~= be64(value).skip(8 - uint_len(value)));
    push_element(v, id, tail);
}

/// Appends an element holding `data`.
pub fn push_element(v: &mut Vec<u8>, id: u32, data: &[u8])
    ensures
        final(v)@ == old(v)@ + ebml_bytes(id, data@),
{
    push_id(v, id);
    push_size(v, data.len() as u64);
    push_all(v, data);
    assert(final(v)@ =~= old(v)@ + ebml_bytes(id, data@));
}

/// Writes an element id.
pub fn write_id(w: &mut ByteWriter, id: u32) -> (r: Result<(), Error>)
    ensures
        old(w).position() + ebml_id(id).len() <= usize::MAX ==> r is Ok && final(w).contents() == splice(
            old(w).contents(),
            old(w).position() as int,
            ebml_id(id),
        ) && final(w).position() == old(w).position() + ebml_id(id).len(),
        old(w).position() + ebml_id(id).len() > usize::MAX ==> r == Err::<(), Error>(Error::Overflow) && *final(w)
            == *old(w),
{
    let mut b: Vec<u8> = Vec::new();
    push_id(&mut b, id);
    assert(b@ =~= ebml_id(id));
    put(w, &b)
}

/// Writes the variable-length encoding of a size.
pub fn write_size(w: &mut ByteWriter, size: u64) -> (r: Result<(), Error>)
    ensures
        old(w).position() + vint_size(size).len() <= usize::MAX ==> r is Ok && final(w).contents() == splice(
            old(w).contents(),
            old(w).position() as int,
            vint_size(size),
        ) && final(w).position() == old(w).position() + vint_size(size).len(),
        old(w).position() + vint_size(size).len() > usize::MAX ==> r == Err::<(), Error>(Error::Overflow)
            && *final(w) == *old(w),
{
    let mut b: Vec<u8> = Vec::new();
    push_size(&mut b, size);
    assert(b@ =~= vint_size(size));
    put(w, &b)
}

/// Writes the "unknown size" marker.
pub fn write_unknown_size(w: &mut ByteWriter) -> (r: Result<(), Error>)
    ensures
        old(w).position() + 8 <= usize::MAX ==> r is Ok && final(w).contents() == splice(
            old(w).contents(),
            old(w).position() as int,
            unknown_size(),
        ) && final(w).position() == old(w).position() + 8,
        old(w).position() + 8 > usize::MAX ==> r == Err::<(), Error>(Error::Overflow) && *final(w) == *old(w),
{
    let b: Vec<u8> = vec![0x01, 0xFF, 0xFF, 0xFF, 0xFF, 0xFF, 0xFF, 0xFF];
    assert(b@ =~= unknown_size());
    put(w, &b)
}

/// Writes an unsigned integer element.
pub fn write_uint(w: &mut ByteWriter, id: u32, value: u64) -> (r: Result<(), Error>)
    ensures
        old(w).position() + ebml_uint(id, value).len() <= usize::MAX ==> r is Ok && final(w).contents() == splice(
            old(w).contents(),
            old(w).position() as int,
            ebml_uint(id, value),
        ) && final(w).position() == old(w).position() + ebml_uint(id, value).len(),
        old(w).position() + ebml_uint(id, value).len() > usize::MAX ==> r == Err::<(), Error>(Error::Overflow)
            && *final(w) == *old(w),
{
    let mut b: Vec<u8> = Vec::new();
    push_uint(&mut b, id, value);
    assert(b@ =~= ebml_uint(id, value));
    put(w, &b)
}

/// Writes a string element: the UTF-8 bytes of `value`.
pub fn write_string(w: &mut ByteWriter, id: u32, value: &str) -> (r: Result<(), Error>)
    ensures
        old(w).position() + ebml_bytes(id, vstd::utf8::encode_utf8(value@)).len() <= usize::MAX ==> r is Ok && final(w).contents()
            == splice(old(w).contents(), old(w).position() as int, ebml_bytes(id, vstd::utf8::encode_utf8(value@)))
            && final(w).position() == old(w).position() + ebml_bytes(id, vstd::utf8::encode_utf8(value@)).len(),
        old(w).position() + ebml_bytes(id, vstd::utf8::encode_utf8(value@)).len() > usize::MAX ==> r == Err::<(), Error>(
            Error::Overflow,
        ) && *final(w) == *old(w),
{
    write_binary(w, id, value.as_bytes())
}

/// Writes a UTF-8 string element; the same bytes as a string element.
pub fn write_utf8(w: &mut ByteWriter, id: u32, value: &str) -> (r: Result<(), Error>)
    ensures
        old(w).position() + ebml_bytes(id, vstd::utf8::encode_utf8(value@)).len() <= usize::MAX ==> r is Ok && final(w).contents()
            == splice(old(w).contents(), old(w).position() as int, ebml_bytes(id, vstd::utf8::encode_utf8(value@)))
            && final(w).position() == old(w).position() + ebml_bytes(id, vstd::utf8::encode_utf8(value@)).len(),
        old(w).position() + ebml_bytes(id, vstd::utf8::encode_utf8(value@)).len() > usize::MAX ==> r == Err::<(), Error>(
            Error::Overflow,
        ) && *final(w) == *old(w),
{
    write_string(w, id, value)
}

/// Writes a binary element.
pub fn write_binary(w: &mut ByteWriter, id: u32, value: &[u8]) -> (r: Result<(), Error>)
    ensures
        old(w).position() + ebml_bytes(id, value@).len() <= usize::MAX ==> r is Ok && final(w).contents() == splice(
            old(w).contents(),
            old(w).position() as int,
            ebml_bytes(id, value@),
        ) && final(w).position() == old(w).position() + ebml_bytes(id, value@).len(),
        old(w).position() + ebml_bytes(id, value@).len() > usize::MAX ==> r == Err::<(), Error>(Error::Overflow)
            && *final(w) == *old(w),
{
    let mut b: Vec<u8> = Vec::new();
    push_element(&mut b, id, value);
    assert(b@ =~= ebml_bytes(id, value@));
    put(w, &b)
}

/// The number of bits of `v` without its leading zeros.
pub open spec fn bit_len(v: nat) -> nat
    decreases v,
{
    if v == 0 { 0 } else { 1 + bit_len(v / 2) }
}

proof fn lemma_bit_len_bound(x: nat, k: nat)
    requires
        x < vstd::arithmetic::power2::pow2(k),
    ensures
        bit_len(x) <= k,
    decreases k,
{
    if x > 0 {
        if k == 0 {
            vstd::arithmetic::power2::lemma2_to64();
        } else {
            vstd::arithmetic::power2::lemma_pow2_unfold(k);
            lemma_bit_len_bound(x / 2, (k - 1) as nat);
        }
    }
}

/// The bits of the IEEE 754 double nearest to `v`, ties to even: the exponent from the
/// position of the top bit, the 52 bits below it as the fraction, rounded where `v` has
/// more than 53 significant bits.
pub open spec fn f64_bits_of(v: u64) -> u64 {
    if v == 0 {
        0
    } else {
        let e: u64 = (bit_len(v as nat) - 1) as u64;
        if e <= 52 {
            (((1023 + e) as u64) << 52u64) | ((v << ((52 - e) as u64)) & 0x000F_FFFF_FFFF_FFFFu64)
        } else {
            let s: u64 = (e - 52) as u64;
            let q: u64 = v >> s;
            let r: u64 = v & (((1u64 << s) - 1) as u64);
            let half: u64 = 1u64 << ((s - 1) as u64);
            let q2: u64 = if r > half || (r == half && q & 1u64 == 1u64) { (q + 1) as u64 } else { q };
            if q2 == 0x20_0000_0000_0000u64 {
                ((1024 + e) as u64) << 52u64
            } else {
                (((1023 + e) as u64) << 52u64) | (q2 & 0x000F_FFFF_FFFF_FFFFu64)
            }
        }
    }
}

/// The bits of the double nearest to `v`, as `v as f64` gives them.
pub fn f64_bits_of_u64(v: u64) -> (b: u64)
    ensures
        b == f64_bits_of(v),
{
    if v == 0 {
        return 0;
    }
    proof {
        vstd::arithmetic::power2::lemma2_to64();
        lemma_bit_len_bound(v as nat, 64);
    }
    let mut x = v;
    let mut n: u64 = 0;
    while x > 0
        invariant
            bit_len(v as nat) == n + bit_len(x as nat),
            bit_len(v as nat) <= 64,
        decreases x,
    {
        x = x / 2;
        n = n + 1;
    }
    let e: u64 = n - 1;
    if e <= 52 {
        ((1023 + e) << 52u64) | ((v << (52 - e)) & 0x000F_FFFF_FFFF_FFFFu64)
    } else {
        let s: u64 = e - 52;
        assert(1u64 << s >= 1u64) by (bit_vector)
            requires
                s < 64,
        ;
        assert(v >> s < 0x8000_0000_0000_0000u64) by (bit_vector)
            requires
                s >= 1,
        ;
        let q: u64 = v >> s;
        let r: u64 = v & ((1u64 << s) - 1);
        let half: u64 = 1u64 << (s - 1);
        let q2: u64 = if r > half || (r == half && q & 1u64 == 1u64) { q + 1 } else { q };
        if q2 == 0x20_0000_0000_0000u64 {
            (1024 + e) << 52u64
        } else {
            ((1023 + e) << 52u64) | (q2 & 0x000F_FFFF_FFFF_FFFFu64)
        }
    }
}

/// A float element holding the double nearest to `v`.
pub open spec fn ebml_float_of(id: u32, v: u64) -> Seq<u8> {
    ebml_bytes(id, be64(f64_bits_of(v)))
}

/// Appends a float element holding the double nearest to `v`.
pub fn push_float_of(v: &mut Vec<u8>, id: u32, value: u64)
    ensures
        final(v)@ == old(v)@ + ebml_float_of(id, value),
{
    let bits = f64_bits_of_u64(value);
    let mut b: Vec<u8> = Vec::new();
    push_be64(&mut b, bits);
    assert(b@ =~= be64(bits));
    push_element(v, id, b.as_slice());
}

} // verus!
