//! What an EBML reader makes of the element sizes the muxer writes.
use super::ebml::{be64, ebml_bytes, ebml_float_of, ebml_id, ebml_uint, f64_bits_of, uint_len, vint_size};
use super::muxer::{
    audio_entry, video_entry, AudioTrackInfo, AUDIO, BIT_DEPTH, CHANNELS, CODEC_ID, CODEC_PRIVATE, PIXEL_HEIGHT,
    PIXEL_WIDTH, SAMPLING_FREQUENCY, TRACK_NUMBER, TRACK_TYPE, TRACK_UID, VIDEO,
};
use crate::io::be32;
use vstd::prelude::*;

verus! {

/// The length of a variable-length integer, from its first byte: one more than the number of
/// zero bits before the first one bit (0 where the byte is zero).
pub open spec fn vint_len(b0: u8) -> int {
    if b0 >= 0x80 {
        1
    } else if b0 >= 0x40 {
        2
    } else if b0 >= 0x20 {
        3
    } else if b0 >= 0x10 {
        4
    } else if b0 >= 0x08 {
        5
    } else if b0 >= 0x04 {
        6
    } else if b0 >= 0x02 {
        7
    } else if b0 >= 0x01 {
        8
    } else {
        0
    }
}

/// The length marker bit of a variable-length integer of `len` bytes.
pub open spec fn vint_marker(len: int) -> int {
    if len == 1 {
        0x80
    } else if len == 2 {
        0x40
    } else if len == 3 {
        0x20
    } else if len == 4 {
        0x10
    } else if len == 5 {
        0x08
    } else if len == 6 {
        0x04
    } else if len == 7 {
        0x02
    } else {
        0x01
    }
}

/// The unsigned big-endian value of `s`.
pub open spec fn be_value(s: Seq<u8>) -> int
    decreases s.len(),
{
    if s.len() == 0 {
        0
    } else {
        be_value(s.drop_last()) * 256 + s.last()
    }
}

/// The value of the variable-length integer `b` starts with, as an EBML reader decodes it:
/// the bits of its first byte after the length marker, then the bytes after it, big-endian.
pub open spec fn vint_value(b: Seq<u8>) -> int {
    let l = vint_len(b[0]);
    (b[0] - vint_marker(l)) * be_value_weight(l) + be_value(b.subrange(1, l))
}

/// The weight of the first byte's value bits in a variable-length integer of `len` bytes.
pub open spec fn be_value_weight(len: int) -> int
    decreases len,
{
    if len <= 1 {
        1
    } else {
        256 * be_value_weight(len - 1)
    }
}

proof fn lemma_be_value4(a: u8, b: u8, c: u8, d: u8)
    ensures
        be_value(seq![a, b, c, d].subrange(1, 4)) == b * 0x10000 + c * 0x100 + d,
{
    reveal_with_fuel(be_value, 4);
    let s = seq![a, b, c, d].subrange(1, 4);
    assert(s =~= seq![b, c, d]);
    assert(s.drop_last() =~= seq![b, c]);
    assert(s.drop_last().drop_last() =~= seq![b]);
    assert(s.drop_last().drop_last().drop_last() =~= Seq::<u8>::empty());
}

proof fn lemma_vint1(size: u64)
    requires
        size < 0x7F,
    ensures
        vint_len(vint_size(size)[0]) == vint_size(size).len(),
        vint_value(vint_size(size)) == size,
{
    let b = vint_size(size);
    let b0: u8 = 0x80u8 | (size as u8);
    assert(b0 == 0x80 + size) by (bit_vector)
        requires
            size < 0x7F,
            b0 == 0x80u8 | (size as u8),
    ;
    assert(b[0] == b0);
    assert(b.subrange(1, 1) =~= Seq::<u8>::empty());
    assert(be_value_weight(1) == 1);
}

proof fn lemma_vint2(size: u64)
    requires
        0x7F <= size < 0x3FFF,
    ensures
        vint_len(vint_size(size)[0]) == vint_size(size).len(),
        vint_value(vint_size(size)) == size,
{
    reveal_with_fuel(be_value, 2);
    reveal_with_fuel(be_value_weight, 2);
    let b = vint_size(size);
    let w: u16 = 0x4000u16 | (size as u16);
    let b0: u8 = #[verifier::truncate] ((w >> 8u16) as u8);
    let b1: u8 = #[verifier::truncate] (w as u8);
    assert(b0 == 0x40 + size / 256 && b1 == size % 256) by (bit_vector)
        requires
            size < 0x3FFF,
            w == 0x4000u16 | (size as u16),
            b0 == (w >> 8u16) as u8,
            b1 == w as u8,
    ;
    assert(b[0] == b0 && b[1] == b1);
    assert(b.subrange(1, 2) =~= seq![b1]);
    assert(seq![b1].drop_last() =~= Seq::<u8>::empty());
    assert(be_value(seq![b1]) == b1);
    assert(be_value_weight(2) == 256);
}

proof fn lemma_vint3(size: u64)
    requires
        0x3FFF <= size < 0x1F_FFFF,
    ensures
        vint_len(vint_size(size)[0]) == vint_size(size).len(),
        vint_value(vint_size(size)) == size,
{
    reveal_with_fuel(be_value, 3);
    reveal_with_fuel(be_value_weight, 3);
    let b = vint_size(size);
    let b0: u8 = 0x20u8 | (#[verifier::truncate] ((size >> 16u64) as u8));
    let b1: u8 = #[verifier::truncate] ((size >> 8u64) as u8);
    let b2: u8 = #[verifier::truncate] (size as u8);
    assert(b0 == 0x20 + size / 0x10000 && b1 == (size / 256) % 256 && b2 == size % 256) by (bit_vector)
        requires
            size < 0x1F_FFFF,
            b0 == 0x20u8 | ((size >> 16u64) as u8),
            b1 == (size >> 8u64) as u8,
            b2 == size as u8,
    ;
    assert(b[0] == b0 && b[1] == b1 && b[2] == b2);
    assert(b.subrange(1, 3) =~= seq![b1, b2]);
    assert(seq![b1, b2].drop_last() =~= seq![b1]);
    assert(seq![b1].drop_last() =~= Seq::<u8>::empty());
    assert(be_value(seq![b1, b2]) == b1 * 256 + b2);
    assert(be_value_weight(3) == 0x10000);
    assert(size == (size / 0x10000) * 0x10000 + ((size / 256) % 256) * 256 + size % 256);
}

proof fn lemma_vint4(size: u64)
    requires
        0x1F_FFFF <= size < 0x0FFF_FFFF,
    ensures
        vint_len(vint_size(size)[0]) == vint_size(size).len(),
        vint_value(vint_size(size)) == size,
{
    reveal_with_fuel(be_value_weight, 4);
    let b = vint_size(size);
    let s32: u32 = size as u32;
    let v: u32 = 0x1000_0000u32 | s32;
    let c0: u32 = (v / 0x1000000u32) % 0x100u32;
    let c1: u32 = (v / 0x10000u32) % 0x100u32;
    let c2: u32 = (v / 0x100u32) % 0x100u32;
    let c3: u32 = v % 0x100u32;
    assert(c0 == 0x10 + s32 / 0x100_0000 && s32 == (c0 - 0x10) * 0x100_0000 + c1 * 0x10000 + c2 * 0x100 + c3)
        by (bit_vector)
        requires
            s32 < 0x0FFF_FFFF,
            v == 0x1000_0000u32 | s32,
            c0 == (v / 0x1000000u32) % 0x100u32,
            c1 == (v / 0x10000u32) % 0x100u32,
            c2 == (v / 0x100u32) % 0x100u32,
            c3 == v % 0x100u32,
    ;
    assert(s32 == size);
    assert(b == be32(v as int));
    assert(b[0] == c0 && b[1] == c1 && b[2] == c2 && b[3] == c3);
    lemma_be_value4(b[0], b[1], b[2], b[3]);
    assert(b =~= seq![b[0], b[1], b[2], b[3]]);
    assert(be_value_weight(4) == 0x100_0000);
}

#[verifier::rlimit(40)]
proof fn lemma_vint8(size: u64)
    requires
        0x0FFF_FFFF <= size < 0xFF_FFFF_FFFF_FFFFu64,
    ensures
        vint_len(vint_size(size)[0]) == vint_size(size).len(),
        vint_value(vint_size(size)) == size,
{
    reveal_with_fuel(be_value, 8);
    reveal_with_fuel(be_value_weight, 8);
    let b = vint_size(size);
        let v: u64 = 0x0100_0000_0000_0000u64 | size;
        let c0: u8 = (v >> 56u64) as u8;
        let c1: u8 = (v >> 48u64) as u8;
        let c2: u8 = (v >> 40u64) as u8;
        let c3: u8 = (v >> 32u64) as u8;
        let c4: u8 = (v >> 24u64) as u8;
        let c5: u8 = (v >> 16u64) as u8;
        let c6: u8 = (v >> 8u64) as u8;
        let c7: u8 = v as u8;
        assert(c0 == 1 && size == c1 * 0x1_0000_0000_0000u64 + c2 * 0x100_0000_0000u64 + c3 * 0x1_0000_0000u64 + c4
            * 0x100_0000u64 + c5 * 0x1_0000u64 + c6 * 0x100u64 + c7) by (bit_vector)
            requires
                size < 0xFF_FFFF_FFFF_FFFFu64,
                v == 0x0100_0000_0000_0000u64 | size,
                c0 == (v >> 56u64) as u8,
                c1 == (v >> 48u64) as u8,
                c2 == (v >> 40u64) as u8,
                c3 == (v >> 32u64) as u8,
                c4 == (v >> 24u64) as u8,
                c5 == (v >> 16u64) as u8,
                c6 == (v >> 8u64) as u8,
                c7 == v as u8,
        ;
        assert(b == be64(v));
        let t = b.subrange(1, 8);
        assert(t =~= seq![c1, c2, c3, c4, c5, c6, c7]);
        assert(t.drop_last() =~= seq![c1, c2, c3, c4, c5, c6]);
        assert(t.drop_last().drop_last() =~= seq![c1, c2, c3, c4, c5]);
        assert(t.drop_last().drop_last().drop_last() =~= seq![c1, c2, c3, c4]);
        assert(t.drop_last().drop_last().drop_last().drop_last() =~= seq![c1, c2, c3]);
        assert(t.drop_last().drop_last().drop_last().drop_last().drop_last() =~= seq![c1, c2]);
        assert(t.drop_last().drop_last().drop_last().drop_last().drop_last().drop_last() =~= seq![c1]);
        assert(seq![c1].drop_last() =~= Seq::<u8>::empty());
    assert(be_value_weight(8) == 0x1_0000_0000_0000_00);
}

/// The sizes a variable-length integer of `len` bytes holds lie below this value (the value
/// with every bit set means an unknown size).
pub open spec fn vint_capacity(len: int) -> int {
    if len == 1 {
        0x7F
    } else if len == 2 {
        0x3FFF
    } else if len == 3 {
        0x1F_FFFF
    } else if len == 4 {
        0x0FFF_FFFF
    } else {
        0xFF_FFFF_FFFF_FFFF
    }
}

/// Every size the muxer writes, short of the all-ones value of eight bytes that means an
/// unknown size, takes the fewest bytes among 1, 2, 3, 4 and 8 that hold it, starts with the
/// length marker of that many bytes, and is read back by an EBML reader as that size.
pub proof fn law_vint_size_read_back(size: u64)
    requires
        size < 0xFF_FFFF_FFFF_FFFFu64,
    ensures
        vint_size(size).len() == 1 || vint_size(size).len() == 2 || vint_size(size).len() == 3
            || vint_size(size).len() == 4 || vint_size(size).len() == 8,
        size < vint_capacity(vint_size(size).len() as int),
        forall|w: int|
            (w == 1 || w == 2 || w == 3 || w == 4) && w < vint_size(size).len() ==> size >= #[trigger] vint_capacity(w),
        vint_len(vint_size(size)[0]) == vint_size(size).len(),
        vint_value(vint_size(size)) == size,
{
    assert(vint_size(size).len() == if size < 0x7F {
        1int
    } else if size < 0x3FFF {
        2
    } else if size < 0x1F_FFFF {
        3
    } else if size < 0x0FFF_FFFF {
        4
    } else {
        8
    });
    if size < 0x7F {
        lemma_vint1(size);
    } else if size < 0x3FFF {
        lemma_vint2(size);
    } else if size < 0x1F_FFFF {
        lemma_vint3(size);
    } else if size < 0x0FFF_FFFF {
        lemma_vint4(size);
    } else {
        lemma_vint8(size);
    }
}

/// Reading the element `s` starts with, as an EBML reader does: its id (as many bytes as the
/// length marker of its first byte says, big-endian), its size (a variable-length integer), its
/// data, and the bytes after it.
pub open spec fn ebml_element(s: Seq<u8>) -> (int, Seq<u8>, Seq<u8>) {
    let il = vint_len(s[0]);
    let t = s.skip(il);
    let sl = vint_len(t[0]);
    let size = vint_value(t);
    (be_value(s.take(il)), t.subrange(sl, sl + size), t.skip(sl + size))
}

/// Reading the elements of `s` one after the other: each one's id and data.
pub open spec fn ebml_children(s: Seq<u8>) -> Seq<(int, Seq<u8>)>
    decreases s.len(),
{
    if s.len() == 0 {
        Seq::empty()
    } else {
        let (id, data, rest) = ebml_element(s);
        if rest.len() < s.len() {
            seq![(id, data)] + ebml_children(rest)
        } else {
            Seq::empty()
        }
    }
}

/// An id of one or two bytes the muxer writes is read back as that id, from as many bytes.
proof fn lemma_id_read_back(id: u32)
    requires
        0x80 <= id <= 0xFF || 0x4000 <= id <= 0x7FFF,
    ensures
        vint_len(ebml_id(id)[0]) == ebml_id(id).len(),
        be_value(ebml_id(id)) == id,
{
    let b = ebml_id(id);
    reveal_with_fuel(be_value, 3);
    if id <= 0xFF {
        assert(b.drop_last() =~= Seq::<u8>::empty());
    } else {
        assert(b.drop_last() =~= seq![b[0]]);
        assert(seq![b[0]].drop_last() =~= Seq::<u8>::empty());
    }
}

/// An element the muxer writes with such an id is read back as that id and data, followed by
/// what comes after it.
proof fn lemma_element_read_back(id: u32, data: Seq<u8>, rest: Seq<u8>)
    requires
        0x80 <= id <= 0xFF || 0x4000 <= id <= 0x7FFF,
        data.len() < 0xFF_FFFF_FFFF_FFFF,
    ensures
        ebml_element(ebml_bytes(id, data) + rest) == (id as int, data, rest),
        ebml_children(ebml_bytes(id, data) + rest) == seq![(id as int, data)] + ebml_children(rest),
{
    let s = ebml_bytes(id, data) + rest;
    let ib = ebml_id(id);
    let vb = vint_size(data.len() as u64);
    lemma_id_read_back(id);
    law_vint_size_read_back(data.len() as u64);
    let il = ib.len() as int;
    assert(s[0] == ib[0]);
    assert(s.take(il) =~= ib);
    let t = s.skip(il);
    assert(t =~= vb + data + rest);
    let sl = vb.len() as int;
    assert(t[0] == vb[0]);
    assert(t.subrange(1, sl) =~= vb.subrange(1, sl));
    assert(vint_value(t) == vint_value(vb));
    assert(t.subrange(sl, sl + data.len()) =~= data);
    assert(t.skip(sl + data.len()) =~= rest);
}

/// The significant bytes of a 32-bit value, read big-endian, are that value.
proof fn lemma_uint_read_back(v: u64)
    requires
        v <= 0xFFFF_FFFF,
    ensures
        be_value(be64(v).skip(8 - uint_len(v))) == v,
        be64(v).skip(8 - uint_len(v)).len() <= 4,
{
    reveal_with_fuel(be_value, 5);
    let b = be64(v);
    let b4 = (v >> 24u64) as u8;
    let b5 = (v >> 16u64) as u8;
    let b6 = (v >> 8u64) as u8;
    let b7 = v as u8;
    assert(b[4] == b4 && b[5] == b5 && b[6] == b6 && b[7] == b7);
    if v < 0x100 {
        let t = b.skip(7);
        assert(t =~= seq![b7]);
        assert(t.drop_last() =~= Seq::<u8>::empty());
        assert(b7 as int == v) by (bit_vector)
            requires
                v < 0x100,
                b7 == v as u8,
        ;
    } else if v < 0x1_0000 {
        let t = b.skip(6);
        assert(t =~= seq![b6, b7]);
        assert(t.drop_last() =~= seq![b6]);
        assert(seq![b6].drop_last() =~= Seq::<u8>::empty());
        assert(b6 as int * 256 + b7 as int == v) by (bit_vector)
            requires
                v < 0x1_0000,
                b6 == (v >> 8u64) as u8,
                b7 == v as u8,
        ;
    } else if v < 0x100_0000 {
        let t = b.skip(5);
        assert(t =~= seq![b5, b6, b7]);
        assert(t.drop_last() =~= seq![b5, b6]);
        assert(seq![b5, b6].drop_last() =~= seq![b5]);
        assert(seq![b5].drop_last() =~= Seq::<u8>::empty());
        assert((b5 as int * 256 + b6 as int) * 256 + b7 as int == v) by (bit_vector)
            requires
                v < 0x100_0000,
                b5 == (v >> 16u64) as u8,
                b6 == (v >> 8u64) as u8,
                b7 == v as u8,
        ;
    } else {
        let t = b.skip(4);
        assert(t =~= seq![b4, b5, b6, b7]);
        assert(t.drop_last() =~= seq![b4, b5, b6]);
        assert(seq![b4, b5, b6].drop_last() =~= seq![b4, b5]);
        assert(seq![b4, b5].drop_last() =~= seq![b4]);
        assert(seq![b4].drop_last() =~= Seq::<u8>::empty());
        assert(((b4 as int * 256 + b5 as int) * 256 + b6 as int) * 256 + b7 as int == v) by (bit_vector)
            requires
                v <= 0xFFFF_FFFF,
                b4 == (v >> 24u64) as u8,
                b5 == (v >> 16u64) as u8,
                b6 == (v >> 8u64) as u8,
                b7 == v as u8,
        ;
    }
}

/// The track entry the muxer writes for a video track, read element by element as an EBML
/// reader does, ends with the Video element, whose two elements read back as `PixelWidth` (id
/// 0xB0) holding the width and `PixelHeight` (id 0xBA) holding the height, in that order.
pub proof fn law_mkv_video_size_read_back(width: u32, height: u32, cp: Seq<u8>)
    requires
        cp.len() < 0xFF_FFFF_FFFF_FFFF,
    ensures
        ({
            let es = ebml_children(video_entry(width, height, cp));
            &&& es.len() > 0
            &&& es.last().0 == 0xE0
            &&& ebml_children(es.last().1).len() == 2
            &&& ebml_children(es.last().1)[0].0 == 0xB0
            &&& be_value(ebml_children(es.last().1)[0].1) == width
            &&& ebml_children(es.last().1)[1].0 == 0xBA
            &&& be_value(ebml_children(es.last().1)[1].1) == height
        }),
{
    let wb = be64(width as u64).skip(8 - uint_len(width as u64));
    let hb = be64(height as u64).skip(8 - uint_len(height as u64));
    lemma_uint_read_back(width as u64);
    lemma_uint_read_back(height as u64);
    let body = ebml_uint(PIXEL_WIDTH, width as u64) + ebml_uint(PIXEL_HEIGHT, height as u64);
    lemma_element_read_back(PIXEL_HEIGHT, hb, Seq::empty());
    assert(ebml_uint(PIXEL_HEIGHT, height as u64) + Seq::<u8>::empty() =~= ebml_uint(PIXEL_HEIGHT, height as u64));
    assert(ebml_children(Seq::<u8>::empty()) =~= Seq::<(int, Seq<u8>)>::empty());
    lemma_element_read_back(PIXEL_WIDTH, wb, ebml_uint(PIXEL_HEIGHT, height as u64));
    let inner = ebml_children(body);
    assert(inner =~= seq![(0xB0int, wb), (0xBAint, hb)]);
    assert(body.len() < 0xFF_FFFF_FFFF_FFFF);
    let ve = ebml_bytes(VIDEO, body);
    lemma_element_read_back(VIDEO, body, Seq::empty());
    assert(ve + Seq::<u8>::empty() =~= ve);
    let tail_children = ebml_children(ve);
    assert(tail_children =~= seq![(0xE0int, body)]);
    lemma_children_end_with(width, height, cp, body);
}

/// The elements before the Video element of a video track entry each read back as written, so
/// the last element read is the Video element.
proof fn lemma_children_end_with(w: u32, h: u32, cp: Seq<u8>, body: Seq<u8>)
    requires
        cp.len() < 0xFF_FFFF_FFFF_FFFF,
        body == ebml_uint(PIXEL_WIDTH, w as u64) + ebml_uint(PIXEL_HEIGHT, h as u64),
        ebml_children(ebml_bytes(VIDEO, body)) == seq![(0xE0int, body)],
    ensures
        ebml_children(video_entry(w, h, cp)).len() > 0,
        ebml_children(video_entry(w, h, cp)).last() == (0xE0int, body),
{
    let ve = ebml_bytes(VIDEO, body);
    let e1 = ebml_uint(TRACK_NUMBER, 1);
    let e2 = ebml_uint(TRACK_UID, 1);
    let e3 = ebml_uint(TRACK_TYPE, 1);
    let name = vstd::utf8::encode_utf8("V_MPEG4/ISO/AVC"@);
    let e4 = ebml_bytes(CODEC_ID, name);
    let e5 = if cp.len() > 0 { ebml_bytes(CODEC_PRIVATE, cp) } else { Seq::<u8>::empty() };
    lemma_uint_read_back(1);
    let one = be64(1).skip(8 - uint_len(1));
    reveal_strlit("V_MPEG4/ISO/AVC");
    let chars = "V_MPEG4/ISO/AVC"@;
    assert(vstd::utf8::is_ascii_chars(chars));
    vstd::utf8::is_ascii_chars_encode_utf8(chars);
    let r5 = e5 + ve;
    if cp.len() > 0 {
        lemma_element_read_back(CODEC_PRIVATE, cp, ve);
    } else {
        assert(r5 =~= ve);
    }
    let r4 = e4 + r5;
    lemma_element_read_back(CODEC_ID, name, r5);
    let r3 = e3 + r4;
    lemma_element_read_back(TRACK_TYPE, one, r4);
    let r2 = e2 + r3;
    lemma_element_read_back(TRACK_UID, one, r3);
    lemma_element_read_back(TRACK_NUMBER, one, r2);
    assert(video_entry(w, h, cp) =~= e1 + r2);
}

/// The eight bytes of a 64-bit value, read big-endian, are that value.
proof fn lemma_be64_read_back(x: u64)
    ensures
        be_value(be64(x)) == x,
{
    reveal_with_fuel(be_value, 9);
    let b = be64(x);
    let c0 = (x >> 56u64) as u8;
    let c1 = (x >> 48u64) as u8;
    let c2 = (x >> 40u64) as u8;
    let c3 = (x >> 32u64) as u8;
    let c4 = (x >> 24u64) as u8;
    let c5 = (x >> 16u64) as u8;
    let c6 = (x >> 8u64) as u8;
    let c7 = x as u8;
    assert(b =~= seq![c0, c1, c2, c3, c4, c5, c6, c7]);
    assert(b.drop_last() =~= seq![c0, c1, c2, c3, c4, c5, c6]);
    assert(b.drop_last().drop_last() =~= seq![c0, c1, c2, c3, c4, c5]);
    assert(b.drop_last().drop_last().drop_last() =~= seq![c0, c1, c2, c3, c4]);
    assert(b.drop_last().drop_last().drop_last().drop_last() =~= seq![c0, c1, c2, c3]);
    assert(b.drop_last().drop_last().drop_last().drop_last().drop_last() =~= seq![c0, c1, c2]);
    assert(b.drop_last().drop_last().drop_last().drop_last().drop_last().drop_last() =~= seq![c0, c1]);
    assert(seq![c0, c1].drop_last() =~= seq![c0]);
    assert(seq![c0].drop_last() =~= Seq::<u8>::empty());
    assert(((((((c0 as int * 256 + c1 as int) * 256 + c2 as int) * 256 + c3 as int) * 256 + c4 as int) * 256
        + c5 as int) * 256 + c6 as int) * 256 + c7 as int == x) by (bit_vector)
        requires
            c0 == (x >> 56u64) as u8,
            c1 == (x >> 48u64) as u8,
            c2 == (x >> 40u64) as u8,
            c3 == (x >> 32u64) as u8,
            c4 == (x >> 24u64) as u8,
            c5 == (x >> 16u64) as u8,
            c6 == (x >> 8u64) as u8,
            c7 == x as u8,
    ;
}

/// The track entry the muxer writes for an audio track, read element by element as an EBML
/// reader does, ends with the Audio element, whose three elements read back as
/// `SamplingFrequency` (id 0xB5) holding the eight bytes of the double nearest the sample rate,
/// `Channels` (id 0x9F) holding the channel count and `BitDepth` (id 0x6264) holding the bits
/// per sample, in that order.
pub proof fn law_mkv_audio_read_back(a: AudioTrackInfo)
    ensures
        ({
            let es = ebml_children(audio_entry(a));
            &&& es.len() > 0
            &&& es.last().0 == 0xE1
            &&& ebml_children(es.last().1).len() == 3
            &&& ebml_children(es.last().1)[0].0 == 0xB5
            &&& be_value(ebml_children(es.last().1)[0].1) == f64_bits_of(a.sample_rate as u64)
            &&& ebml_children(es.last().1)[1].0 == 0x9F
            &&& be_value(ebml_children(es.last().1)[1].1) == a.channels
            &&& ebml_children(es.last().1)[2].0 == 0x6264
            &&& be_value(ebml_children(es.last().1)[2].1) == a.bit_depth
        }),
{
    let fb = be64(f64_bits_of(a.sample_rate as u64));
    let cb = be64(a.channels as u64).skip(8 - uint_len(a.channels as u64));
    let db = be64(a.bit_depth as u64).skip(8 - uint_len(a.bit_depth as u64));
    lemma_be64_read_back(f64_bits_of(a.sample_rate as u64));
    lemma_uint_read_back(a.channels as u64);
    lemma_uint_read_back(a.bit_depth as u64);
    let ed = ebml_uint(BIT_DEPTH, a.bit_depth as u64);
    let ec = ebml_uint(CHANNELS, a.channels as u64);
    let ef = ebml_float_of(SAMPLING_FREQUENCY, a.sample_rate as u64);
    let body = ef + ec + ed;
    lemma_element_read_back(BIT_DEPTH, db, Seq::empty());
    assert(ed + Seq::<u8>::empty() =~= ed);
    assert(ebml_children(Seq::<u8>::empty()) =~= Seq::<(int, Seq<u8>)>::empty());
    lemma_element_read_back(CHANNELS, cb, ed);
    assert(fb.len() == 8);
    lemma_element_read_back(SAMPLING_FREQUENCY, fb, ec + ed);
    assert(body =~= ef + (ec + ed));
    assert(ebml_children(body) =~= seq![(0xB5int, fb), (0x9Fint, cb), (0x6264int, db)]);
    let ae = ebml_bytes(AUDIO, body);
    lemma_element_read_back(AUDIO, body, Seq::empty());
    assert(ae + Seq::<u8>::empty() =~= ae);
    let name = vstd::utf8::encode_utf8("A_PCM/INT/LIT"@);
    reveal_strlit("A_PCM/INT/LIT");
    let chars = "A_PCM/INT/LIT"@;
    assert(vstd::utf8::is_ascii_chars(chars));
    vstd::utf8::is_ascii_chars_encode_utf8(chars);
    lemma_uint_read_back(2);
    let two = be64(2).skip(8 - uint_len(2));
    let e1 = ebml_uint(TRACK_NUMBER, 2);
    let e2 = ebml_uint(TRACK_UID, 2);
    let e3 = ebml_uint(TRACK_TYPE, 2);
    let e4 = ebml_bytes(CODEC_ID, name);
    lemma_element_read_back(CODEC_ID, name, ae);
    lemma_element_read_back(TRACK_TYPE, two, e4 + ae);
    lemma_element_read_back(TRACK_UID, two, e3 + (e4 + ae));
    lemma_element_read_back(TRACK_NUMBER, two, e2 + (e3 + (e4 + ae)));
    assert(audio_entry(a) =~= e1 + (e2 + (e3 + (e4 + ae))));
}

} // verus!
