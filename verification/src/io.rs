//! In-memory byte sources and sinks that the demuxers read from and the muxers write to.
use crate::error::Error;
use vstd::prelude::*;

verus! {

/// The two little-endian bytes of `v` (taken modulo 2^16).
pub open spec fn le16(v: int) -> Seq<u8> {
    seq![(v % 0x100) as u8, ((v / 0x100) % 0x100) as u8]
}

/// The four little-endian bytes of `v` (taken modulo 2^32).
pub open spec fn le32(v: int) -> Seq<u8> {
    seq![
        (v % 0x100) as u8,
        ((v / 0x100) % 0x100) as u8,
        ((v / 0x10000) % 0x100) as u8,
        ((v / 0x1000000) % 0x100) as u8,
    ]
}

/// The two big-endian bytes of `v` (taken modulo 2^16).
pub open spec fn be16(v: int) -> Seq<u8> {
    seq![((v / 0x100) % 0x100) as u8, (v % 0x100) as u8]
}

/// The four big-endian bytes of `v` (taken modulo 2^32).
pub open spec fn be32(v: int) -> Seq<u8> {
    seq![
        ((v / 0x1000000) % 0x100) as u8,
        ((v / 0x10000) % 0x100) as u8,
        ((v / 0x100) % 0x100) as u8,
        (v % 0x100) as u8,
    ]
}

/// The unsigned value of the first two bytes of `s`, little-endian.
pub open spec fn le16_value(s: Seq<u8>) -> int {
    s[0] + 0x100 * s[1]
}

/// The unsigned value of the first four bytes of `s`, little-endian.
pub open spec fn le32_value(s: Seq<u8>) -> int {
    s[0] + 0x100 * s[1] + 0x10000 * s[2] + 0x1000000 * s[3]
}

/// The four bytes of a code, read as one big-endian number (`RIFF` is `0x52494646`).
pub open spec fn fourcc_value(s: Seq<u8>) -> u32 {
    (s[0] * 0x1000000 + s[1] * 0x10000 + s[2] * 0x100 + s[3]) as u32
}

/// A four-character code as one big-endian number.
pub fn fourcc_to_u32(a: [u8; 4]) -> (r: u32)
    ensures
        r == fourcc_value(a@),
{
    (a[0] as u32) * 0x1000000 + (a[1] as u32) * 0x10000 + (a[2] as u32) * 0x100 + a[3] as u32
}

/// The four bytes `a b c d`.
pub open spec fn fcc(a: u8, b: u8, c: u8, d: u8) -> Seq<u8> {
    seq![a, b, c, d]
}

/// Whether the code `a` is `b0 b1 b2 b3`.
pub fn fourcc_is(a: [u8; 4], b0: u8, b1: u8, b2: u8, b3: u8) -> (r: bool)
    ensures
        r == (a@ == fcc(b0, b1, b2, b3)),
{
    let r = a[0] == b0 && a[1] == b1 && a[2] == b2 && a[3] == b3;
    if r {
        assert(a@ =~= fcc(b0, b1, b2, b3));
    } else {
        assert(a@ != fcc(b0, b1, b2, b3) || (a@[0] == b0 && a@[1] == b1 && a@[2] == b2 && a@[3] == b3));
    }
    r
}

/// Whether two four-character codes are the same.
pub fn fourcc_eq(a: [u8; 4], b: [u8; 4]) -> (r: bool)
    ensures
        r == (a@ == b@),
{
    let r = a[0] == b[0] && a[1] == b[1] && a[2] == b[2] && a[3] == b[3];
    if r {
        assert(a@ =~= b@);
    }
    r
}

/// Reading back the two bytes of a 16-bit value gives the value.
pub proof fn lemma_le16_roundtrip(v: int)
    requires
        0 <= v <= u16::MAX,
    ensures
        le16(v).len() == 2,
        le16_value(le16(v)) == v,
{
    assert(v % 0x100 + 0x100 * ((v / 0x100) % 0x100) == v) by (nonlinear_arith)
        requires
            0 <= v <= u16::MAX,
    ;
}

/// Reading back the four bytes of a 32-bit value gives the value.
pub proof fn lemma_le32_roundtrip(v: int)
    requires
        0 <= v <= u32::MAX,
    ensures
        le32(v).len() == 4,
        le32_value(le32(v)) == v,
{
    assert(v % 0x100 + 0x100 * ((v / 0x100) % 0x100) + 0x10000 * ((v / 0x10000) % 0x100) + 0x1000000 * ((v
        / 0x1000000) % 0x100) == v) by (nonlinear_arith)
        requires
            0 <= v <= u32::MAX,
    ;
}

/// `s` with `d` written over it from `pos` on; the result grows where `d` runs past the end.
pub open spec fn splice(s: Seq<u8>, pos: int, d: Seq<u8>) -> Seq<u8> {
    if pos + d.len() < s.len() {
        s.take(pos) + d + s.skip(pos + d.len())
    } else {
        s.take(pos) + d
    }
}

/// `s` with each of `ds` written in turn, the first at `pos`, each next one where the one
/// before it ended: what a sink holds after a muxer writes those bytes one call after another.
pub open spec fn write_in_turn(s: Seq<u8>, pos: int, ds: Seq<Seq<u8>>) -> Seq<u8>
    decreases ds.len(),
{
    if ds.len() == 0 {
        s
    } else {
        write_in_turn(splice(s, pos, ds[0]), pos + ds[0].len(), ds.drop_first())
    }
}

/// Writing at the end appends: bytes written in turn from the end of what a sink holds are
/// what it held followed by all of them, in order.
pub proof fn law_writes_at_end_append(s: Seq<u8>, ds: Seq<Seq<u8>>)
    ensures
        write_in_turn(s, s.len() as int, ds) == s + ds.flatten(),
    decreases ds.len(),
{
    if ds.len() > 0 {
        let s2 = splice(s, s.len() as int, ds[0]);
        assert(s2 =~= s + ds[0]);
        law_writes_at_end_append(s2, ds.drop_first());
        assert(ds.flatten() == ds[0] + ds.drop_first().flatten());
        assert(s2 + ds.drop_first().flatten() =~= s + ds.flatten());
    } else {
        assert(ds.flatten() =~= Seq::<u8>::empty());
        assert(s + Seq::<u8>::empty() =~= s);
    }
}

/// What a splice leaves: the length grows to cover `d`, `d` stands at `pos`, and the bytes
/// before `pos` and after `d` stay.
pub proof fn lemma_splice(s: Seq<u8>, pos: int, d: Seq<u8>)
    requires
        0 <= pos <= s.len(),
    ensures
        splice(s, pos, d).len() == if pos + d.len() < s.len() { s.len() as int } else { pos + d.len() },
        splice(s, pos, d).subrange(pos, pos + d.len()) == d,
        splice(s, pos, d).take(pos) == s.take(pos),
        forall|i: int| 0 <= i < pos ==> #[trigger] splice(s, pos, d)[i] == s[i],
        forall|i: int| pos + d.len() <= i < s.len() ==> #[trigger] splice(s, pos, d)[i] == s[i],
{
    assert(splice(s, pos, d).subrange(pos, pos + d.len()) =~= d);
    assert(splice(s, pos, d).take(pos) =~= s.take(pos));
}

/// Two writes one after the other are one write of both.
pub proof fn lemma_splice_concat(s: Seq<u8>, p: int, a: Seq<u8>, b: Seq<u8>)
    requires
        0 <= p <= s.len(),
    ensures
        splice(splice(s, p, a), p + a.len(), b) == splice(s, p, a + b),
{
    assert(splice(splice(s, p, a), p + a.len(), b) =~= splice(s, p, a + b));
}

/// `n` zero bytes.
pub open spec fn zeros(n: nat) -> Seq<u8> {
    Seq::new(n, |i: int| 0u8)
}

/// Writing one more byte after `t` either overwrites the next byte or appends it.
pub proof fn lemma_splice_push(s: Seq<u8>, p: int, t: Seq<u8>, b: u8)
    requires
        0 <= p <= s.len(),
    ensures
        splice(s, p, t).len() == if p + t.len() < s.len() { s.len() as int } else { p + t.len() },
        p + t.len() < s.len() ==> splice(s, p, t.push(b)) == splice(s, p, t).update(p + t.len(), b),
        p + t.len() >= s.len() ==> splice(s, p, t.push(b)) == splice(s, p, t).push(b),
{
    if p + t.len() + 1 < s.len() {
        assert(splice(s, p, t.push(b)) =~= splice(s, p, t).update(p + t.len(), b));
    } else if p + t.len() < s.len() {
        assert(splice(s, p, t.push(b)) =~= splice(s, p, t).update(p + t.len(), b));
    } else {
        assert(splice(s, p, t.push(b)) =~= splice(s, p, t).push(b));
    }
}

/// Appends every byte of `s` to `v`.
pub fn push_all(v: &mut Vec<u8>, s: &[u8])
    ensures
        final(v)@ == old(v)@ + s@,
{
    let ghost start = v@;
    let mut i: usize = 0;
    while i < s.len()
        invariant
            i <= s@.len(),
            v@ == start + s@.take(i as int),
        decreases s@.len() - i,
    {
        v.push(s[i]);
        i = i + 1;
        assert(s@.take(i as int) =~= s@.take(i - 1) + seq![s@[i - 1]]);
    }
    assert(s@.take(i as int) =~= s@);
}

/// Appends the two little-endian bytes of `x`.
pub fn push_le16(v: &mut Vec<u8>, x: u16)
    ensures
        final(v)@ == old(v)@ + le16(x as int),
{
    let a = u16_le_bytes(x);
    push_all(v, &a);
}

/// Appends the four little-endian bytes of `x`.
pub fn push_le32(v: &mut Vec<u8>, x: u32)
    ensures
        final(v)@ == old(v)@ + le32(x as int),
{
    let a = u32_le_bytes(x);
    push_all(v, &a);
}

/// Appends the four bytes of a code.
pub fn push_fcc(v: &mut Vec<u8>, a: u8, b: u8, c: u8, d: u8)
    ensures
        final(v)@ == old(v)@ + fcc(a, b, c, d),
{
    let x = [a, b, c, d];
    assert(x@ =~= fcc(a, b, c, d));
    push_all(v, &x);
}

/// Appends `n` zero bytes.
pub fn push_zeros(v: &mut Vec<u8>, n: usize)
    ensures
        final(v)@ == old(v)@ + zeros(n as nat),
{
    let ghost start = v@;
    let mut i: usize = 0;
    while i < n
        invariant
            i <= n,
            v@ == start + zeros(i as nat),
        decreases n - i,
    {
        v.push(0);
        i = i + 1;
        assert(v@ =~= start + zeros(i as nat));
    }
}

/// `n` copies of the byte `b`.
pub open spec fn fill(b: u8, n: nat) -> Seq<u8> {
    Seq::new(n, |i: int| b)
}

/// Appends `n` copies of the byte `b`.
pub fn push_fill(v: &mut Vec<u8>, b: u8, n: usize)
    ensures
        final(v)@ == old(v)@ + fill(b, n as nat),
{
    let ghost start = v@;
    let mut i: usize = 0;
    while i < n
        invariant
            i <= n,
            v@ == start + fill(b, i as nat),
        decreases n - i,
    {
        v.push(b);
        i = i + 1;
        assert(v@ =~= start + fill(b, i as nat));
    }
}

/// Little-endian bytes of a 16-bit value.
pub fn u16_le_bytes(v: u16) -> (r: [u8; 2])
    ensures
        r@ == le16(v as int),
{
    let r = [(v % 0x100) as u8, (v / 0x100) as u8];
    assert(r@ =~= le16(v as int));
    r
}

/// Little-endian bytes of a 32-bit value.
pub fn u32_le_bytes(v: u32) -> (r: [u8; 4])
    ensures
        r@ == le32(v as int),
{
    let r = [
        (v % 0x100) as u8,
        ((v / 0x100) % 0x100) as u8,
        ((v / 0x10000) % 0x100) as u8,
        (v / 0x1000000) as u8,
    ];
    assert(r@ =~= le32(v as int));
    r
}

/// Big-endian bytes of a 16-bit value.
pub fn u16_be_bytes(v: u16) -> (r: [u8; 2])
    ensures
        r@ == be16(v as int),
{
    let r = [(v / 0x100) as u8, (v % 0x100) as u8];
    assert(r@ =~= be16(v as int));
    r
}

/// Big-endian bytes of a 32-bit value.
pub fn u32_be_bytes(v: u32) -> (r: [u8; 4])
    ensures
        r@ == be32(v as int),
{
    let r = [
        (v / 0x1000000) as u8,
        ((v / 0x10000) % 0x100) as u8,
        ((v / 0x100) % 0x100) as u8,
        (v % 0x100) as u8,
    ];
    assert(r@ =~= be32(v as int));
    r
}

/// A cursor over bytes held in memory: the source every demuxer reads from.
pub struct ByteReader {
    data: Vec<u8>,
    pos: usize,
}

impl ByteReader {
    /// The offset of the next byte to read (never past the end).
    closed spec fn at(self) -> int {
        if self.pos <= self.data@.len() { self.pos as int } else { self.data@.len() as int }
    }

    /// The bytes not read yet.
    pub closed spec fn rest(self) -> Seq<u8> {
        self.data@.skip(self.at())
    }

    fn cursor(&self) -> (p: usize)
        ensures
            p == self.at(),
    {
        if self.pos <= self.data.len() { self.pos } else { self.data.len() }
    }

    /// A reader positioned at the first byte of `data`.
    pub fn new(data: Vec<u8>) -> (r: Self)
        ensures
            r.rest() == data@,
    {
        let r = ByteReader { data, pos: 0 };
        assert(r.data@.skip(0) =~= r.data@);
        r
    }

    /// How many bytes are left to read.
    pub fn remaining(&self) -> (n: usize)
        ensures
            n == self.rest().len(),
            self.rest().len() <= usize::MAX,
    {
        self.data.len() - self.cursor()
    }

    /// Reads exactly `n` bytes, or fails with `UnexpectedEof` and reads nothing.
    pub fn read_exact(&mut self, n: usize) -> (r: Result<Vec<u8>, Error>)
        ensures
            n <= old(self).rest().len() ==> (r matches Ok(v) && v@ == old(self).rest().take(n as int))
                && final(self).rest() == old(self).rest().skip(n as int),
            n > old(self).rest().len() ==> r == Err::<Vec<u8>, Error>(Error::UnexpectedEof)
                && final(self).rest() == old(self).rest(),
    {
        let p = self.cursor();
        if n > self.data.len() - p {
            return Err(Error::UnexpectedEof);
        }
        self.pos = p;
        let ghost rest0 = self.data@.skip(p as int);
        let mut out: Vec<u8> = Vec::new();
        let mut i: usize = 0;
        while i < n
            invariant
                i <= n,
                p + n <= self.data.len(),
                self.pos == p,
                rest0 == self.data@.skip(p as int),
                out@ == rest0.take(i as int),
            decreases n - i,
        {
            out.push(self.data[p + i]);
            i = i + 1;
            assert(out@ =~= rest0.take(i as int));
        }
        self.pos = self.pos + n;
        assert(self.data@.skip(self.pos as int) =~= rest0.skip(n as int));
        Ok(out)
    }

    /// Reads up to `n` bytes: all of them if that many are left, else all that are left.
    pub fn read(&mut self, n: usize) -> (v: Vec<u8>)
        ensures
            v@ == old(self).rest().take(if n <= old(self).rest().len() { n as int } else { old(self).rest().len() as int }),
            final(self).rest() == old(self).rest().skip(v@.len() as int),
    {
        let left = self.data.len() - self.cursor();
        let k = if n <= left { n } else { left };
        match self.read_exact(k) {
            Ok(v) => v,
            Err(_) => Vec::new(),
        }
    }

    /// Skips `n` bytes, or fails with `UnexpectedEof` and skips nothing.
    pub fn skip(&mut self, n: u64) -> (r: Result<(), Error>)
        ensures
            n <= old(self).rest().len() ==> r is Ok && final(self).rest() == old(self).rest().skip(n as int),
            n > old(self).rest().len() ==> r == Err::<(), Error>(Error::UnexpectedEof)
                && final(self).rest() == old(self).rest(),
    {
        let p = self.cursor();
        let left = self.data.len() - p;
        if n > left as u64 {
            return Err(Error::UnexpectedEof);
        }
        self.pos = p;
        let ghost rest0 = self.data@.skip(self.pos as int);
        self.pos = self.pos + n as usize;
        assert(self.data@.skip(self.pos as int) =~= rest0.skip(n as int));
        Ok(())
    }

    /// Reads one byte.
    pub fn read_u8(&mut self) -> (r: Result<u8, Error>)
        ensures
            1 <= old(self).rest().len() ==> r == Ok::<u8, Error>(old(self).rest()[0])
                && final(self).rest() == old(self).rest().skip(1),
            1 > old(self).rest().len() ==> r == Err::<u8, Error>(Error::UnexpectedEof)
                && final(self).rest() == old(self).rest(),
    {
        let v = self.read_exact(1)?;
        Ok(v[0])
    }

    /// Reads a little-endian 16-bit value.
    pub fn read_u16_le(&mut self) -> (r: Result<u16, Error>)
        ensures
            2 <= old(self).rest().len() ==> (r matches Ok(x) && x == le16_value(old(self).rest()))
                && final(self).rest() == old(self).rest().skip(2),
            2 > old(self).rest().len() ==> r == Err::<u16, Error>(Error::UnexpectedEof)
                && final(self).rest() == old(self).rest(),
    {
        let v = self.read_exact(2)?;
        Ok(v[0] as u16 + (v[1] as u16) * 0x100)
    }

    /// Reads a little-endian 32-bit value.
    pub fn read_u32_le(&mut self) -> (r: Result<u32, Error>)
        ensures
            4 <= old(self).rest().len() ==> (r matches Ok(x) && x == le32_value(old(self).rest()))
                && final(self).rest() == old(self).rest().skip(4),
            4 > old(self).rest().len() ==> r == Err::<u32, Error>(Error::UnexpectedEof)
                && final(self).rest() == old(self).rest(),
    {
        let v = self.read_exact(4)?;
        Ok(v[0] as u32 + (v[1] as u32) * 0x100 + (v[2] as u32) * 0x10000 + (v[3] as u32) * 0x1000000)
    }

    /// Reads a four-character code.
    pub fn read_fourcc(&mut self) -> (r: Result<[u8; 4], Error>)
        ensures
            4 <= old(self).rest().len() ==> (r matches Ok(x) && x@ == old(self).rest().take(4))
                && final(self).rest() == old(self).rest().skip(4),
            4 > old(self).rest().len() ==> r == Err::<[u8; 4], Error>(Error::UnexpectedEof)
                && final(self).rest() == old(self).rest(),
    {
        let v = self.read_exact(4)?;
        let r = [v[0], v[1], v[2], v[3]];
        assert(r@ =~= v@);
        Ok(r)
    }
}

/// A growable byte buffer with a write position: the sink every muxer writes to.
pub struct ByteWriter {
    buf: Vec<u8>,
    pos: usize,
}

impl ByteWriter {
    fn cursor(&self) -> (p: usize)
        ensures
            p == self.position(),
    {
        if self.pos <= self.buf.len() { self.pos } else { self.buf.len() }
    }

    /// Everything written so far.
    pub closed spec fn contents(self) -> Seq<u8> {
        self.buf@
    }

    /// Where the next write lands.
    pub closed spec fn position(self) -> nat {
        if self.pos <= self.buf@.len() { self.pos as nat } else { self.buf@.len() }
    }

    /// An empty sink.
    pub fn new() -> (w: Self)
        ensures
            w.contents() == Seq::<u8>::empty(),
            w.position() == 0,
    {
        ByteWriter { buf: Vec::new(), pos: 0 }
    }

    /// The write position never passes the end.
    pub proof fn lemma_position(&self)
        ensures
            self.position() <= self.contents().len(),
            self.contents().len() <= usize::MAX,
    {
        assert(self.buf.len() == self.buf@.len());
    }

    /// The write position.
    pub fn stream_position(&self) -> (p: u64)
        ensures
            p == self.position(),
            self.position() <= self.contents().len(),
    {
        self.cursor() as u64
    }

    /// The number of bytes written so far.
    pub fn len(&self) -> (n: usize)
        ensures
            n == self.contents().len(),
    {
        self.buf.len()
    }

    /// Everything written so far.
    pub fn as_bytes(&self) -> (b: &[u8])
        ensures
            b@ == self.contents(),
    {
        self.buf.as_slice()
    }

    /// Moves the write position to `pos`; fails with `Overflow` past the end.
    pub fn seek(&mut self, pos: u64) -> (r: Result<(), Error>)
        ensures
            pos <= old(self).contents().len() ==> r is Ok && final(self).position() == pos
                && final(self).contents() == old(self).contents(),
            pos > old(self).contents().len() ==> r == Err::<(), Error>(Error::Overflow)
                && *final(self) == *old(self),
    {
        if pos > self.buf.len() as u64 {
            return Err(Error::Overflow);
        }
        self.pos = pos as usize;
        Ok(())
    }

    /// Moves the write position to the end.
    pub fn seek_end(&mut self)
        ensures
            final(self).position() == old(self).contents().len(),
            final(self).contents() == old(self).contents(),
    {
        self.pos = self.buf.len();
    }

    /// Writes `d` at the position, overwriting and then growing; fails with `Overflow` only
    /// where the end would pass `usize::MAX`.
    pub fn write_all(&mut self, d: &[u8]) -> (r: Result<(), Error>)
        ensures
            old(self).position() + d@.len() <= usize::MAX ==> r is Ok
                && final(self).contents() == splice(old(self).contents(), old(self).position() as int, d@)
                && final(self).position() == old(self).position() + d@.len(),
            old(self).position() + d@.len() > usize::MAX ==> r == Err::<(), Error>(Error::Overflow)
                && *final(self) == *old(self),
    {
        let p = self.cursor();
        if d.len() > usize::MAX - p {
            return Err(Error::Overflow);
        }
        self.pos = p;
        let ghost s0 = self.buf@;
        let ghost p0 = self.pos as int;
        let mut i: usize = 0;
        while i < d.len()
            invariant
                i <= d@.len(),
                p0 + d@.len() <= usize::MAX,
                self.pos == p0 + i,
                self.pos <= self.buf@.len(),
                self.buf@ == splice(s0, p0, d@.take(i as int)),
                0 <= p0 <= s0.len(),
            decreases d@.len() - i,
        {
            let b = d[i];
            proof {
                lemma_splice_push(s0, p0, d@.take(i as int), b);
                assert(d@.take(i + 1) =~= d@.take(i as int).push(b));
            }
            if self.pos < self.buf.len() {
                self.buf.set(self.pos, b);
            } else {
                self.buf.push(b);
            }
            self.pos = self.pos + 1;
            i = i + 1;
        }
        assert(d@.take(i as int) =~= d@);
        Ok(())
    }

    /// Writes one byte.
    pub fn write_u8(&mut self, v: u8) -> (r: Result<(), Error>)
        ensures
            old(self).position() + 1 <= usize::MAX ==> r is Ok
                && final(self).contents() == splice(old(self).contents(), old(self).position() as int, seq![v])
                && final(self).position() == old(self).position() + 1,
            old(self).position() + 1 > usize::MAX ==> r is Err && *final(self) == *old(self),
    {
        let a = [v];
        assert(a@ =~= seq![v]);
        self.write_all(&a)
    }

    /// Writes a 16-bit value, little-endian.
    pub fn write_u16_le(&mut self, v: u16) -> (r: Result<(), Error>)
        ensures
            old(self).position() + 2 <= usize::MAX ==> r is Ok
                && final(self).contents() == splice(old(self).contents(), old(self).position() as int, le16(v as int))
                && final(self).position() == old(self).position() + 2,
            old(self).position() + 2 > usize::MAX ==> r is Err && *final(self) == *old(self),
    {
        let a = u16_le_bytes(v);
        self.write_all(&a)
    }

    /// Writes a 32-bit value, little-endian.
    pub fn write_u32_le(&mut self, v: u32) -> (r: Result<(), Error>)
        ensures
            old(self).position() + 4 <= usize::MAX ==> r is Ok
                && final(self).contents() == splice(old(self).contents(), old(self).position() as int, le32(v as int))
                && final(self).position() == old(self).position() + 4,
            old(self).position() + 4 > usize::MAX ==> r is Err && *final(self) == *old(self),
    {
        let a = u32_le_bytes(v);
        self.write_all(&a)
    }

    /// Writes a 16-bit value, big-endian.
    pub fn write_u16_be(&mut self, v: u16) -> (r: Result<(), Error>)
        ensures
            old(self).position() + 2 <= usize::MAX ==> r is Ok
                && final(self).contents() == splice(old(self).contents(), old(self).position() as int, be16(v as int))
                && final(self).position() == old(self).position() + 2,
            old(self).position() + 2 > usize::MAX ==> r is Err && *final(self) == *old(self),
    {
        let a = u16_be_bytes(v);
        self.write_all(&a)
    }

    /// Writes a 32-bit value, big-endian.
    pub fn write_u32_be(&mut self, v: u32) -> (r: Result<(), Error>)
        ensures
            old(self).position() + 4 <= usize::MAX ==> r is Ok
                && final(self).contents() == splice(old(self).contents(), old(self).position() as int, be32(v as int))
                && final(self).position() == old(self).position() + 4,
            old(self).position() + 4 > usize::MAX ==> r is Err && *final(self) == *old(self),
    {
        let a = u32_be_bytes(v);
        self.write_all(&a)
    }
}

} // verus!
