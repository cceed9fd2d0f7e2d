//! Little-endian PCM sample words: bytes to signed samples and back.
use crate::error::Error;
use vstd::prelude::*;

verus! {

/// The signed 16-bit sample two little-endian bytes hold.
pub open spec fn s16_value(lo: u8, hi: u8) -> int {
    let u = lo + 256 * hi;
    if u >= 0x8000 {
        u - 0x10000
    } else {
        u
    }
}

/// The signed 24-bit sample three little-endian bytes hold.
pub open spec fn s24_value(b0: u8, b1: u8, b2: u8) -> int {
    let u = b0 + 256 * b1 + 0x10000 * b2;
    if u >= 0x800000 {
        u - 0x1000000
    } else {
        u
    }
}

/// The 16-bit samples of `d`, two bytes each.
pub open spec fn s16_samples(d: Seq<u8>) -> Seq<i16> {
    Seq::new(d.len() / 2, |i: int| s16_value(d[2 * i], d[2 * i + 1]) as i16)
}

/// The 24-bit samples of `d`, three bytes each, sign-extended.
pub open spec fn s24_samples(d: Seq<u8>) -> Seq<i32> {
    Seq::new(d.len() / 3, |i: int| s24_value(d[3 * i], d[3 * i + 1], d[3 * i + 2]) as i32)
}

/// A 16-bit sample as the unsigned number its two's complement bytes hold.
pub open spec fn u16_of(v: i16) -> int {
    if v < 0 {
        v + 0x10000
    } else {
        v as int
    }
}

/// The low 24 bits of a sample's two's complement, as an unsigned number.
pub open spec fn low24(v: i32) -> int {
    (v as int) % 0x1000000
}

/// The bytes of 16-bit samples, little-endian.
pub open spec fn s16_bytes(s: Seq<i16>) -> Seq<u8> {
    Seq::new(
        2 * s.len(),
        |j: int|
            if j % 2 == 0 {
                (u16_of(s[j / 2]) % 256) as u8
            } else {
                (u16_of(s[j / 2]) / 256) as u8
            },
    )
}

/// The bytes of 24-bit samples: the low three bytes of each, little-endian.
pub open spec fn s24_bytes(s: Seq<i32>) -> Seq<u8> {
    Seq::new(
        3 * s.len(),
        |j: int|
            if j % 3 == 0 {
                (low24(s[j / 3]) % 256) as u8
            } else if j % 3 == 1 {
                ((low24(s[j / 3]) / 256) % 256) as u8
            } else {
                (low24(s[j / 3]) / 0x10000) as u8
            },
    )
}

/// The 16-bit samples of `data`; `InvalidPcmLength` where it is not a whole number of them.
pub fn pcm16_samples(data: &[u8]) -> (r: Result<Vec<i16>, Error>)
    ensures
        data@.len() % 2 != 0 ==> r == Err::<Vec<i16>, Error>(Error::InvalidPcmLength),
        data@.len() % 2 == 0 ==> (r matches Ok(v) && v@ == s16_samples(data@)),
{
    if data.len() % 2 != 0 {
        return Err(Error::InvalidPcmLength);
    }
    let len = data.len();
    let n = len / 2;
    let mut out: Vec<i16> = Vec::new();
    let mut i: usize = 0;
    while i < n
        invariant
            len == data@.len(),
            n == data@.len() / 2,
            i <= n,
            out@ =~= s16_samples(data@).take(i as int),
        decreases n - i,
    {
        let u: i32 = data[2 * i] as i32 + 256 * (data[2 * i + 1] as i32);
        let v: i16 = if u >= 0x8000 {
            (u - 0x10000) as i16
        } else {
            u as i16
        };
        out.push(v);
        i = i + 1;
        assert(out@ =~= s16_samples(data@).take(i as int));
    }
    assert(s16_samples(data@).take(n as int) =~= s16_samples(data@));
    Ok(out)
}

/// The 24-bit samples of `data`, sign-extended; `InvalidPcmLength` where it is not a whole
/// number of them.
pub fn pcm24_samples(data: &[u8]) -> (r: Result<Vec<i32>, Error>)
    ensures
        data@.len() % 3 != 0 ==> r == Err::<Vec<i32>, Error>(Error::InvalidPcmLength),
        data@.len() % 3 == 0 ==> (r matches Ok(v) && v@ == s24_samples(data@)),
{
    if data.len() % 3 != 0 {
        return Err(Error::InvalidPcmLength);
    }
    let len = data.len();
    let n = len / 3;
    let mut out: Vec<i32> = Vec::new();
    let mut i: usize = 0;
    while i < n
        invariant
            len == data@.len(),
            n == data@.len() / 3,
            i <= n,
            out@ =~= s24_samples(data@).take(i as int),
        decreases n - i,
    {
        let u: i32 = data[3 * i] as i32 + 256 * (data[3 * i + 1] as i32) + 0x10000 * (data[3 * i + 2] as i32);
        let v: i32 = if u >= 0x800000 {
            u - 0x1000000
        } else {
            u
        };
        out.push(v);
        i = i + 1;
        assert(out@ =~= s24_samples(data@).take(i as int));
    }
    assert(s24_samples(data@).take(n as int) =~= s24_samples(data@));
    Ok(out)
}

/// The bytes of 16-bit samples, little-endian.
pub fn pcm16_bytes(samples: &[i16]) -> (r: Vec<u8>)
    requires
        2 * samples@.len() <= usize::MAX,
    ensures
        r@ == s16_bytes(samples@),
{
    let mut out: Vec<u8> = Vec::new();
    let mut i: usize = 0;
    while i < samples.len()
        invariant
            i <= samples@.len(),
            2 * samples@.len() <= usize::MAX,
            out@ =~= s16_bytes(samples@).take(2 * i),
        decreases samples@.len() - i,
    {
        let v = samples[i] as i32;
        let u: i32 = if v < 0 {
            v + 0x10000
        } else {
            v
        };
        out.push((u % 256) as u8);
        out.push((u / 256) as u8);
        i = i + 1;
        assert(out@ =~= s16_bytes(samples@).take(2 * i));
    }
    assert(s16_bytes(samples@).take(2 * i) =~= s16_bytes(samples@));
    out
}

/// The bytes of 24-bit samples: the low three bytes of each, little-endian.
pub fn pcm24_bytes(samples: &[i32]) -> (r: Vec<u8>)
    requires
        3 * samples@.len() <= usize::MAX,
    ensures
        r@ == s24_bytes(samples@),
{
    let mut out: Vec<u8> = Vec::new();
    let mut i: usize = 0;
    while i < samples.len()
        invariant
            i <= samples@.len(),
            3 * samples@.len() <= usize::MAX,
            out@ =~= s24_bytes(samples@).take(3 * i),
        decreases samples@.len() - i,
    {
        let v = samples[i] as i64;
        let u: i64 = if v < 0 {
            (v + 0x100000000) % 0x1000000
        } else {
            v % 0x1000000
        };
        assert(u == low24(samples@[i as int]));
        out.push((u % 256) as u8);
        out.push(((u / 256) % 256) as u8);
        out.push((u / 0x10000) as u8);
        i = i + 1;
        assert(out@ =~= s24_bytes(samples@).take(3 * i));
    }
    assert(s24_bytes(samples@).take(3 * i) =~= s24_bytes(samples@));
    out
}

/// Reading back the bytes of 16-bit samples gives the samples.
pub proof fn law_pcm16_roundtrip(s: Seq<i16>)
    ensures
        s16_samples(s16_bytes(s)) == s,
{
    let b = s16_bytes(s);
    assert forall|i: int| 0 <= i < s.len() implies #[trigger] s16_samples(b)[i] == s[i] by {
        assert((2 * i) / 2 == i && (2 * i + 1) / 2 == i && (2 * i) % 2 == 0 && (2 * i + 1) % 2 == 1);
        let u = u16_of(s[i]);
        assert(u % 256 + 256 * (u / 256) == u);
    }
    assert(s16_samples(b) =~= s);
}

/// Reading back the bytes of 24-bit samples gives the samples, for samples that fit in 24 bits.
pub proof fn law_pcm24_roundtrip(s: Seq<i32>)
    requires
        forall|i: int| 0 <= i < s.len() ==> -0x800000 <= #[trigger] s[i] < 0x800000,
    ensures
        s24_samples(s24_bytes(s)) == s,
{
    let b = s24_bytes(s);
    assert forall|i: int| 0 <= i < s.len() implies #[trigger] s24_samples(b)[i] == s[i] by {
        assert((3 * i) / 3 == i && (3 * i + 1) / 3 == i && (3 * i + 2) / 3 == i);
        assert((3 * i) % 3 == 0 && (3 * i + 1) % 3 == 1 && (3 * i + 2) % 3 == 2);
        let u = low24(s[i]);
        assert(u % 256 + 256 * ((u / 256) % 256) + 0x10000 * (u / 0x10000) == u);
    }
    assert(s24_samples(b) =~= s);
}

} // verus!
