//! What the YUV demuxer gives back of pictures written one after the other.
use vstd::prelude::*;

verus! {

/// The pictures a `YuvDemuxer` hands out of `src` when a picture is `n` bytes: each next `n`
/// bytes, in order, until fewer than `n` are left.
pub open spec fn yuv_pictures(src: Seq<u8>, n: nat) -> Seq<Seq<u8>>
    decreases src.len(),
{
    if n == 0 || src.len() < n {
        Seq::empty()
    } else {
        seq![src.take(n as int)] + yuv_pictures(src.skip(n as int), n)
    }
}

/// Pictures of `n` bytes each, written one after the other as `YuvMuxer` writes them, are read
/// back by `YuvDemuxer` as the same pictures in the same order.
pub proof fn law_yuv_mux_then_demux(pictures: Seq<Seq<u8>>, n: nat)
    requires
        n > 0,
        forall|i: int| 0 <= i < pictures.len() ==> (#[trigger] pictures[i]).len() == n,
    ensures
        yuv_pictures(pictures.flatten(), n) == pictures,
    decreases pictures.len(),
{
    if pictures.len() > 0 {
        let rest = pictures.drop_first();
        assert forall|i: int| 0 <= i < rest.len() implies (#[trigger] rest[i]).len() == n by {
            assert(rest[i] == pictures[i + 1]);
        }
        law_yuv_mux_then_demux(rest, n);
        let src = pictures.flatten();
        assert(pictures[0].len() == n);
        assert(src == pictures[0] + rest.flatten());
        assert(src.take(n as int) =~= pictures[0]);
        assert(src.skip(n as int) =~= rest.flatten());
        assert(seq![pictures[0]] + rest =~= pictures);
    } else {
        assert(pictures.flatten() =~= Seq::<u8>::empty());
        assert(yuv_pictures(pictures.flatten(), n) =~= pictures);
    }
}

} // verus!
