use crate::container::chunked::{law_pcm_packets_join_to_data, pcm_chunks};
use crate::container::CHUNK_SIZE_LIMIT;
use crate::io::{law_writes_at_end_append, write_in_turn};
use vstd::prelude::*;

verus! {

/// What the raw PCM muxer writes on an empty sink, packet after packet, is the packets' data
/// one after the other with nothing between; the raw PCM demuxer, which reads to the end of
/// its source, hands those bytes back, in packets that joined are exactly that data.
pub proof fn law_raw_pcm_mux_then_demux(ds: Seq<Seq<u8>>, block_align: int)
    requires
        1 <= block_align <= CHUNK_SIZE_LIMIT,
        ds.flatten().len() <= u64::MAX,
    ensures
        write_in_turn(Seq::empty(), 0, ds) == ds.flatten(),
        pcm_chunks(write_in_turn(Seq::empty(), 0, ds), u64::MAX as int, block_align).flatten() == ds.flatten(),
{
    law_writes_at_end_append(Seq::empty(), ds);
    assert(Seq::<u8>::empty() + ds.flatten() =~= ds.flatten());
    law_pcm_packets_join_to_data(ds.flatten(), u64::MAX as int, block_align);
    assert(ds.flatten().take(ds.flatten().len() as int) =~= ds.flatten());
}

} // verus!
