use vstd::prelude::*;

verus! {

/// The most bytes a PCM demuxer puts in one packet.
pub const CHUNK_SIZE_LIMIT: usize = 65536;

} // verus!
