//! Length-prefixed frames: an eight-byte little-endian body length, then the
//! body. Decoding never consumes input until a whole frame is there.

use vstd::prelude::*;

use crate::encoding::{le_u64, lemma_u64_le_round_trip, push_all, push_u64_le, read_u64_le, u64_le};

verus! {

/// Width of the frame header.
pub const HEADER_SIZE: usize = 8;

/// The frame carrying `body`.
pub open spec fn frame(body: Seq<u8>) -> Seq<u8> {
    u64_le(body.len() as u64) + body
}

#[derive(Clone, Copy, Debug, PartialEq, Eq, Structural)]
pub enum FrameError {
    /// The header announces a body longer than the codec accepts.
    TooLarge,
}

/// Frames byte bodies, refusing on decoding a header that announces a body
/// longer than `max_frame`, a bound the caller chooses to limit memory.
#[derive(Clone, Copy, Debug)]
pub struct FrameCodec {
    pub max_frame: u64,
}

impl FrameCodec {
    /// What decoding `src` yields, and the input left afterwards.
    pub open spec fn decoding(self, src: Seq<u8>) -> (Result<Option<Seq<u8>>, FrameError>, Seq<u8>) {
        if src.len() < HEADER_SIZE {
            (Ok(None), src)
        } else if le_u64(src) > self.max_frame {
            (Err(FrameError::TooLarge), src)
        } else if src.len() - HEADER_SIZE < le_u64(src) {
            (Ok(None), src)
        } else {
            let end = HEADER_SIZE + le_u64(src);
            (Ok(Some(src.subrange(HEADER_SIZE as int, end))), src.subrange(end, src.len() as int))
        }
    }

    /// A codec with no bound below the header's range.
    pub fn new() -> (r: Self)
        ensures
            r.max_frame == u64::MAX,
    {
        FrameCodec { max_frame: u64::MAX }
    }

    pub fn with_max_frame(max_frame: u64) -> (r: Self)
        ensures
            r.max_frame == max_frame,
    {
        FrameCodec { max_frame }
    }

    /// Append the frame carrying `body` to `dst`.
    pub fn encode(&self, body: &[u8], dst: &mut Vec<u8>)
        ensures
            final(dst)@ == old(dst)@ + frame(body@),
    {
        push_u64_le(dst, body.len() as u64);
        push_all(dst, body);
        assert(dst@ =~= old(dst)@ + frame(body@));
    }

    /// The length of the first frame of `src`, header included, when the
    /// whole frame is there; `Ok(None)` when more input is needed. Nothing
    /// is consumed or copied.
    pub fn frame_extent(&self, src: &[u8]) -> (r: Result<Option<usize>, FrameError>)
        ensures
            r is Err <==> self.decoding(src@).0 is Err,
            r matches Err(e) ==> self.decoding(src@).0 == Err::<Option<Seq<u8>>, FrameError>(e),
            r == Ok::<Option<usize>, FrameError>(None) <==> self.decoding(src@).0 == Ok::<
                Option<Seq<u8>>,
                FrameError,
            >(None),
            r matches Ok(Some(end)) ==> {
                &&& HEADER_SIZE <= end <= src@.len()
                &&& self.decoding(src@) == (
                    Ok::<Option<Seq<u8>>, FrameError>(Some(src@.subrange(HEADER_SIZE as int, end as int))),
                    src@.subrange(end as int, src@.len() as int),
                )
            },
    {
        let n = src.len();
        if n < HEADER_SIZE {
            return Ok(None);
        }
        let size = read_u64_le(src);
        if size > self.max_frame {
            return Err(FrameError::TooLarge);
        }
        if ((n - HEADER_SIZE) as u64) < size {
            return Ok(None);
        }
        Ok(Some(HEADER_SIZE + size as usize))
    }

    /// Take the first frame's body off `src`. `Ok(None)` means more input is
    /// needed, and `src` is left as it was; so it is on an error.
    pub fn decode(&self, src: &mut Vec<u8>) -> (r: Result<Option<Vec<u8>>, FrameError>)
        ensures
            (match r {
                Ok(Some(body)) => Ok(Some(body@)),
                Ok(None) => Ok(None),
                Err(e) => Err(e),
            }, final(src)@) == self.decoding(old(src)@),
    {
        let end = match self.frame_extent(src.as_slice()) {
            Err(e) => return Err(e),
            Ok(None) => return Ok(None),
            Ok(Some(end)) => end,
        };
        let ghost whole = src@;
        let rest = src.split_off(end);
        let body = src.split_off(HEADER_SIZE);
        assert(body@ =~= whole.subrange(HEADER_SIZE as int, end as int));
        *src = rest;
        assert(src@ =~= whole.subrange(end as int, whole.len() as int));
        Ok(Some(body))
    }
}

/// A frame decodes to the body it was encoded from, leaving whatever
/// followed it; every proper prefix of a frame asks for more input.
pub proof fn lemma_frame_round_trip(codec: FrameCodec, body: Seq<u8>, rest: Seq<u8>)
    requires
        body.len() <= codec.max_frame,
    ensures
        codec.decoding(frame(body) + rest) == (Ok::<Option<Seq<u8>>, FrameError>(Some(body)), rest),
        forall|k: int|
            0 <= k < frame(body).len() ==> #[trigger] codec.decoding(frame(body).subrange(0, k))
                == (Ok::<Option<Seq<u8>>, FrameError>(None), frame(body).subrange(0, k)),
{
    let len = body.len() as u64;
    lemma_u64_le_round_trip(len);
    let f = frame(body);
    let src = f + rest;
    assert(src.subrange(0, 8) =~= u64_le(len));
    assert(le_u64(src) == le_u64(u64_le(len)));
    assert(src.subrange(HEADER_SIZE as int, HEADER_SIZE + body.len()) =~= body);
    assert(src.subrange(HEADER_SIZE + body.len(), src.len() as int) =~= rest);
    assert forall|k: int| 0 <= k < f.len() implies #[trigger] codec.decoding(f.subrange(0, k)) == (
    Ok::<Option<Seq<u8>>, FrameError>(None), f.subrange(0, k)) by {
        let p = f.subrange(0, k);
        if k >= 8 {
            assert(le_u64(p) == le_u64(u64_le(len)));
        }
    }
}

} // verus!
