//! Message boundaries on a byte stream: each payload is preceded by its
//! length in four bytes, least significant first.
use vstd::prelude::*;

use crate::codec::{from_le4, le4};

verus! {

/// A payload with its length prefix.
pub open spec fn frame(payload: Seq<u8>) -> Seq<u8> {
    le4(payload.len() as u64) + payload
}

/// Takes one framed payload from the front of `s`: the prefix is read
/// first, then exactly as many bytes as it gives. `None` while the stream
/// holds less than a whole frame.
pub open spec fn split_frame(s: Seq<u8>) -> Option<(Seq<u8>, Seq<u8>)> {
    if s.len() < 4 {
        None
    } else {
        let n = from_le4(s.subrange(0, 4));
        if n <= s.len() - 4 {
            Some((s.subrange(4, 4 + n as int), s.subrange(4 + n as int, s.len() as int)))
        } else {
            None
        }
    }
}

/// A framed payload is taken back whole from the front of a stream, and
/// what followed it is left.
pub proof fn lemma_frame_round_trip(payload: Seq<u8>, rest: Seq<u8>)
    requires
        payload.len() <= u32::MAX,
    ensures
        split_frame(frame(payload) + rest) == Some((payload, rest)),
{
    let n = payload.len() as u64;
    let s = frame(payload) + rest;
    assert(s.subrange(0, 4) =~= le4(n));
    assert((n as u8) as u64 | (((n >> 8u64) as u8) as u64) << 8u64 | (((n >> 16u64) as u8) as u64)
        << 16u64 | (((n >> 24u64) as u8) as u64) << 24u64 == n) by (bit_vector)
        requires
            n <= 0xffff_ffff,
    ;
    assert(s.subrange(4, 4 + payload.len() as int) =~= payload);
    assert(s.subrange(4 + payload.len() as int, s.len() as int) =~= rest);
}

/// Two messages placed back to back on a stream, each with its prefix, are
/// both recovered exactly, in order, by two successive reads.
pub proof fn lemma_two_frames_recovered(first: Seq<u8>, second: Seq<u8>)
    requires
        first.len() <= u32::MAX,
        second.len() <= u32::MAX,
    ensures
        split_frame(frame(first) + frame(second)) == Some((first, frame(second))),
        split_frame(frame(second)) == Some((second, Seq::<u8>::empty())),
{
    lemma_frame_round_trip(first, frame(second));
    lemma_frame_round_trip(second, Seq::empty());
    assert(frame(second) + Seq::<u8>::empty() =~= frame(second));
}

/// Prefixes a payload with its length; `None` when the length does not fit
/// in four bytes.
pub fn frame_message(payload: &[u8]) -> (r: Option<Vec<u8>>)
    ensures
        payload@.len() <= u32::MAX ==> (r matches Some(v) && v@ == frame(payload@)),
        payload@.len() > u32::MAX ==> r is None,
{
    if payload.len() as u64 > 0xffff_ffffu64 {
        return None;
    }
    let n = payload.len() as u64;
    let mut out: Vec<u8> = Vec::new();
    out.push(n as u8);
    out.push((n >> 8u64) as u8);
    out.push((n >> 16u64) as u8);
    out.push((n >> 24u64) as u8);
    let mut i: usize = 0;
    while i < payload.len()
        invariant
            i <= payload@.len(),
            out@ == le4(n) + payload@.subrange(0, i as int),
        decreases payload@.len() - i,
    {
        out.push(payload[i]);
        i = i + 1;
        assert(out@ =~= le4(n) + payload@.subrange(0, i as int));
    }
    assert(payload@.subrange(0, payload@.len() as int) =~= payload@);
    Some(out)
}

/// The receiving side of a framed stream: it gathers chunks as they arrive
/// and hands out each payload once all of it is there.
pub struct FrameReader {
    buf: Vec<u8>,
}

impl View for FrameReader {
    type V = Seq<u8>;

    /// The bytes received and not yet handed out.
    closed spec fn view(&self) -> Seq<u8> {
        self.buf@
    }
}

impl FrameReader {
    /// A reader that has received nothing.
    pub fn new() -> (r: FrameReader)
        ensures
            r@ == Seq::<u8>::empty(),
    {
        FrameReader { buf: Vec::new() }
    }

    /// Takes in the next chunk of the stream.
    pub fn push(&mut self, chunk: &[u8])
        ensures
            final(self)@ == old(self)@ + chunk@,
    {
        let mut i: usize = 0;
        while i < chunk.len()
            invariant
                i <= chunk@.len(),
                self@ == old(self)@ + chunk@.subrange(0, i as int),
            decreases chunk@.len() - i,
        {
            self.buf.push(chunk[i]);
            i = i + 1;
            assert(self@ =~= old(self)@ + chunk@.subrange(0, i as int));
        }
        assert(chunk@.subrange(0, chunk@.len() as int) =~= chunk@);
    }

    /// Hands out the next whole payload, if all of it has arrived.
    pub fn next_frame(&mut self) -> (r: Option<Vec<u8>>)
        ensures
            match split_frame(old(self)@) {
                Some((payload, rest)) => r matches Some(v) && v@ == payload && final(self)@
                    == rest,
                None => r is None && final(self)@ == old(self)@,
            },
    {
        let len = self.buf.len();
        if len < 4 {
            return None;
        }
        let n = self.buf[0] as u64 | (self.buf[1] as u64) << 8u64 | (self.buf[2] as u64) << 16u64
            | (self.buf[3] as u64) << 24u64;
        assert(self@.subrange(0, 4) =~= seq![self.buf[0], self.buf[1], self.buf[2], self.buf[3]]);
        if n > (len - 4) as u64 {
            return None;
        }
        let end = 4 + n as usize;
        let mut payload: Vec<u8> = Vec::new();
        let mut i: usize = 4;
        while i < end
            invariant
                4 <= i <= end <= len,
                len == self.buf@.len(),
                payload@ == self.buf@.subrange(4, i as int),
            decreases end - i,
        {
            payload.push(self.buf[i]);
            i = i + 1;
            assert(payload@ =~= self.buf@.subrange(4, i as int));
        }
        let mut rest: Vec<u8> = Vec::new();
        let mut j: usize = end;
        while j < len
            invariant
                end <= j <= len,
                len == self.buf@.len(),
                rest@ == self.buf@.subrange(end as int, j as int),
            decreases len - j,
        {
            rest.push(self.buf[j]);
            j = j + 1;
            assert(rest@ =~= self.buf@.subrange(end as int, j as int));
        }
        self.buf = rest;
        Some(payload)
    }
}

} // verus!
