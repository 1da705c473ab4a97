//! Reassembly of frames from a byte stream.
//!
//! The stream is scanned from the front. Where eleven bytes starting at the
//! current position form a valid frame, the frame is taken and the position
//! moves past it; otherwise the byte at the position is noise and the position
//! moves by one. Fewer than eleven bytes at the end are kept, since a frame may
//! be split across two reads.

use vstd::prelude::*;
use crate::frame::{decode, frame_fields, is_frame, parse_frame, WitmotionFrame, FRAME_LEN, SYNC};

verus! {

/// The frames found in `s`, in order, and the bytes left over at its end.
pub open spec fn drain(s: Seq<u8>) -> (Seq<WitmotionFrame>, Seq<u8>)
    decreases s.len(),
{
    if s.len() < 11 {
        (Seq::empty(), s)
    } else {
        match decode(s.take(11)) {
            Some(f) => {
                let rest = drain(s.skip(11));
                (seq![f] + rest.0, rest.1)
            },
            None => drain(s.skip(1)),
        }
    }
}

/// No byte of `s` is the sync byte.
pub open spec fn free_of_sync(s: Seq<u8>) -> bool {
    forall|i: int| 0 <= i < s.len() ==> s[i] != SYNC
}

/// What is left over after a scan is shorter than a frame, so a stream
/// never holds more than ten unconsumed bytes.
pub proof fn lemma_drain_leftover_short(s: Seq<u8>)
    ensures
        drain(s).1.len() < 11,
    decreases s.len(),
{
    if s.len() >= 11 {
        match decode(s.take(11)) {
            Some(f) => lemma_drain_leftover_short(s.skip(11)),
            None => lemma_drain_leftover_short(s.skip(1)),
        }
    }
}

/// Bytes other than the sync byte in front of at least a frame's length of
/// data are dropped one by one and change nothing of what is found after them.
pub proof fn lemma_drain_skips_noise(g: Seq<u8>, t: Seq<u8>)
    requires
        free_of_sync(g),
        t.len() >= 11,
    ensures
        drain(g + t) == drain(t),
    decreases g.len(),
{
    if g.len() > 0 {
        let s = g + t;
        assert(s.take(11)[0] == g[0]);
        assert(s.skip(1) =~= g.skip(1) + t);
        lemma_drain_skips_noise(g.skip(1), t);
    } else {
        assert(g + t =~= t);
    }
}

/// A valid frame at the front of the stream is taken whole, and the scan
/// goes on right after it.
pub proof fn lemma_drain_frame_first(f: Seq<u8>, t: Seq<u8>)
    requires
        is_frame(f),
    ensures
        drain(f + t) == (seq![frame_fields(f)] + drain(t).0, drain(t).1),
{
    let s = f + t;
    assert(s.take(11) =~= f);
    assert(s.skip(11) =~= t);
}

/// Resynchronisation: noise without a sync byte, then a valid frame, then any
/// bytes `t`. The frame is found, everything up to its end is consumed, and
/// the rest is what `t` alone gives; where `t` holds no frame, exactly the one
/// frame is found.
pub proof fn lemma_resynchronize(g: Seq<u8>, f: Seq<u8>, t: Seq<u8>)
    requires
        free_of_sync(g),
        is_frame(f),
    ensures
        drain(g + f + t) == (seq![frame_fields(f)] + drain(t).0, drain(t).1),
        drain(t).0.len() == 0 ==> drain(g + f + t).0 == seq![frame_fields(f)],
{
    assert(g + f + t =~= g + (f + t));
    lemma_drain_skips_noise(g, f + t);
    lemma_drain_frame_first(f, t);
    assert(seq![frame_fields(f)] + Seq::<WitmotionFrame>::empty() =~= seq![frame_fields(f)]);
}

/// Two valid frames back to back give both frames, in order, and leave nothing.
pub proof fn lemma_two_frames(f1: Seq<u8>, f2: Seq<u8>)
    requires
        is_frame(f1),
        is_frame(f2),
    ensures
        drain(f1 + f2) == (seq![frame_fields(f1), frame_fields(f2)], Seq::<u8>::empty()),
{
    lemma_drain_frame_first(f1, f2);
    assert(f2 + Seq::<u8>::empty() =~= f2);
    lemma_drain_frame_first(f2, Seq::<u8>::empty());
    assert(drain(Seq::<u8>::empty()) == (Seq::<WitmotionFrame>::empty(), Seq::<u8>::empty()));
    assert(seq![frame_fields(f1)] + (seq![frame_fields(f2)] + Seq::<WitmotionFrame>::empty())
        =~= seq![frame_fields(f1), frame_fields(f2)]);
}

/// Chunk boundaries do not matter: scanning `a`, then what it left over
/// followed by `b`, finds the frames of `a + b` and leaves the same tail.
pub proof fn lemma_drain_split(a: Seq<u8>, b: Seq<u8>)
    ensures
        drain(a + b) == (drain(a).0 + drain(drain(a).1 + b).0, drain(drain(a).1 + b).1),
    decreases a.len(),
{
    let s = a + b;
    if a.len() < 11 {
        assert(drain(a).0 + drain(a + b).0 =~= drain(a + b).0);
    } else {
        assert(s.take(11) =~= a.take(11));
        match decode(a.take(11)) {
            Some(f) => {
                assert(s.skip(11) =~= a.skip(11) + b);
                lemma_drain_split(a.skip(11), b);
                let t = drain(a.skip(11));
                assert(seq![f] + (t.0 + drain(t.1 + b).0) =~= (seq![f] + t.0) + drain(t.1 + b).0);
            },
            None => {
                assert(s.skip(1) =~= a.skip(1) + b);
                lemma_drain_split(a.skip(1), b);
            },
        }
    }
}

/// Scans `buffer`: the frames found, and the position where the leftover starts.
fn scan(buffer: &[u8]) -> (r: (Vec<WitmotionFrame>, usize))
    ensures
        r.0@ == drain(buffer@).0,
        r.1 <= buffer@.len(),
        buffer@.skip(r.1 as int) == drain(buffer@).1,
{
    let mut frames: Vec<WitmotionFrame> = Vec::new();
    let mut i: usize = 0;
    assert(buffer@.skip(0) =~= buffer@);
    assert(frames@ + drain(buffer@).0 =~= drain(buffer@).0);
    while buffer.len() >= FRAME_LEN && i <= buffer.len() - FRAME_LEN
        invariant
            i <= buffer@.len(),
            drain(buffer@).0 == frames@ + drain(buffer@.skip(i as int)).0,
            drain(buffer@).1 == drain(buffer@.skip(i as int)).1,
        decreases buffer@.len() - i,
    {
        let ghost t = buffer@.skip(i as int);
        if buffer[i] == SYNC {
            let window = &buffer[i..i + FRAME_LEN];
            assert(window@ =~= t.take(11));
            if let Some(frame) = parse_frame(window) {
                proof {
                    assert(t.skip(11) =~= buffer@.skip(i + 11));
                    let rest = drain(t.skip(11)).0;
                    assert(frames@.push(frame) + rest =~= frames@ + (seq![frame] + rest));
                }
                frames.push(frame);
                i = i + FRAME_LEN;
                continue;
            }
        } else {
            assert(t.take(11)[0] == buffer@[i as int]);
        }
        assert(t.skip(1) =~= buffer@.skip(i + 1));
        i = i + 1;
    }
    (frames, i)
}

/// All frames found in `buffer`, in the order in which they stand.
pub fn extract_frames(buffer: &[u8]) -> (r: Vec<WitmotionFrame>)
    ensures
        r@ == drain(buffer@).0,
{
    let (frames, _) = scan(buffer);
    frames
}

/// A reassembler for a live stream: bytes are fed as they arrive, frames come
/// out as soon as they are complete, and only an unfinished tail is kept.
pub struct FrameStream {
    pending: Vec<u8>,
}

impl View for FrameStream {
    type V = Seq<u8>;

    /// The bytes held back for the next feed.
    closed spec fn view(&self) -> Seq<u8> {
        self.pending@
    }
}

impl FrameStream {
    /// A reassembler that holds no bytes yet.
    pub fn new() -> (r: FrameStream)
        ensures
            r@ == Seq::<u8>::empty(),
    {
        FrameStream { pending: Vec::new() }
    }

    /// The bytes held back, fewer than a frame's length.
    pub fn pending(&self) -> (r: &[u8])
        ensures
            r@ == self@,
    {
        self.pending.as_slice()
    }

    /// Appends `bytes` to what was held back and takes every frame out of the
    /// result; the tail that cannot yet hold a frame is held back.
    pub fn push(&mut self, bytes: &[u8]) -> (r: Vec<WitmotionFrame>)
        ensures
            r@ == drain(old(self)@ + bytes@).0,
            final(self)@ == drain(old(self)@ + bytes@).1,
            final(self)@.len() < 11,
    {
        let ghost all = old(self)@ + bytes@;
        let mut j: usize = 0;
        while j < bytes.len()
            invariant
                j <= bytes@.len(),
                self@ == old(self)@ + bytes@.take(j as int),
            decreases bytes@.len() - j,
        {
            self.pending.push(bytes[j]);
            assert(bytes@.take(j + 1) =~= bytes@.take(j as int).push(bytes@[j as int]));
            j = j + 1;
        }
        assert(bytes@.take(j as int) =~= bytes@);
        let (frames, start) = scan(self.pending.as_slice());
        let mut rest: Vec<u8> = Vec::new();
        let mut k: usize = start;
        while k < self.pending.len()
            invariant
                start <= k <= self.pending@.len(),
                self.pending@ == all,
                rest@ == all.subrange(start as int, k as int),
            decreases self.pending@.len() - k,
        {
            rest.push(self.pending[k]);
            assert(all.subrange(start as int, k + 1) =~= all.subrange(start as int, k as int).push(all[k as int]));
            k = k + 1;
        }
        assert(rest@ =~= all.skip(start as int));
        proof {
            lemma_drain_leftover_short(all);
        }
        self.pending = rest;
        frames
    }
}

} // verus!
