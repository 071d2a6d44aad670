//! The frame codec: every message travels as a four-byte little-endian length
//! followed by exactly that many payload bytes.
use vstd::prelude::*;

use crate::buffer::{buffer_bytes, buffer_to_vec, byte_at};

verus! {

/// The largest payload that the length field can describe.
pub const MAX_FRAME_LEN: u32 = 4294967295;

/// Why a frame could not be read or written.
#[derive(Debug, Clone, Copy, PartialEq, Eq, Structural)]
pub enum FrameError {
    /// The declared or actual payload length exceeds the codec's ceiling.
    TooLarge(u64),
    /// The payload does not hold a message of the expected form.
    Malformed,
}

/// The value of four bytes read as a little-endian unsigned integer.
pub open spec fn le_value(s: Seq<u8>) -> nat
    recommends
        s.len() >= 4,
{
    s[0] as nat + 256 * (s[1] as nat) + 65536 * (s[2] as nat) + 16777216 * (s[3] as nat)
}

/// The four little-endian bytes of `n`.
pub open spec fn le_bytes(n: nat) -> Seq<u8> {
    seq![
        (n % 256) as u8,
        ((n / 256) % 256) as u8,
        ((n / 65536) % 256) as u8,
        ((n / 16777216) % 256) as u8,
    ]
}

/// The wire form of one payload.
pub open spec fn frame_of(p: Seq<u8>) -> Seq<u8> {
    le_bytes(p.len()) + p
}

/// What the front of a buffer holds.
pub enum Step {
    /// Too few bytes for a whole frame.
    NeedMore,
    /// A whole frame with this payload.
    Frame(Seq<u8>),
    /// A header that declares a payload longer than allowed.
    TooLarge(nat),
}

/// Reads one frame from the front of `buf`, with payloads of at most `max` bytes.
pub open spec fn step(buf: Seq<u8>, max: nat) -> Step {
    if buf.len() < 4 {
        Step::NeedMore
    } else if le_value(buf) > max {
        Step::TooLarge(le_value(buf))
    } else if buf.len() < 4 + le_value(buf) {
        Step::NeedMore
    } else {
        Step::Frame(buf.subrange(4, 4 + le_value(buf) as int))
    }
}

/// Reads frames from the front of `buf` until it holds no whole frame: the
/// payloads read, the bytes left, and whether an oversized header stopped it.
pub open spec fn drain(buf: Seq<u8>, max: nat) -> (Seq<Seq<u8>>, Seq<u8>, bool)
    decreases buf.len(),
{
    match step(buf, max) {
        Step::NeedMore => (Seq::empty(), buf, false),
        Step::TooLarge(_) => (Seq::empty(), buf, true),
        Step::Frame(p) => {
            let (fs, rest, failed) = drain(buf.skip(4 + p.len() as int), max);
            (seq![p] + fs, rest, failed)
        },
    }
}

/// All chunks joined, in order.
pub open spec fn concat_all(chunks: Seq<Seq<u8>>) -> Seq<u8>
    decreases chunks.len(),
{
    if chunks.len() == 0 {
        Seq::empty()
    } else {
        concat_all(chunks.drop_last()) + chunks.last()
    }
}

/// A decoder fed the chunks one after the other, reading every whole frame
/// after each chunk (as `Json::decode_all` does) and stopping for good at an
/// oversized header.
pub open spec fn feed(chunks: Seq<Seq<u8>>, max: nat) -> (Seq<Seq<u8>>, Seq<u8>, bool)
    decreases chunks.len(),
{
    if chunks.len() == 0 {
        (Seq::empty(), Seq::empty(), false)
    } else {
        let (fs, buf, failed) = feed(chunks.drop_last(), max);
        if failed {
            (fs, buf + chunks.last(), true)
        } else {
            let (more, rest, failed2) = drain(buf + chunks.last(), max);
            (fs + more, rest, failed2)
        }
    }
}

/// Four little-endian bytes give back the number they were made from.
pub proof fn lemma_le_round_trip(n: nat)
    requires
        n <= MAX_FRAME_LEN,
    ensures
        le_value(le_bytes(n)) == n,
        le_bytes(n).len() == 4,
{
    let b0 = n % 256;
    let q0 = n / 256;
    let b1 = q0 % 256;
    let q1 = q0 / 256;
    let b2 = q1 % 256;
    let q2 = q1 / 256;
    assert(n == b0 + 256 * q0);
    assert(q0 == b1 + 256 * q1);
    assert(q1 == b2 + 256 * q2);
    assert(q2 < 256);
    assert(n / 65536 == q1) by {
        vstd::arithmetic::div_mod::lemma_div_denominator(n as int, 256, 256);
    }
    assert(n / 16777216 == q2) by {
        vstd::arithmetic::div_mod::lemma_div_denominator(n as int, 65536, 256);
    }
    let s = le_bytes(n);
    assert(s[0] as nat == b0);
    assert(s[1] as nat == b1);
    assert(s[2] as nat == b2);
    assert(s[3] as nat == q2);
}

/// A frame read from the front of a buffer gives back its payload, and leaves
/// what followed it.
pub proof fn lemma_frame_round_trip(p: Seq<u8>, tail: Seq<u8>, max: nat)
    requires
        p.len() <= max,
        max <= MAX_FRAME_LEN,
    ensures
        step(frame_of(p) + tail, max) == Step::Frame(p),
        (frame_of(p) + tail).skip(4 + p.len() as int) == tail,
{
    lemma_le_round_trip(p.len());
    let buf = frame_of(p) + tail;
    assert(buf.subrange(0, 4) == le_bytes(p.len()));
    assert(le_value(buf) == le_value(le_bytes(p.len())));
    assert(buf.subrange(4, 4 + p.len() as int) == p);
    assert(buf.skip(4 + p.len() as int) == tail);
}

/// Appending bytes to a buffer does not change the frames already whole in it.
pub proof fn lemma_drain_append(x: Seq<u8>, y: Seq<u8>, max: nat)
    ensures
        ({
            let (fs, rest, failed) = drain(x, max);
            if failed {
                drain(x + y, max) == (fs, rest + y, true)
            } else {
                let (more, rest2, failed2) = drain(rest + y, max);
                drain(x + y, max) == (fs + more, rest2, failed2)
            }
        }),
    decreases x.len(),
{
    let xy = x + y;
    if x.len() >= 4 {
        assert(xy[0] == x[0] && xy[1] == x[1] && xy[2] == x[2] && xy[3] == x[3]);
        assert(le_value(xy) == le_value(x));
    }
    match step(x, max) {
        Step::NeedMore => {
            assert(Seq::<Seq<u8>>::empty() + drain(x + y, max).0 == drain(x + y, max).0);
        },
        Step::TooLarge(_) => {},
        Step::Frame(p) => {
            let k: int = 4 + p.len() as int;
            assert(xy.subrange(4, k) == p);
            assert(xy.skip(k) == x.skip(k) + y);
            lemma_drain_append(x.skip(k), y, max);
            let (fs, rest, failed) = drain(x.skip(k), max);
            if !failed {
                let (more, rest2, failed2) = drain(rest + y, max);
                assert(seq![p] + fs + more == seq![p] + (fs + more));
            }
        },
    }
}

/// Feeding chunks one after another reads the same frames as reading their
/// concatenation at once.
pub proof fn lemma_feed_is_drain(chunks: Seq<Seq<u8>>, max: nat)
    ensures
        feed(chunks, max) == drain(concat_all(chunks), max),
    decreases chunks.len(),
{
    if chunks.len() == 0 {
        assert(drain(Seq::<u8>::empty(), max) == (Seq::<Seq<u8>>::empty(), Seq::<u8>::empty(), false));
    } else {
        lemma_feed_is_drain(chunks.drop_last(), max);
        lemma_drain_append(concat_all(chunks.drop_last()), chunks.last(), max);
    }
}

/// However the same bytes are cut into chunks, the decoder reads the same
/// frames, is left with the same bytes, and fails in the same way.
pub proof fn lemma_chunking_independence(a: Seq<Seq<u8>>, b: Seq<Seq<u8>>, max: nat)
    requires
        concat_all(a) == concat_all(b),
    ensures
        feed(a, max) == feed(b, max),
{
    lemma_feed_is_drain(a, max);
    lemma_feed_is_drain(b, max);
}

/// The views of several byte vectors.
pub open spec fn payloads(v: Seq<Vec<u8>>) -> Seq<Seq<u8>> {
    v.map_values(|x: Vec<u8>| x@)
}

/// The frame codec for messages of type `T`; each payload is the JSON text of
/// one message, which the caller writes and reads. It refuses payloads longer
/// than `max_len`.
pub struct Json<T> {
    pub max_len: u32,
    pub marker: core::marker::PhantomData<T>,
}

impl<T> Default for Json<T> {
    /// A codec that accepts any payload the length field can describe.
    fn default() -> (r: Self)
        ensures
            r.max_len == MAX_FRAME_LEN,
    {
        Json { max_len: MAX_FRAME_LEN, marker: core::marker::PhantomData }
    }
}

impl<T> Json<T> {
    /// A codec with a stricter ceiling on payload length.
    pub fn with_max_len(max_len: u32) -> (r: Self)
        ensures
            r.max_len == max_len,
    {
        Json { max_len, marker: core::marker::PhantomData }
    }

    /// Takes one whole frame from the front of `src` and returns its payload;
    /// `None`, with `src` untouched, while the frame is not whole yet.
    pub fn decode(&mut self, src: &mut bytes::BytesMut) -> (r: Result<Option<Vec<u8>>, FrameError>)
        ensures
            *final(self) == *old(self),
            match step(buffer_bytes(*old(src)), old(self).max_len as nat) {
                Step::NeedMore => r == Ok::<Option<Vec<u8>>, FrameError>(None)
                    && buffer_bytes(*final(src)) == buffer_bytes(*old(src)),
                Step::TooLarge(n) => r == Err::<Option<Vec<u8>>, FrameError>(FrameError::TooLarge(n as u64))
                    && buffer_bytes(*final(src)) == buffer_bytes(*old(src)),
                Step::Frame(p) => r matches Ok(Some(v)) && v@ == p
                    && buffer_bytes(*final(src)) == buffer_bytes(*old(src)).skip(4 + p.len() as int),
            },
    {
        let ghost buf = buffer_bytes(*src);
        let avail = src.len();
        if avail < 4 {
            return Ok(None);
        }
        let b0 = byte_at(src, 0);
        let b1 = byte_at(src, 1);
        let b2 = byte_at(src, 2);
        let b3 = byte_at(src, 3);
        let length: u32 = b0 as u32 + 256 * (b1 as u32) + 65536 * (b2 as u32) + 16777216 * (b3 as u32);
        assert(length as nat == le_value(buf));
        if length > self.max_len {
            return Err(FrameError::TooLarge(length as u64));
        }
        if avail - 4 < length as usize {
            return Ok(None);
        }
        let _head = src.split_to(4);
        let body = src.split_to(length as usize);
        let payload = buffer_to_vec(&body);
        assert(payload@ == buf.subrange(4, 4 + le_value(buf) as int));
        assert(buffer_bytes(*src) == buf.skip(4 + length as int));
        Ok(Some(payload))
    }

    /// Takes every whole frame from the front of `src`, in order, and stops
    /// where no whole frame is left or at an oversized header, which it
    /// reports and leaves in `src`.
    pub fn decode_all(&mut self, src: &mut bytes::BytesMut) -> (r: (Vec<Vec<u8>>, Option<FrameError>))
        ensures
            *final(self) == *old(self),
            payloads(r.0@) == drain(buffer_bytes(*old(src)), old(self).max_len as nat).0,
            buffer_bytes(*final(src)) == drain(buffer_bytes(*old(src)), old(self).max_len as nat).1,
            (r.1 is Some) == drain(buffer_bytes(*old(src)), old(self).max_len as nat).2,
    {
        let ghost max = self.max_len as nat;
        let ghost whole = drain(buffer_bytes(*old(src)), old(self).max_len as nat);
        let mut out: Vec<Vec<u8>> = Vec::new();
        assert(payloads(out@) + whole.0 == whole.0);
        loop
            invariant
                *self == *old(self),
                max == self.max_len as nat,
                max == old(self).max_len as nat,
                whole == drain(buffer_bytes(*old(src)), old(self).max_len as nat),
                payloads(out@) + drain(buffer_bytes(*src), max).0 == whole.0,
                drain(buffer_bytes(*src), max).1 == whole.1,
                drain(buffer_bytes(*src), max).2 == whole.2,
            decreases buffer_bytes(*src).len(),
        {
            let ghost before = buffer_bytes(*src);
            match self.decode(src) {
                Ok(Some(p)) => {
                    proof {
                        let rest = drain(buffer_bytes(*src), max);
                        assert(drain(before, max).0 == seq![p@] + rest.0);
                        assert(payloads(out@.push(p)) == payloads(out@).push(p@));
                        assert(payloads(out@).push(p@) + rest.0 == payloads(out@) + (seq![p@] + rest.0));
                    }
                    out.push(p);
                },
                Ok(None) => {
                    assert(step(before, max) is NeedMore);
                    assert(drain(before, max).0 == Seq::<Seq<u8>>::empty());
                    assert(payloads(out@) + Seq::<Seq<u8>>::empty() == payloads(out@));
                    return (out, None);
                },
                Err(e) => {
                    assert(step(before, max) is TooLarge);
                    assert(drain(before, max).0 == Seq::<Seq<u8>>::empty());
                    assert(payloads(out@) + Seq::<Seq<u8>>::empty() == payloads(out@));
                    return (out, Some(e));
                },
            }
        }
    }

    /// Appends the frame of `payload` to `dst`; refuses, leaving `dst` as it
    /// was, a payload longer than the ceiling.
    pub fn encode(&mut self, payload: &[u8], dst: &mut bytes::BytesMut) -> (r: Result<(), FrameError>)
        ensures
            *final(self) == *old(self),
            payload@.len() <= old(self).max_len ==> r == Ok::<(), FrameError>(())
                && buffer_bytes(*final(dst)) == buffer_bytes(*old(dst)) + frame_of(payload@),
            payload@.len() > old(self).max_len ==> r == Err::<(), FrameError>(FrameError::TooLarge(payload@.len() as u64))
                && buffer_bytes(*final(dst)) == buffer_bytes(*old(dst)),
    {
        let len = payload.len();
        if len > self.max_len as usize {
            return Err(FrameError::TooLarge(len as u64));
        }
        let n = len as u32;
        let head: [u8; 4] = [(n % 256) as u8, ((n / 256) % 256) as u8, ((n / 65536) % 256) as u8, ((n / 16777216) % 256) as u8];
        assert(head@ == le_bytes(payload@.len()));
        dst.extend_from_slice(&head);
        dst.extend_from_slice(payload);
        assert(buffer_bytes(*dst) == buffer_bytes(*old(dst)) + frame_of(payload@));
        Ok(())
    }
}

} // verus!
