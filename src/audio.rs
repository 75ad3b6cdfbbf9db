use crate::error::SlumpError;
use crate::ring::{after_writes, RingBuffer};
use vstd::math::min;
use vstd::prelude::*;

verus! {

/// Canonical audio format: 48 kHz, two interleaved channels, 20 ms frames.
pub const SAMPLE_RATE: u32 = 48000;

pub const CHANNELS: u32 = 2;

/// Samples per channel in one 20 ms frame.
pub const FRAME_SIZE: usize = 960;

/// Ring capacity in samples: two seconds of interleaved stereo audio.
pub const RING_CAPACITY: usize = 192000;

/// The little-endian 32-bit word at word index `i` of `b`.
pub open spec fn le_word(b: Seq<u8>, i: int) -> u32 {
    (b[4 * i] as int + 256 * b[4 * i + 1] as int + 65536 * b[4 * i + 2] as int + 16777216
        * b[4 * i + 3] as int) as u32
}

/// The sample words held in a frame's bytes, four bytes each, in order.
pub open spec fn sample_words(b: Seq<u8>) -> Seq<u32> {
    Seq::new(b.len() / 4, |i: int| le_word(b, i))
}

/// Audio side of the pipeline: keeps the decoder's stream index and the ring
/// that decoded, resampled samples wait in until the send path reads them.
pub struct AudioCapture {
    stream_index: usize,
    ring: RingBuffer,
}

impl AudioCapture {
    pub open spec fn wf(&self) -> bool {
        self.ring().wf() && self.ring().cap() == RING_CAPACITY
    }

    pub closed spec fn ring(&self) -> RingBuffer {
        self.ring
    }

    pub closed spec fn stream(&self) -> usize {
        self.stream_index
    }

    /// The samples waiting to be read, oldest first.
    pub open spec fn buffered(&self) -> Seq<u32> {
        self.ring().contents()
    }

    /// A capture for the decoder stream `stream_index`, with an empty ring.
    pub fn new(stream_index: usize) -> (r: AudioCapture)
        ensures
            r.wf(),
            r.buffered() == Seq::<u32>::empty(),
            r.stream() == stream_index,
    {
        AudioCapture { stream_index, ring: RingBuffer::new(RING_CAPACITY) }
    }

    /// Whether a packet of stream `packet_stream` belongs to this capture.
    pub fn accepts_packet(&self, packet_stream: usize) -> (r: bool)
        ensures
            r == (packet_stream == self.stream()),
    {
        packet_stream == self.stream_index
    }

    /// Number of samples a read can take now.
    pub fn available(&self) -> (r: usize)
        ensures
            r as nat == self.buffered().len(),
    {
        self.ring.len()
    }

    /// Pushes one resampled frame, given as its raw bytes, into the ring.
    /// The bytes must hold whole interleaved stereo sample pairs (8 bytes
    /// each); otherwise the frame is refused with an audio error and nothing
    /// is pushed. Samples that find
    /// the ring full are dropped. Returns how many samples were kept.
    pub fn capture_audio(&mut self, frame: &[u8]) -> (r: Result<usize, SlumpError>)
        requires
            old(self).wf(),
        ensures
            final(self).wf(),
            final(self).stream() == old(self).stream(),
            frame@.len() % 8 != 0 <==> r is Err,
            r is Err ==> r->Err_0 is Audio && final(self).buffered() == old(self).buffered(),
            r is Ok ==> final(self).buffered() == after_writes(
                old(self).buffered(),
                RING_CAPACITY as nat,
                sample_words(frame@),
            ) && r->Ok_0 as nat == final(self).buffered().len() - old(self).buffered().len(),
    {
        if frame.len() % 8 != 0 {
            return Err(SlumpError::Audio("frame length is not a whole number of stereo samples".to_owned()));
        }
        let n = frame.len() / 4;
        let mut words: Vec<u32> = Vec::with_capacity(n);
        let mut i: usize = 0;
        while i < n
            invariant
                n == frame@.len() / 4,
                4 * n <= frame.len(),
                i <= n,
                words@.len() == i,
                forall|j: int| 0 <= j < i ==> words@[j] == le_word(frame@, j),
            decreases n - i,
        {
            let b0 = frame[4 * i] as u32;
            let b1 = frame[4 * i + 1] as u32;
            let b2 = frame[4 * i + 2] as u32;
            let b3 = frame[4 * i + 3] as u32;
            let w: u32 = b0 + 256 * b1 + 65536 * b2 + 16777216 * b3;
            words.push(w);
            i = i + 1;
        }
        proof {
            assert(words@ =~= sample_words(frame@));
        }
        let kept = self.ring.write(words.as_slice());
        Ok(kept)
    }

    /// Moves up to `buffer.len()` of the oldest samples into the front of
    /// `buffer` without waiting; returns `min(buffer.len(), available())`.
    pub fn read_audio(&mut self, buffer: &mut [u32]) -> (r: usize)
        requires
            old(self).wf(),
        ensures
            final(self).wf(),
            final(self).stream() == old(self).stream(),
            r as nat == min(old(buffer)@.len() as int, old(self).buffered().len() as int),
            final(buffer)@.len() == old(buffer)@.len(),
            final(buffer)@.subrange(0, r as int) == old(self).buffered().subrange(0, r as int),
            final(buffer)@.subrange(r as int, final(buffer)@.len() as int)
                == old(buffer)@.subrange(r as int, old(buffer)@.len() as int),
            final(self).buffered() == old(self).buffered().subrange(
                r as int,
                old(self).buffered().len() as int,
            ),
    {
        self.ring.read(buffer)
    }
}

} // verus!
