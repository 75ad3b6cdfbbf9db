use crate::error::SlumpError;
use vstd::prelude::*;

verus! {

/// Frame-rate estimate before any frame was decoded after some time, in
/// thousandths of a frame per second.
pub const INITIAL_FRAME_RATE: u64 = 0;

/// Measured frame rate, in thousandths of a frame per second, of `count`
/// frames decoded over `elapsed_ms` milliseconds (saturating at `u64::MAX`).
pub open spec fn rate_of(count: nat, elapsed_ms: nat) -> nat {
    let r = count * 1000000 / elapsed_ms;
    if r > u64::MAX { u64::MAX as nat } else { r }
}

/// Byte length of a 4:2:0 semi-planar image of `width` x `height`: one full
/// luma plane and one interleaved chroma plane at half resolution, rounded up.
pub open spec fn scaled_len(width: nat, height: nat) -> nat {
    width * height + 2 * (((width + 1) / 2) * ((height + 1) / 2))
}

/// Video side of the pipeline: keeps the decoder's stream index, the scale
/// target, the sequence count of decoded frames, the last presentation
/// timestamp and the measured frame rate.
pub struct VideoCapture {
    stream_index: usize,
    width: u32,
    height: u32,
    frame_count: u64,
    last_pts: Option<i64>,
    frame_rate: u64,
}

impl VideoCapture {
    pub closed spec fn stream(&self) -> usize {
        self.stream_index
    }

    pub closed spec fn target(&self) -> (u32, u32) {
        (self.width, self.height)
    }

    /// Sequence number of the last decoded frame (0 before the first).
    pub closed spec fn count(&self) -> u64 {
        self.frame_count
    }

    pub closed spec fn pts(&self) -> Option<i64> {
        self.last_pts
    }

    pub closed spec fn rate(&self) -> u64 {
        self.frame_rate
    }

    /// A capture for decoder stream `stream_index`, scaling to `width` x `height`.
    pub fn new(stream_index: usize, width: u32, height: u32) -> (r: VideoCapture)
        ensures
            r.stream() == stream_index,
            r.target() == (width, height),
            r.count() == 0,
            r.pts() is None,
            r.rate() == INITIAL_FRAME_RATE,
    {
        VideoCapture {
            stream_index,
            width,
            height,
            frame_count: 0,
            last_pts: None,
            frame_rate: INITIAL_FRAME_RATE,
        }
    }

    /// Whether a packet of stream `packet_stream` belongs to this capture.
    pub fn accepts_packet(&self, packet_stream: usize) -> (r: bool)
        ensures
            r == (packet_stream == self.stream()),
    {
        packet_stream == self.stream_index
    }

    /// Records one decoded frame with timestamp `pts`, decoded `elapsed_ms`
    /// after the capture was opened, and returns its sequence number: one more
    /// than the previous frame's, so numbers strictly increase. The frame rate
    /// becomes frames decoded over the time elapsed since open; a frame decoded
    /// at the opening instant leaves it as it was.
    pub fn capture_frame(&mut self, pts: Option<i64>, elapsed_ms: u64) -> (r: u64)
        requires
            old(self).count() < u64::MAX,
        ensures
            r == old(self).count() + 1,
            final(self).count() == r,
            final(self).pts() == pts,
            final(self).stream() == old(self).stream(),
            final(self).target() == old(self).target(),
            elapsed_ms > 0 ==> final(self).rate() as nat == rate_of(r as nat, elapsed_ms as nat),
            elapsed_ms == 0 ==> final(self).rate() == old(self).rate(),
    {
        self.frame_count = self.frame_count + 1;
        self.last_pts = pts;
        if elapsed_ms > 0 {
            let q: u128 = (self.frame_count as u128) * 1000000u128 / (elapsed_ms as u128);
            self.frame_rate = if q > u64::MAX as u128 { u64::MAX } else { q as u64 };
        }
        self.frame_count
    }

    /// Measured frame rate, in thousandths of a frame per second.
    pub fn get_frame_rate(&self) -> (r: u64)
        ensures
            r == self.rate(),
    {
        self.frame_rate
    }

    /// Sequence number of the last decoded frame.
    pub fn frame_count(&self) -> (r: u64)
        ensures
            r == self.count(),
    {
        self.frame_count
    }

    /// Presentation timestamp of the last decoded frame.
    pub fn last_pts(&self) -> (r: Option<i64>)
        ensures
            r == self.pts(),
    {
        self.last_pts
    }

    /// Byte length that a scaled frame at the target size must have.
    pub fn scaled_frame_len(&self) -> (r: u128)
        ensures
            r as nat == scaled_len(self.target().0 as nat, self.target().1 as nat),
    {
        let w = self.width as u128;
        let h = self.height as u128;
        let cw = (w + 1) / 2;
        let ch = (h + 1) / 2;
        assert(w * h <= 0xffff_ffffu128 * 0xffff_ffffu128) by (nonlinear_arith)
            requires
                w <= 0xffff_ffffu128,
                h <= 0xffff_ffffu128,
        ;
        assert(cw * ch <= 0x8000_0000u128 * 0x8000_0000u128) by (nonlinear_arith)
            requires
                cw <= 0x8000_0000u128,
                ch <= 0x8000_0000u128,
        ;
        w * h + 2 * (cw * ch)
    }

    /// Checks a scaled frame's byte length against the target layout before
    /// its bytes are read; a frame of any other length is a video error.
    pub fn check_scaled_frame(&self, len: usize) -> (r: Result<(), SlumpError>)
        ensures
            r is Ok <==> len as nat == scaled_len(self.target().0 as nat, self.target().1 as nat),
            r is Err ==> r->Err_0 is Video,
    {
        let expected = self.scaled_frame_len();
        if len as u128 == expected {
            Ok(())
        } else {
            Err(SlumpError::Video("scaled frame does not match the target layout".to_owned()))
        }
    }
}

} // verus!
