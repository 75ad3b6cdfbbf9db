use vstd::prelude::*;

pub mod audio;
pub mod error;
pub mod ring;
pub mod signal;
pub mod stream;
pub mod video;
pub mod webrtc;

pub use crate::error::SlumpError;
pub use crate::stream::{SlumpStream, StreamConfig};

verus! {

/// Events pushed to the host. Rates are in bits per second, times in
/// microseconds, frame rates in thousandths of a frame per second.
#[derive(Debug, Clone, PartialEq, Eq)]
pub enum StreamEvent {
    Stats { video_bps: u64, audio_bps: u64, rtt_us: u64, jitter_us: u64, fps_milli: u64 },
    Error(String),
    Connected,
    Disconnected,
    Warning(String),
}

impl StreamEvent {
    /// A statistics event with every field zero.
    pub fn new() -> (r: StreamEvent)
        ensures
            r == (StreamEvent::Stats { video_bps: 0, audio_bps: 0, rtt_us: 0, jitter_us: 0, fps_milli: 0 }),
    {
        StreamEvent::Stats { video_bps: 0, audio_bps: 0, rtt_us: 0, jitter_us: 0, fps_milli: 0 }
    }
}

/// Snapshot of the stream's statistics.
#[derive(Debug, Clone, Copy, PartialEq, Eq, Structural)]
pub struct Stats {
    pub video_bps: u64,
    pub audio_bps: u64,
    pub rtt_us: u64,
    pub jitter_us: u64,
    pub fps_milli: u64,
}

/// `amount` per `elapsed_ms` milliseconds, scaled to one second and
/// rounded down, saturating at `u64::MAX`.
pub open spec fn per_second(amount: nat, elapsed_ms: nat) -> nat {
    let r = amount * 1000 / elapsed_ms;
    if r > u64::MAX { u64::MAX as nat } else { r }
}

/// `a + b`, saturating at `u64::MAX`.
pub open spec fn sat_add(a: nat, b: nat) -> nat {
    if a + b > u64::MAX { u64::MAX as nat } else { a + b }
}

/// Aggregate counters. The `*_sent` counters run for the whole session; the
/// `interval_*` counters collect what was sent since the last reporting tick,
/// from which the rate fields are recomputed at each tick.
#[derive(Debug, Clone, Copy, PartialEq, Eq, Structural)]
pub struct StreamStats {
    pub video_frames_sent: u64,
    pub audio_frames_sent: u64,
    pub interval_video_frames: u64,
    pub interval_video_bytes: u64,
    pub interval_audio_bytes: u64,
    pub video_bps: u64,
    pub audio_bps: u64,
    pub fps_milli: u64,
    pub rtt_us: u64,
    pub jitter_us: u64,
}

/// Counters after one video frame of `bytes` bytes was sent.
pub open spec fn after_video_frame(s: StreamStats, bytes: nat) -> StreamStats {
    StreamStats {
        video_frames_sent: sat_add(s.video_frames_sent as nat, 1) as u64,
        interval_video_frames: sat_add(s.interval_video_frames as nat, 1) as u64,
        interval_video_bytes: sat_add(s.interval_video_bytes as nat, bytes) as u64,
        ..s
    }
}

/// Counters after one audio frame of `bytes` bytes was sent.
pub open spec fn after_audio_frame(s: StreamStats, bytes: nat) -> StreamStats {
    StreamStats {
        audio_frames_sent: sat_add(s.audio_frames_sent as nat, 1) as u64,
        interval_audio_bytes: sat_add(s.interval_audio_bytes as nat, bytes) as u64,
        ..s
    }
}

/// Counters at the start of a stream: the session totals and the last rates
/// are kept, the interval counters start from zero.
pub open spec fn restarted(s: StreamStats) -> StreamStats {
    StreamStats { interval_video_frames: 0, interval_video_bytes: 0, interval_audio_bytes: 0, ..s }
}

/// Counters after `n` video frames of `bytes` bytes each were sent.
pub open spec fn after_video_frames(s: StreamStats, n: nat, bytes: nat) -> StreamStats
    decreases n,
{
    if n == 0 {
        s
    } else {
        after_video_frame(after_video_frames(s, (n - 1) as nat, bytes), bytes)
    }
}

/// Counters after a reporting tick `elapsed_ms` after the previous one: the
/// rates are recomputed from the interval counters, which start again from
/// zero. A tick with no elapsed time changes nothing.
pub open spec fn after_tick(s: StreamStats, elapsed_ms: nat) -> StreamStats {
    if elapsed_ms == 0 {
        s
    } else {
        StreamStats {
            video_bps: per_second(s.interval_video_bytes as nat * 8, elapsed_ms) as u64,
            audio_bps: per_second(s.interval_audio_bytes as nat * 8, elapsed_ms) as u64,
            fps_milli: per_second(s.interval_video_frames as nat * 1000, elapsed_ms) as u64,
            interval_video_frames: 0,
            interval_video_bytes: 0,
            interval_audio_bytes: 0,
            ..s
        }
    }
}

pub open spec fn snapshot_of(s: StreamStats) -> Stats {
    Stats {
        video_bps: s.video_bps,
        audio_bps: s.audio_bps,
        rtt_us: s.rtt_us,
        jitter_us: s.jitter_us,
        fps_milli: s.fps_milli,
    }
}

proof fn lemma_video_frames_counted(s: StreamStats, n: nat, bytes: nat)
    requires
        s.interval_video_frames as nat + n <= u64::MAX,
        s.interval_video_bytes as nat + n * bytes <= u64::MAX,
        s.video_frames_sent as nat + n <= u64::MAX,
    ensures
        after_video_frames(s, n, bytes).interval_video_frames == s.interval_video_frames + n,
        after_video_frames(s, n, bytes).interval_video_bytes == s.interval_video_bytes + n * bytes,
        after_video_frames(s, n, bytes).video_frames_sent == s.video_frames_sent + n,
        after_video_frames(s, n, bytes).interval_audio_bytes == s.interval_audio_bytes,
    decreases n,
{
    if n > 0 {
        let m = (n - 1) as nat;
        assert(m * bytes <= n * bytes) by (nonlinear_arith)
            requires
                m <= n,
        ;
        lemma_video_frames_counted(s, m, bytes);
        assert(m * bytes + bytes == n * bytes) by (nonlinear_arith)
            requires
                m + 1 == n,
        ;
        let p = after_video_frames(s, m, bytes);
        assert(p.interval_video_bytes as nat + bytes <= u64::MAX);
        assert(after_video_frames(s, n, bytes) == after_video_frame(p, bytes));
    } else {
        assert(n * bytes == 0) by (nonlinear_arith)
            requires
                n == 0,
        ;
    }
}

/// Rates of a synthetic feed: starting from an empty interval, sending `n`
/// video frames of `bytes` bytes each and then ticking `elapsed_ms` later
/// reports exactly `n * bytes * 8` bits and `n` frames scaled to one second,
/// rounded down. Unless it saturated, the reported bit rate is within one bit
/// per second of the exact rate.
pub proof fn lemma_feed_rates(s: StreamStats, n: nat, bytes: nat, elapsed_ms: nat)
    requires
        s.interval_video_frames == 0,
        s.interval_video_bytes == 0,
        s.video_frames_sent as nat + n <= u64::MAX,
        n * bytes <= u64::MAX,
        elapsed_ms > 0,
    ensures
        ({
            let r = after_tick(after_video_frames(s, n, bytes), elapsed_ms);
            &&& r.video_bps as nat == per_second(n * bytes * 8, elapsed_ms)
            &&& r.fps_milli as nat == per_second(n * 1000, elapsed_ms)
            &&& r.interval_video_frames == 0
            &&& r.interval_video_bytes == 0
            &&& r.video_frames_sent == s.video_frames_sent + n
            &&& n * bytes * 8 * 1000 / elapsed_ms <= u64::MAX ==> r.video_bps * elapsed_ms
                <= n * bytes * 8 * 1000 < (r.video_bps + 1) * elapsed_ms
        }),
{
    assert(n <= u64::MAX) by (nonlinear_arith)
        requires
            s.video_frames_sent as nat + n <= u64::MAX,
    ;
    lemma_video_frames_counted(s, n, bytes);
    let total = n * bytes * 8 * 1000;
    let q = total / elapsed_ms;
    assert(q * elapsed_ms <= total < (q + 1) * elapsed_ms) by (nonlinear_arith)
        requires
            elapsed_ms > 0,
            q == total / elapsed_ms,
    ;
}

fn sat_add_u64(a: u64, b: u64) -> (r: u64)
    ensures
        r as nat == sat_add(a as nat, b as nat),
{
    a.saturating_add(b)
}

fn rate_per_second(amount: u64, scale: u64, elapsed_ms: u64) -> (r: u64)
    requires
        elapsed_ms > 0,
        scale <= 1000,
    ensures
        r as nat == per_second(amount as nat * scale as nat, elapsed_ms as nat),
{
    let a = amount as u128;
    let k = scale as u128;
    assert(a * k <= 0xffff_ffff_ffff_ffffu128 * 1000) by (nonlinear_arith)
        requires
            a <= 0xffff_ffff_ffff_ffffu128,
            k <= 1000,
    ;
    let q: u128 = a * k * 1000u128 / (elapsed_ms as u128);
    if q > u64::MAX as u128 {
        u64::MAX
    } else {
        q as u64
    }
}

impl StreamStats {
    pub open spec fn new_spec() -> StreamStats {
        StreamStats {
            video_frames_sent: 0,
            audio_frames_sent: 0,
            interval_video_frames: 0,
            interval_video_bytes: 0,
            interval_audio_bytes: 0,
            video_bps: 0,
            audio_bps: 0,
            fps_milli: 0,
            rtt_us: 0,
            jitter_us: 0,
        }
    }

    /// All counters zero.
    pub fn new() -> (r: StreamStats)
        ensures
            r == StreamStats::new_spec(),
    {
        StreamStats {
            video_frames_sent: 0,
            audio_frames_sent: 0,
            interval_video_frames: 0,
            interval_video_bytes: 0,
            interval_audio_bytes: 0,
            video_bps: 0,
            audio_bps: 0,
            fps_milli: 0,
            rtt_us: 0,
            jitter_us: 0,
        }
    }

    /// Counts one sent video frame of `bytes` bytes.
    pub fn record_video_frame(&mut self, bytes: u64)
        ensures
            *final(self) == after_video_frame(*old(self), bytes as nat),
    {
        self.video_frames_sent = sat_add_u64(self.video_frames_sent, 1);
        self.interval_video_frames = sat_add_u64(self.interval_video_frames, 1);
        self.interval_video_bytes = sat_add_u64(self.interval_video_bytes, bytes);
    }

    /// Counts one sent audio frame of `bytes` bytes.
    pub fn record_audio_frame(&mut self, bytes: u64)
        ensures
            *final(self) == after_audio_frame(*old(self), bytes as nat),
    {
        self.audio_frames_sent = sat_add_u64(self.audio_frames_sent, 1);
        self.interval_audio_bytes = sat_add_u64(self.interval_audio_bytes, bytes);
    }

    /// Starts a new reporting interval for a new stream, keeping the session
    /// totals.
    pub fn restart_interval(&mut self)
        ensures
            *final(self) == restarted(*old(self)),
    {
        self.interval_video_frames = 0;
        self.interval_video_bytes = 0;
        self.interval_audio_bytes = 0;
    }

    /// Stores the transport's latest round-trip time and jitter.
    pub fn record_network(&mut self, rtt_us: u64, jitter_us: u64)
        ensures
            *final(self) == (StreamStats { rtt_us, jitter_us, ..*old(self) }),
    {
        self.rtt_us = rtt_us;
        self.jitter_us = jitter_us;
    }

    /// The reporting tick, `elapsed_ms` after the previous one: recomputes the
    /// rates from the interval counters and returns the snapshot to report.
    pub fn tick(&mut self, elapsed_ms: u64) -> (r: Stats)
        ensures
            *final(self) == after_tick(*old(self), elapsed_ms as nat),
            r == snapshot_of(*final(self)),
    {
        if elapsed_ms > 0 {
            self.video_bps = rate_per_second(self.interval_video_bytes, 8, elapsed_ms);
            self.audio_bps = rate_per_second(self.interval_audio_bytes, 8, elapsed_ms);
            self.fps_milli = rate_per_second(self.interval_video_frames, 1000, elapsed_ms);
            self.interval_video_frames = 0;
            self.interval_video_bytes = 0;
            self.interval_audio_bytes = 0;
        }
        self.snapshot()
    }

    pub fn snapshot(&self) -> (r: Stats)
        ensures
            r == snapshot_of(*self),
    {
        Stats {
            video_bps: self.video_bps,
            audio_bps: self.audio_bps,
            rtt_us: self.rtt_us,
            jitter_us: self.jitter_us,
            fps_milli: self.fps_milli,
        }
    }
}

} // verus!
