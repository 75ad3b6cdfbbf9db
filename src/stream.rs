use crate::error::SlumpError;
use crate::signal::{decode_signal, parse_msg, MsgView};
use crate::webrtc::{ConnectionState, SignalAction, SignalMessage, WebRTCTransport};
use crate::{Stats, StreamEvent, StreamStats};
use vstd::prelude::*;

verus! {

/// Audio pacing period: one canonical frame every 20 ms.
pub const AUDIO_INTERVAL_MS: u64 = 20;

/// Samples drained from the ring per audio tick: one 20 ms stereo frame.
pub const AUDIO_CHUNK_SAMPLES: usize = 1920;

/// Parameters a stream is started with.
#[derive(Debug, Clone, Copy, PartialEq, Eq, Structural)]
pub struct StreamConfig {
    pub width: u32,
    pub height: u32,
    pub fps: u32,
    pub bitrate: u32,
}

/// Parameters a stream can run with: a non-empty picture and a frame rate
/// whose pacing period is at least one millisecond.
pub open spec fn valid_config(width: u32, height: u32, fps: u32) -> bool {
    width > 0 && height > 0 && 0 < fps <= 1000
}

/// Pacing period of the video timer, in milliseconds.
pub fn frame_interval_ms(fps: u32) -> (r: u64)
    requires
        0 < fps <= 1000,
    ensures
        r as int == 1000int / (fps as int),
        r >= 1,
{
    let f = fps as u64;
    assert(1000u64 / f >= 1) by (nonlinear_arith)
        requires
            0 < f <= 1000,
    ;
    1000 / f
}

/// Whether `r` is what the connection must do for the message `m`.
pub open spec fn action_matches(r: SignalAction, m: MsgView) -> bool {
    match m {
        MsgView::Offer(_) => r == SignalAction::Ignore,
        MsgView::Answer(sdp) => r is SetRemoteAnswer && r->SetRemoteAnswer_0@ == sdp,
        MsgView::Ice(c, mid, idx) => r is AddIceCandidate && r->AddIceCandidate_0.candidate@ == c
            && crate::signal::opt_view(r->AddIceCandidate_0.sdp_mid) == mid
            && r->AddIceCandidate_0.sdp_m_line_index == idx,
        MsgView::Error(msg) => r is Warn && r->Warn_0@ == msg,
    }
}

/// Rates reported for the first interval of a started stream: whatever the
/// counters held before a successful start, sending `n` video frames of
/// `bytes` bytes each and ticking `elapsed_ms` later reports exactly
/// `n * bytes * 8` bits and `n` frames scaled to one second, rounded down.
pub proof fn lemma_started_feed_rates(before: StreamStats, n: nat, bytes: nat, elapsed_ms: nat)
    requires
        before.video_frames_sent as nat + n <= u64::MAX,
        n * bytes <= u64::MAX,
        elapsed_ms > 0,
    ensures
        ({
            let r = crate::after_tick(
                crate::after_video_frames(crate::restarted(before), n, bytes),
                elapsed_ms,
            );
            &&& r.video_bps as nat == crate::per_second(n * bytes * 8, elapsed_ms)
            &&& r.fps_milli as nat == crate::per_second(n * 1000, elapsed_ms)
            &&& r.video_frames_sent == before.video_frames_sent + n
        }),
{
    crate::lemma_feed_rates(crate::restarted(before), n, bytes, elapsed_ms);
}

/// Lifecycle of one stream: `Idle` until a start succeeds, then `Running`
/// until it is stopped. While running it holds the configuration, the
/// statistics and the transport session's negotiation state; the capture
/// devices and the connection are driven by the caller.
pub struct SlumpStream {
    running: bool,
    config: Option<StreamConfig>,
    stats: StreamStats,
    transport: WebRTCTransport,
    video_quality: u32,
    audio_quality: u32,
}

impl SlumpStream {
    pub closed spec fn running(&self) -> bool {
        self.running
    }

    pub closed spec fn config(&self) -> Option<StreamConfig> {
        self.config
    }

    pub closed spec fn counters(&self) -> StreamStats {
        self.stats
    }

    pub closed spec fn session(&self) -> WebRTCTransport {
        self.transport
    }

    pub closed spec fn qualities(&self) -> (u32, u32) {
        (self.video_quality, self.audio_quality)
    }

    /// A stream that is not running.
    pub fn new() -> (r: SlumpStream)
        ensures
            !r.running(),
            r.config() is None,
            r.counters() == StreamStats::new_spec(),
            r.session().state() == ConnectionState::New,
    {
        SlumpStream {
            running: false,
            config: None,
            stats: StreamStats::new(),
            transport: WebRTCTransport::new(),
            video_quality: 0,
            audio_quality: 0,
        }
    }

    pub fn is_running(&self) -> (r: bool)
        ensures
            r == self.running(),
    {
        self.running
    }

    /// Decides, before any device is opened, what a start with these
    /// parameters does: `Ok(false)` when already running (nothing is to be
    /// opened), a configuration error for parameters no stream can run with,
    /// and `Ok(true)` when the devices and the connection are to be opened.
    pub fn check_start(&self, width: u32, height: u32, fps: u32) -> (r: Result<bool, SlumpError>)
        ensures
            self.running() ==> r == Ok::<bool, SlumpError>(false),
            !self.running() && !valid_config(width, height, fps) ==> r is Err && r->Err_0 is Config,
            !self.running() && valid_config(width, height, fps) ==> r == Ok::<bool, SlumpError>(true),
    {
        if self.running {
            Ok(false)
        } else if width == 0 || height == 0 || fps == 0 || fps > 1000 {
            Err(SlumpError::Config("width, height and fps must be positive, fps at most 1000".to_owned()))
        } else {
            Ok(true)
        }
    }

    /// Marks the stream running with `config`, once its devices and
    /// connection are open. While running, a second start returns
    /// `Ok(false)` and changes nothing; invalid parameters are a
    /// configuration error and change nothing. A start that succeeds keeps the
    /// session's accumulated counters, starts a new reporting interval and a
    /// new negotiation.
    pub fn start_stream(&mut self, config: StreamConfig) -> (r: Result<bool, SlumpError>)
        ensures
            old(self).running() ==> r == Ok::<bool, SlumpError>(false) && *final(self) == *old(self),
            !old(self).running() && !valid_config(config.width, config.height, config.fps) ==> r is Err
                && r->Err_0 is Config && *final(self) == *old(self),
            !old(self).running() && valid_config(config.width, config.height, config.fps) ==> r == Ok::<
                bool,
                SlumpError,
            >(true) && final(self).running() && final(self).config() == Some(config)
                && final(self).counters() == crate::restarted(old(self).counters()) && final(self).session().state()
                == ConnectionState::New,
    {
        match self.check_start(config.width, config.height, config.fps) {
            Ok(true) => {
                self.running = true;
                self.config = Some(config);
                self.stats.restart_interval();
                self.transport = WebRTCTransport::new();
                Ok(true)
            },
            other => other,
        }
    }

    /// Stops a running stream: returns `true`, and the stream is idle with
    /// its session closed. On a stream that is not running returns `false`
    /// and changes nothing.
    pub fn stop_stream(&mut self) -> (r: bool)
        ensures
            r == old(self).running(),
            !old(self).running() ==> *final(self) == *old(self),
            old(self).running() ==> !final(self).running() && final(self).config() is None
                && final(self).session().state() == ConnectionState::Closed
                && final(self).counters() == old(self).counters(),
    {
        if !self.running {
            return false;
        }
        self.running = false;
        self.config = None;
        self.transport.close();
        true
    }

    /// The session's counters.
    pub fn get_counters(&self) -> (r: StreamStats)
        ensures
            r == self.counters(),
    {
        self.stats
    }

    /// Current statistics snapshot.
    pub fn get_stats(&self) -> (r: Stats)
        ensures
            r == crate::snapshot_of(self.counters()),
    {
        self.stats.snapshot()
    }

    /// Takes one inbound signaling message (`None` when its text did not
    /// decode) and returns what the connection must do with it. Without a
    /// running stream there is no connection: nothing is done.
    pub fn apply_signal(&mut self, msg: Option<SignalMessage>) -> (r: SignalAction)
        ensures
            !old(self).running() ==> r == SignalAction::Ignore && *final(self) == *old(self),
            msg is None ==> r == SignalAction::Ignore && *final(self) == *old(self),
            old(self).running() && msg is Some ==> r == crate::webrtc::action_for(msg->Some_0)
                && final(self).session().state() == crate::webrtc::after_signal(
                old(self).session().state(),
            ) && final(self).running() && final(self).config() == old(self).config()
                && final(self).counters() == old(self).counters(),
    {
        if !self.running {
            return SignalAction::Ignore;
        }
        self.transport.handle_signal(msg)
    }

    /// Takes one inbound signaling text and returns what the connection must
    /// do with it. Text that is not a message is dropped: nothing changes.
    /// Without a running stream nothing is done either.
    pub fn handle_signal(&mut self, text: &str) -> (r: SignalAction)
        ensures
            parse_msg(text@) is None ==> r == SignalAction::Ignore && *final(self) == *old(self),
            !old(self).running() ==> r == SignalAction::Ignore && *final(self) == *old(self),
            old(self).running() && parse_msg(text@) is Some ==> action_matches(r, parse_msg(text@)->Some_0)
                && final(self).session().state() == crate::webrtc::after_signal(old(self).session().state())
                && final(self).running() && final(self).config() == old(self).config()
                && final(self).counters() == old(self).counters(),
    {
        let msg = decode_signal(text);
        self.apply_signal(msg)
    }

    /// Records a video frame of `bytes` bytes handed to the transport.
    pub fn on_video_frame_sent(&mut self, bytes: u64)
        ensures
            final(self).counters() == crate::after_video_frame(old(self).counters(), bytes as nat),
            final(self).running() == old(self).running(),
            final(self).config() == old(self).config(),
            final(self).session() == old(self).session(),
    {
        self.stats.record_video_frame(bytes);
    }

    /// Records an audio frame of `bytes` bytes handed to the transport.
    pub fn on_audio_frame_sent(&mut self, bytes: u64)
        ensures
            final(self).counters() == crate::after_audio_frame(old(self).counters(), bytes as nat),
            final(self).running() == old(self).running(),
            final(self).config() == old(self).config(),
            final(self).session() == old(self).session(),
    {
        self.stats.record_audio_frame(bytes);
    }

    /// The one-second reporting tick: recomputes the rates over the
    /// `elapsed_ms` since the previous tick and returns the statistics event.
    pub fn on_stats_tick(&mut self, elapsed_ms: u64) -> (r: StreamEvent)
        ensures
            final(self).counters() == crate::after_tick(old(self).counters(), elapsed_ms as nat),
            ({
                let s = crate::snapshot_of(final(self).counters());
                r == (StreamEvent::Stats {
                    video_bps: s.video_bps,
                    audio_bps: s.audio_bps,
                    rtt_us: s.rtt_us,
                    jitter_us: s.jitter_us,
                    fps_milli: s.fps_milli,
                })
            }),
            final(self).running() == old(self).running(),
            final(self).config() == old(self).config(),
            final(self).session() == old(self).session(),
    {
        let s = self.stats.tick(elapsed_ms);
        StreamEvent::Stats {
            video_bps: s.video_bps,
            audio_bps: s.audio_bps,
            rtt_us: s.rtt_us,
            jitter_us: s.jitter_us,
            fps_milli: s.fps_milli,
        }
    }

    /// Records a liveness signal from the transport at `now_ms`; returns the
    /// `Connected` event when the session just became connected.
    pub fn on_liveness(&mut self, now_ms: u64) -> (r: Option<StreamEvent>)
        ensures
            final(self).running() == old(self).running(),
            final(self).config() == old(self).config(),
            final(self).counters() == old(self).counters(),
            old(self).session().state() != ConnectionState::Closed ==> final(self).session().state()
                == ConnectionState::Connected && final(self).session().last_ping() == Some(now_ms),
            r == if old(self).session().state() == ConnectionState::Closed || old(self).session().state()
                == ConnectionState::Connected {
                None
            } else {
                Some(StreamEvent::Connected)
            },
    {
        self.transport.record_liveness(now_ms)
    }

    /// Checks liveness at `now_ms`; returns the `Disconnected` event when a
    /// connected session has had no liveness signal for five seconds.
    pub fn check_liveness(&mut self, now_ms: u64) -> (r: Option<StreamEvent>)
        ensures
            final(self).running() == old(self).running(),
            final(self).config() == old(self).config(),
            final(self).counters() == old(self).counters(),
            old(self).session().state() == ConnectionState::Connected && !crate::webrtc::is_live(
                old(self).session().last_ping(),
                now_ms,
            ) ==> final(self).session().state() == ConnectionState::Disconnected && r == Some(
                StreamEvent::Disconnected,
            ),
            !(old(self).session().state() == ConnectionState::Connected && !crate::webrtc::is_live(
                old(self).session().last_ping(),
                now_ms,
            )) ==> r is None && final(self).session() == old(self).session(),
    {
        self.transport.poll_liveness(now_ms)
    }

    /// Whether the transport saw a liveness signal within five seconds of `now_ms`.
    pub fn is_connected(&self, now_ms: u64) -> (r: bool)
        ensures
            r == crate::webrtc::is_live(self.session().last_ping(), now_ms),
    {
        self.transport.is_connected(now_ms)
    }

    /// Stores the transport's latest round-trip time and jitter.
    pub fn on_network_stats(&mut self, rtt_us: u64, jitter_us: u64)
        ensures
            final(self).counters() == (StreamStats { rtt_us, jitter_us, ..old(self).counters() }),
            final(self).running() == old(self).running(),
            final(self).config() == old(self).config(),
            final(self).session() == old(self).session(),
    {
        self.stats.record_network(rtt_us, jitter_us);
    }

    /// Records the requested video quality level.
    pub fn set_video_quality(&mut self, quality: u32)
        ensures
            final(self).qualities() == (quality, old(self).qualities().1),
            final(self).running() == old(self).running(),
            final(self).config() == old(self).config(),
            final(self).counters() == old(self).counters(),
            final(self).session() == old(self).session(),
    {
        self.video_quality = quality;
    }

    /// Records the requested audio quality level.
    pub fn set_audio_quality(&mut self, quality: u32)
        ensures
            final(self).qualities() == (old(self).qualities().0, quality),
            final(self).running() == old(self).running(),
            final(self).config() == old(self).config(),
            final(self).counters() == old(self).counters(),
            final(self).session() == old(self).session(),
    {
        self.audio_quality = quality;
    }
}

} // verus!
