use crate::StreamEvent;
use vstd::prelude::*;

verus! {

/// A remote ICE candidate: the candidate line, the media-description
/// identifier and the m-line index, the last two optional.
#[derive(Debug, Clone, PartialEq, Eq)]
pub struct IceCandidate {
    pub candidate: String,
    pub sdp_mid: Option<String>,
    pub sdp_m_line_index: Option<u16>,
}

/// A message of the signaling channel.
#[derive(Debug, Clone, PartialEq, Eq)]
pub enum SignalMessage {
    Offer { sdp: String },
    Answer { sdp: String },
    Ice { candidate: IceCandidate },
    Error(String),
}

/// What the connection must do for one inbound signaling message.
#[derive(Debug, Clone, PartialEq, Eq)]
pub enum SignalAction {
    /// Apply the session description as the remote answer.
    SetRemoteAnswer(String),
    /// Add the candidate to the connection.
    AddIceCandidate(IceCandidate),
    /// Tell the host; the connection is not touched.
    Warn(String),
    /// Nothing to do: an offer, which this side never expects, or text that
    /// did not decode.
    Ignore,
}

/// Connection lifecycle.
#[derive(Debug, Clone, Copy, PartialEq, Eq, Structural)]
pub enum ConnectionState {
    New,
    Negotiating,
    Connected,
    Disconnected,
    Closed,
}

/// How a server's credential is to be used.
#[derive(Debug, Clone, Copy, PartialEq, Eq, Structural)]
pub enum CredentialKind {
    Unspecified,
    Password,
}

/// One entry of the connection's ICE server list.
#[derive(Debug, Clone, PartialEq, Eq)]
pub struct IceServer {
    pub urls: Vec<String>,
    pub username: String,
    pub credential: String,
    pub credential_type: CredentialKind,
}

/// Pinned codec parameters of one media channel.
#[derive(Debug, Clone, PartialEq, Eq)]
pub struct CodecParams {
    pub mime_type: String,
    pub clock_rate: u32,
    pub channels: u16,
    pub sdp_fmtp_line: String,
    pub payload_type: u8,
}

/// Latest sampled transport statistics (times in microseconds, rates in bits
/// per second).
#[derive(Debug, Clone, Copy, PartialEq, Eq, Structural)]
pub struct Stats {
    pub timestamp_ms: u64,
    pub bytes_sent: u64,
    pub packets_sent: u64,
    pub rtt_us: u64,
    pub jitter_us: u64,
    pub bitrate: u64,
}

/// Liveness window: a connection with no liveness signal for this long is
/// not connected.
pub const LIVENESS_WINDOW_MS: u64 = 5000;

/// The ICE server list entry for a STUN url: the url alone, no credential.
pub open spec fn stun_entry(url: String, s: IceServer) -> bool {
    &&& s.urls@.len() == 1
    &&& s.urls@[0]@ == url@
    &&& s.username@ == Seq::<char>::empty()
    &&& s.credential@ == Seq::<char>::empty()
    &&& s.credential_type == CredentialKind::Unspecified
}

/// The text of an optional string, empty when absent.
pub open spec fn text_or_empty(o: Option<String>) -> Seq<char> {
    match o {
        Some(s) => s@,
        None => Seq::<char>::empty(),
    }
}

/// The ICE server list entry for a TURN server given as url, username and
/// credential: a password credential, absent parts empty.
pub open spec fn turn_entry(t: (String, Option<String>, Option<String>), s: IceServer) -> bool {
    &&& s.urls@.len() == 1
    &&& s.urls@[0]@ == t.0@
    &&& s.username@ == text_or_empty(t.1)
    &&& s.credential@ == text_or_empty(t.2)
    &&& s.credential_type == CredentialKind::Password
}

fn string_or_empty(o: Option<String>) -> (r: String)
    ensures
        r@ == text_or_empty(o),
{
    match o {
        Some(s) => s,
        None => String::new(),
    }
}

/// The connection's ICE server list: one entry per STUN url, in order, then
/// one per TURN server, in order.
pub fn ice_servers(
    stun_servers: Vec<String>,
    turn_servers: Vec<(String, Option<String>, Option<String>)>,
) -> (r: Vec<IceServer>)
    ensures
        r@.len() == stun_servers@.len() + turn_servers@.len(),
        forall|i: int| 0 <= i < stun_servers@.len() ==> stun_entry(stun_servers@[i], #[trigger] r@[i]),
        forall|i: int|
            0 <= i < turn_servers@.len() ==> turn_entry(
                turn_servers@[i],
                #[trigger] r@[stun_servers@.len() + i],
            ),
{
    let mut out: Vec<IceServer> = Vec::new();
    let mut i: usize = 0;
    while i < stun_servers.len()
        invariant
            i <= stun_servers@.len(),
            out@.len() == i,
            forall|j: int| 0 <= j < i ==> stun_entry(stun_servers@[j], #[trigger] out@[j]),
        decreases stun_servers@.len() - i,
    {
        let url = stun_servers[i].clone();
        let mut urls: Vec<String> = Vec::new();
        urls.push(url);
        out.push(
            IceServer {
                urls,
                username: String::new(),
                credential: String::new(),
                credential_type: CredentialKind::Unspecified,
            },
        );
        i = i + 1;
    }
    let n = stun_servers.len();
    let mut k: usize = 0;
    while k < turn_servers.len()
        invariant
            n == stun_servers@.len(),
            k <= turn_servers@.len(),
            out@.len() == n + k,
            forall|j: int| 0 <= j < n ==> stun_entry(stun_servers@[j], #[trigger] out@[j]),
            forall|j: int| 0 <= j < k ==> turn_entry(turn_servers@[j], #[trigger] out@[n + j]),
        decreases turn_servers@.len() - k,
    {
        let t = &turn_servers[k];
        let url = t.0.clone();
        let username = string_or_empty(t.1.clone());
        let credential = string_or_empty(t.2.clone());
        let mut urls: Vec<String> = Vec::new();
        urls.push(url);
        out.push(IceServer { urls, username, credential, credential_type: CredentialKind::Password });
        proof {
            assert(out@[n + k as int] == out@.last());
        }
        k = k + 1;
    }
    out
}

/// Parameters of the outbound video channel: VP8 at a 90 kHz clock.
pub fn video_codec() -> (r: CodecParams)
    ensures
        r.mime_type@ == "video/VP8"@,
        r.clock_rate == 90000,
        r.channels == 0,
        r.sdp_fmtp_line@ == "profile-level-id=42e01f;level-asymmetry-allowed=1"@,
        r.payload_type == 96,
{
    CodecParams {
        mime_type: "video/VP8".to_owned(),
        clock_rate: 90000,
        channels: 0,
        sdp_fmtp_line: "profile-level-id=42e01f;level-asymmetry-allowed=1".to_owned(),
        payload_type: 96,
    }
}

/// Parameters of the outbound audio channel: stereo Opus at 48 kHz.
pub fn audio_codec() -> (r: CodecParams)
    ensures
        r.mime_type@ == "audio/opus"@,
        r.clock_rate == 48000,
        r.channels == 2,
        r.sdp_fmtp_line@ == "minptime=10;useinbandfec=1"@,
        r.payload_type == 111,
{
    CodecParams {
        mime_type: "audio/opus".to_owned(),
        clock_rate: 48000,
        channels: 2,
        sdp_fmtp_line: "minptime=10;useinbandfec=1".to_owned(),
        payload_type: 111,
    }
}

/// Whether a liveness signal last seen at `ping` still counts at `now_ms`.
pub open spec fn is_live(ping: Option<u64>, now_ms: u64) -> bool {
    match ping {
        Some(p) => now_ms < p + LIVENESS_WINDOW_MS,
        None => false,
    }
}

/// State after a signaling message is sent or received: a new connection
/// starts negotiating; any other state stays.
pub open spec fn after_signal(s: ConnectionState) -> ConnectionState {
    if s == ConnectionState::New {
        ConnectionState::Negotiating
    } else {
        s
    }
}

/// What an inbound message asks of the connection.
pub open spec fn action_for(m: SignalMessage) -> SignalAction {
    match m {
        SignalMessage::Answer { sdp } => SignalAction::SetRemoteAnswer(sdp),
        SignalMessage::Ice { candidate } => SignalAction::AddIceCandidate(candidate),
        SignalMessage::Error(message) => SignalAction::Warn(message),
        SignalMessage::Offer { .. } => SignalAction::Ignore,
    }
}

/// Negotiation and liveness state of the transport session, with the latest
/// sampled statistics. The peer connection itself is driven by the caller
/// according to the actions this state returns.
pub struct WebRTCTransport {
    state: ConnectionState,
    last_ping_ms: Option<u64>,
    last_stats: Option<Stats>,
}

impl WebRTCTransport {
    pub closed spec fn state(&self) -> ConnectionState {
        self.state
    }

    pub closed spec fn last_ping(&self) -> Option<u64> {
        self.last_ping_ms
    }

    pub closed spec fn stats(&self) -> Option<Stats> {
        self.last_stats
    }

    /// A fresh session: `New`, no liveness signal, no statistics yet.
    pub fn new() -> (r: WebRTCTransport)
        ensures
            r.state() == ConnectionState::New,
            r.last_ping() is None,
            r.stats() is None,
    {
        WebRTCTransport { state: ConnectionState::New, last_ping_ms: None, last_stats: None }
    }

    pub fn connection_state(&self) -> (r: ConnectionState)
        ensures
            r == self.state(),
    {
        self.state
    }

    /// True iff a liveness signal was seen less than five seconds before `now_ms`.
    pub fn is_connected(&self, now_ms: u64) -> (r: bool)
        ensures
            r == is_live(self.last_ping(), now_ms),
    {
        match self.last_ping_ms {
            Some(p) => now_ms < p || now_ms - p < LIVENESS_WINDOW_MS,
            None => false,
        }
    }

    /// Latest sampled statistics, if any.
    pub fn get_stats(&self) -> (r: Option<Stats>)
        ensures
            r == self.stats(),
    {
        self.last_stats
    }

    /// Stores a new statistics sample.
    pub fn record_stats(&mut self, stats: Stats)
        ensures
            final(self).stats() == Some(stats),
            final(self).state() == old(self).state(),
            final(self).last_ping() == old(self).last_ping(),
    {
        self.last_stats = Some(stats);
    }

    /// Notes that a signaling message (the local offer) was sent.
    pub fn note_signal_sent(&mut self)
        ensures
            final(self).state() == after_signal(old(self).state()),
            final(self).last_ping() == old(self).last_ping(),
            final(self).stats() == old(self).stats(),
    {
        if self.state == ConnectionState::New {
            self.state = ConnectionState::Negotiating;
        }
    }

    /// Takes one inbound signaling message, `None` when its text did not
    /// decode. Undecodable text is dropped and changes nothing; a message
    /// moves a new connection to `Negotiating` and yields what the connection
    /// must do with it.
    pub fn handle_signal(&mut self, msg: Option<SignalMessage>) -> (r: SignalAction)
        ensures
            msg is None ==> r == SignalAction::Ignore && *final(self) == *old(self),
            msg is Some ==> r == action_for(msg->Some_0) && final(self).state() == after_signal(
                old(self).state(),
            ),
            final(self).last_ping() == old(self).last_ping(),
            final(self).stats() == old(self).stats(),
    {
        match msg {
            None => SignalAction::Ignore,
            Some(m) => {
                self.note_signal_sent();
                match m {
                    SignalMessage::Answer { sdp } => SignalAction::SetRemoteAnswer(sdp),
                    SignalMessage::Ice { candidate } => SignalAction::AddIceCandidate(candidate),
                    SignalMessage::Error(message) => SignalAction::Warn(message),
                    SignalMessage::Offer { .. } => SignalAction::Ignore,
                }
            },
        }
    }

    /// Records a liveness signal at `now_ms`. Unless the session is closed it
    /// becomes `Connected`, and the `Connected` event is returned when it was
    /// not connected before.
    pub fn record_liveness(&mut self, now_ms: u64) -> (r: Option<StreamEvent>)
        ensures
            old(self).state() == ConnectionState::Closed ==> r is None && *final(self) == *old(self),
            old(self).state() != ConnectionState::Closed ==> final(self).state()
                == ConnectionState::Connected && final(self).last_ping() == Some(now_ms) && (r
                == if old(self).state() == ConnectionState::Connected {
                None
            } else {
                Some(StreamEvent::Connected)
            }),
            final(self).stats() == old(self).stats(),
    {
        if self.state == ConnectionState::Closed {
            return None;
        }
        let was = self.state;
        self.state = ConnectionState::Connected;
        self.last_ping_ms = Some(now_ms);
        if was == ConnectionState::Connected {
            None
        } else {
            Some(StreamEvent::Connected)
        }
    }

    /// Checks liveness at `now_ms`: a connected session whose last signal is
    /// five seconds old or more becomes `Disconnected`, and the
    /// `Disconnected` event is returned. Otherwise nothing changes.
    pub fn poll_liveness(&mut self, now_ms: u64) -> (r: Option<StreamEvent>)
        ensures
            old(self).state() == ConnectionState::Connected && !is_live(old(self).last_ping(), now_ms)
                ==> final(self).state() == ConnectionState::Disconnected && r == Some(
                StreamEvent::Disconnected,
            ) && final(self).last_ping() == old(self).last_ping() && final(self).stats() == old(
                self,
            ).stats(),
            !(old(self).state() == ConnectionState::Connected && !is_live(old(self).last_ping(), now_ms))
                ==> r is None && *final(self) == *old(self),
    {
        if self.state == ConnectionState::Connected && !self.is_connected(now_ms) {
            self.state = ConnectionState::Disconnected;
            Some(StreamEvent::Disconnected)
        } else {
            None
        }
    }

    /// Closes the session for good.
    pub fn close(&mut self)
        ensures
            final(self).state() == ConnectionState::Closed,
            final(self).last_ping() == old(self).last_ping(),
            final(self).stats() == old(self).stats(),
    {
        self.state = ConnectionState::Closed;
    }
}

} // verus!
