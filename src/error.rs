use vstd::prelude::*;

verus! {

/// Errors of the capture and transport pipeline, each with a message.
#[derive(Debug, PartialEq, Eq)]
pub enum SlumpError {
    Ffmpeg(String),
    Webrtc(String),
    Audio(String),
    Video(String),
    Network(String),
    Init(String),
    NotImplemented(String),
    /// Start parameters that no stream can run with.
    Config(String),
}

} // verus!
