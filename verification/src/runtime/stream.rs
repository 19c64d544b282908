//! What the streams of one session report together.

use std::io;

use vstd::prelude::*;
use vstd::std_specs::convert::FromSpecImpl;

use crate::audio::depayloader::AudioFrame;
use crate::audio::model::AudioDepayloaderError;
use crate::control::host::ControlError;
use crate::control::stream::ControlStreamEvent;
use crate::video::stream::{VideoStreamError, VideoStreamEvent};

verus! {

/// The outside type `std::io::Error`, which is only passed on.
#[verifier::external_type_specification]
#[verifier::external_body]
pub struct ExIoError(io::Error);

/// Why setting up a session failed, in words.
#[derive(Debug)]
pub struct MoonlightStreamProtoError {
    pub message: String,
}

/// What went wrong with the microphone stream, in words.
#[derive(Debug)]
pub struct FoundationMicStreamError {
    pub message: String,
}

/// What went wrong with the audio stream.
#[derive(Debug)]
pub enum AudioStreamError {
    Depayloader(AudioDepayloaderError),
}

/// What the audio stream reports.
#[derive(Debug)]
pub enum AudioStreamEvent {
    OnFrame(AudioFrame),
}

/// Why a session ended.
#[derive(Debug)]
pub enum MoonlightStreamError {
    Io(io::Error),
    Setup(MoonlightStreamProtoError),
    Audio(AudioStreamError),
    Video(VideoStreamError),
    Control(ControlError),
    FoundationMic(FoundationMicStreamError),
    /// The host did not answer in time.
    ConnectionTimeout,
    /// The stream was already closed.
    Closed,
}

/// What a session reports.
#[derive(Debug)]
#[non_exhaustive]
pub enum MoonlightStreamEvent {
    Audio(AudioStreamEvent),
    Video(VideoStreamEvent),
    Control(ControlStreamEvent),
}

impl From<io::Error> for MoonlightStreamError {
    fn from(value: io::Error) -> (error: MoonlightStreamError) {
        MoonlightStreamError::Io(value)
    }
}

impl FromSpecImpl<io::Error> for MoonlightStreamError {
    open spec fn obeys_from_spec() -> bool {
        true
    }

    open spec fn from_spec(value: io::Error) -> MoonlightStreamError {
        MoonlightStreamError::Io(value)
    }
}

impl From<MoonlightStreamProtoError> for MoonlightStreamError {
    fn from(value: MoonlightStreamProtoError) -> (error: MoonlightStreamError) {
        MoonlightStreamError::Setup(value)
    }
}

impl FromSpecImpl<MoonlightStreamProtoError> for MoonlightStreamError {
    open spec fn obeys_from_spec() -> bool {
        true
    }

    open spec fn from_spec(value: MoonlightStreamProtoError) -> MoonlightStreamError {
        MoonlightStreamError::Setup(value)
    }
}

impl From<AudioStreamError> for MoonlightStreamError {
    fn from(value: AudioStreamError) -> (error: MoonlightStreamError) {
        MoonlightStreamError::Audio(value)
    }
}

impl FromSpecImpl<AudioStreamError> for MoonlightStreamError {
    open spec fn obeys_from_spec() -> bool {
        true
    }

    open spec fn from_spec(value: AudioStreamError) -> MoonlightStreamError {
        MoonlightStreamError::Audio(value)
    }
}

impl From<VideoStreamError> for MoonlightStreamError {
    fn from(value: VideoStreamError) -> (error: MoonlightStreamError) {
        MoonlightStreamError::Video(value)
    }
}

impl FromSpecImpl<VideoStreamError> for MoonlightStreamError {
    open spec fn obeys_from_spec() -> bool {
        true
    }

    open spec fn from_spec(value: VideoStreamError) -> MoonlightStreamError {
        MoonlightStreamError::Video(value)
    }
}

impl From<ControlError> for MoonlightStreamError {
    fn from(value: ControlError) -> (error: MoonlightStreamError) {
        MoonlightStreamError::Control(value)
    }
}

impl FromSpecImpl<ControlError> for MoonlightStreamError {
    open spec fn obeys_from_spec() -> bool {
        true
    }

    open spec fn from_spec(value: ControlError) -> MoonlightStreamError {
        MoonlightStreamError::Control(value)
    }
}

impl From<FoundationMicStreamError> for MoonlightStreamError {
    fn from(value: FoundationMicStreamError) -> (error: MoonlightStreamError) {
        MoonlightStreamError::FoundationMic(value)
    }
}

impl FromSpecImpl<FoundationMicStreamError> for MoonlightStreamError {
    open spec fn obeys_from_spec() -> bool {
        true
    }

    open spec fn from_spec(value: FoundationMicStreamError) -> MoonlightStreamError {
        MoonlightStreamError::FoundationMic(value)
    }
}

impl From<AudioStreamEvent> for MoonlightStreamEvent {
    fn from(value: AudioStreamEvent) -> (event: MoonlightStreamEvent) {
        MoonlightStreamEvent::Audio(value)
    }
}

impl FromSpecImpl<AudioStreamEvent> for MoonlightStreamEvent {
    open spec fn obeys_from_spec() -> bool {
        true
    }

    open spec fn from_spec(value: AudioStreamEvent) -> MoonlightStreamEvent {
        MoonlightStreamEvent::Audio(value)
    }
}

impl From<VideoStreamEvent> for MoonlightStreamEvent {
    fn from(value: VideoStreamEvent) -> (event: MoonlightStreamEvent) {
        MoonlightStreamEvent::Video(value)
    }
}

impl FromSpecImpl<VideoStreamEvent> for MoonlightStreamEvent {
    open spec fn obeys_from_spec() -> bool {
        true
    }

    open spec fn from_spec(value: VideoStreamEvent) -> MoonlightStreamEvent {
        MoonlightStreamEvent::Video(value)
    }
}

impl From<ControlStreamEvent> for MoonlightStreamEvent {
    fn from(value: ControlStreamEvent) -> (event: MoonlightStreamEvent) {
        MoonlightStreamEvent::Control(value)
    }
}

impl FromSpecImpl<ControlStreamEvent> for MoonlightStreamEvent {
    open spec fn obeys_from_spec() -> bool {
        true
    }

    open spec fn from_spec(value: ControlStreamEvent) -> MoonlightStreamEvent {
        MoonlightStreamEvent::Control(value)
    }
}

/// Whether a frame of the microphone was taken, given what sending it came to,
/// or [None] if the host has no microphone stream.
pub fn microphone_accepted(sent: Option<Result<(), FoundationMicStreamError>>) -> (accepted: bool)
    ensures
        accepted == (sent matches Some(Ok(()))),
{
    match sent {
        Some(Ok(())) => true,
        Some(Err(_)) => false,
        None => false,
    }
}

} // verus!
