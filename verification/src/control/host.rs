//! What the control stream and the transport under it have to say to each
//! other.
//!
//! The stream does not hold the transport. Whenever it needs something of it,
//! it says what, and goes on once it is told the answer.

use vstd::prelude::*;

use crate::audio::crypto::{AesKey, CryptoError};
use crate::control::packet::ControlPacket;
use crate::net::SocketAddr;
use crate::time::Instant;
use crate::version::ServerVersion;

verus! {

/// A host that the transport has, or had, a connection to.
#[derive(Debug, Clone, Copy, PartialEq, Eq, Structural)]
pub struct ControlPeerId(pub u64);

/// How control packets are encrypted.
#[derive(Debug, Clone, Copy, PartialEq, Eq, Structural)]
pub enum ControlEncryptionMethod {
    Nvidia,
    Sunshine,
}

/// Why the transport could not send.
#[derive(Debug, Clone, Copy, PartialEq, Eq, Structural)]
pub enum PeerSendError {
    NotConnected,
    InvalidChannel,
    PacketTooLarge,
    FragmentsExceeded,
    FailedToQueue,
}

/// What went wrong in the transport.
#[derive(Debug, Clone, Copy, PartialEq, Eq, Structural)]
pub enum EnetError {
    PeerSendError(PeerSendError),
    NoAvailablePeers,
    BadParameter,
}

#[derive(Debug, Clone, Copy, PartialEq, Eq, Structural)]
pub enum ControlError {
    VersionNotSupported(ServerVersion),
    PacketNotSupported,
    ApolloPermissionDenied,
    NotConnected,
    Crypto(CryptoError),
    Enet(EnetError),
}

impl ControlError {
    /// Whether an error says no more than that there is no connection.
    pub open spec fn says_not_connected(self) -> bool {
        self == ControlError::NotConnected || self == ControlError::Enet(
            EnetError::PeerSendError(PeerSendError::NotConnected),
        )
    }

    /// Whether an error says no more than that there is no connection.
    pub fn is_not_connected(&self) -> (not_connected: bool)
        ensures
            not_connected == self.says_not_connected(),
    {
        match self {
            ControlError::NotConnected => true,
            ControlError::Enet(EnetError::PeerSendError(PeerSendError::NotConnected)) => true,
            _ => false,
        }
    }
}

/// How a connection is to be opened. The client has one peer.
#[derive(Debug, Clone, Copy)]
pub struct ConnectRequest {
    pub addr: SocketAddr,
    /// The version of the host, which decides how packets are laid out.
    pub server_version: ServerVersion,
    pub sunshine_connect_data: Option<u32>,
    pub encryption: Option<(ControlEncryptionMethod, AesKey)>,
}

/// Something that the transport noticed.
#[derive(Debug)]
#[allow(inconsistent_fields)]
pub enum ControlHostEvent {
    Connected {
        id: ControlPeerId,
        sunshine_connect_data: u32,
    },
    Receive {
        id: ControlPeerId,
        channel_id: u8,
        packet: ControlPacket,
    },
    Disconnected {
        id: ControlPeerId,
    },
}

/// Something that the transport is to do.
#[derive(Debug)]
#[allow(inconsistent_fields)]
pub enum HostRequest {
    /// Take in the datagram that arrived.
    HandleReceive {
        now: Instant,
    },
    /// Do what is due at this time.
    HandleTimeout {
        now: Instant,
    },
    /// Tell the next thing that was noticed.
    PollEvent,
    /// Send a packet, over the channel that a host of this version has for it.
    Send {
        peer: ControlPeerId,
        server_version: ServerVersion,
        packet: ControlPacket,
    },
    /// Close a connection once everything is sent.
    Disconnect {
        peer: ControlPeerId,
        data: u32,
    },
    /// Close a connection at once.
    DisconnectNow {
        peer: ControlPeerId,
        data: u32,
    },
    /// Tell whether the last peer is gone.
    CanDiscard,
}

/// The answer to a [`HostRequest`].
#[derive(Debug)]
pub enum HostReply {
    /// To a request to take in a datagram or the time.
    Handled(Result<(), ControlError>),
    /// To a request for what was noticed.
    Event(Option<ControlHostEvent>),
    /// To a request to send.
    Sent(Result<(), ControlError>),
    /// To a request to close a connection.
    Disconnected(Result<(), ControlError>),
    /// To the question whether the last peer is gone.
    CanDiscard(bool),
}

} // verus!
