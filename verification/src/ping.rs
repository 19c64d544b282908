//! Tells a host where to send a media stream.
//!
//! A host sends a stream to wherever pings for it come from. Pings are repeated
//! until the first datagram of the stream arrives.

use vstd::prelude::*;

use crate::bytes::be_bytes;
use crate::time::Instant;

verus! {

/// The time between two pings.
pub const PING_INTERVAL: u64 = 500_000_000;

/// What a Sunshine host wants a ping to carry.
#[derive(Debug, Clone, Copy)]
pub struct SunshinePing {
    pub payload: [u8; 16],
}

/// How a [`PingSender`] is set up.
#[derive(Debug, Clone, Copy)]
pub struct PingSenderConfig {
    /// What pings carry; the same four letters for every host if [None].
    pub sunshine_ping: Option<SunshinePing>,
}

/// Whether pings are still needed.
#[derive(Debug, Clone, Copy, PartialEq, Eq, Structural)]
pub enum PingSenderState {
    Pinging,
    Finished,
}

/// What a [`PingSender`] holds.
#[verifier::ext_equal]
pub struct PingView {
    pub sunshine_ping: Option<SunshinePing>,
    pub state: PingSenderState,
    pub next_ping: Instant,
    /// How many pings have been made.
    pub count: u32,
    /// The ping that has not been sent yet.
    pub pending: Option<Seq<u8>>,
}

/// The bytes of the `count`th ping.
pub open spec fn ping_bytes(sunshine_ping: Option<SunshinePing>, count: u32) -> Seq<u8> {
    match sunshine_ping {
        Some(ping) => ping.payload@ + be_bytes(count),
        None => seq![0x50, 0x49, 0x4E, 0x47],
    }
}

impl PingView {
    /// What a sender holds after it was told the time: a new ping if one is
    /// due.
    pub open spec fn at(self, now: Instant) -> PingView {
        if self.state == PingSenderState::Finished || now.nanos < self.next_ping.nanos {
            self
        } else {
            let count = self.count.wrapping_add(1);
            PingView {
                next_ping: Instant { nanos: (now.nanos + PING_INTERVAL) as i64 },
                count,
                pending: Some(ping_bytes(self.sunshine_ping, count)),
                ..self
            }
        }
    }

    /// When a sender next has to be told the time.
    pub open spec fn deadline(self) -> Option<Instant> {
        match self.state {
            PingSenderState::Pinging => Some(self.next_ping),
            PingSenderState::Finished => None,
        }
    }
}

/// Makes pings until it is told that they are no longer needed.
#[derive(Debug)]
pub struct PingSender {
    sunshine_ping: Option<SunshinePing>,
    state: PingSenderState,
    next_ping: Instant,
    count: u32,
    pending: Option<Vec<u8>>,
}

impl View for PingSender {
    type V = PingView;

    closed spec fn view(&self) -> PingView {
        PingView {
            sunshine_ping: self.sunshine_ping,
            state: self.state,
            next_ping: self.next_ping,
            count: self.count,
            pending: match self.pending {
                Some(bytes) => Some(bytes@),
                None => None,
            },
        }
    }
}

impl PingSender {
    /// A sender whose first ping is due at once.
    pub fn new(now: Instant, config: PingSenderConfig) -> (sender: PingSender)
        ensures
            sender@ == (PingView {
                sunshine_ping: config.sunshine_ping,
                state: PingSenderState::Pinging,
                next_ping: now,
                count: 0,
                pending: None,
            }),
    {
        PingSender {
            sunshine_ping: config.sunshine_ping,
            state: PingSenderState::Pinging,
            next_ping: now,
            count: 0,
            pending: None,
        }
    }

    /// Whether pings are still needed.
    pub fn state(&self) -> (state: PingSenderState)
        ensures
            state == self@.state,
    {
        self.state
    }

    /// Stops making pings.
    pub fn set_finished(&mut self)
        ensures
            final(self)@ == (PingView { state: PingSenderState::Finished, ..old(self)@ }),
    {
        self.state = PingSenderState::Finished;
    }

    /// Tells the time.
    pub fn handle_timeout(&mut self, now: Instant)
        requires
            now.can_add(PING_INTERVAL as int),
        ensures
            final(self)@ == old(self)@.at(now),
    {
        if self.state == PingSenderState::Finished || now.is_before(self.next_ping) {
            return;
        }
        self.count = self.count.wrapping_add(1);
        self.next_ping = now.plus(PING_INTERVAL);
        let mut bytes: Vec<u8> = Vec::new();
        match self.sunshine_ping {
            Some(ping) => {
                let mut i: usize = 0;
                while i < 16
                    invariant
                        i <= 16,
                        bytes@ == ping.payload@.take(i as int),
                    decreases 16 - i,
                {
                    bytes.push(ping.payload[i]);
                    assert(bytes@ =~= ping.payload@.take(i + 1));
                    i = i + 1;
                }
                bytes.push((self.count / 0x100_0000) as u8);
                bytes.push((self.count / 0x1_0000 % 0x100) as u8);
                bytes.push((self.count / 0x100 % 0x100) as u8);
                bytes.push((self.count % 0x100) as u8);
            },
            None => {
                bytes.push(0x50);
                bytes.push(0x49);
                bytes.push(0x4E);
                bytes.push(0x47);
            },
        }
        assert(bytes@ =~= ping_bytes(self.sunshine_ping, self.count));
        self.pending = Some(bytes);
    }

    /// When the sender next has to be told the time.
    pub fn poll_timeout(&self) -> (deadline: Option<Instant>)
        ensures
            deadline == self@.deadline(),
    {
        match self.state {
            PingSenderState::Pinging => Some(self.next_ping),
            PingSenderState::Finished => None,
        }
    }

    /// The ping that is to be sent, if there is one.
    pub fn pending_send(&self) -> (bytes: Option<&Vec<u8>>)
        ensures
            match bytes {
                Some(bytes) => self@.pending == Some(bytes@),
                None => self@.pending is None,
            },
    {
        match &self.pending {
            Some(bytes) => Some(bytes),
            None => None,
        }
    }

    /// Forgets the ping that was sent.
    pub fn consume_send(&mut self)
        ensures
            final(self)@ == (PingView { pending: None, ..old(self)@ }),
    {
        self.pending = None;
    }
}

} // verus!
