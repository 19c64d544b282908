//! Runs one stream over one socket.
//!
//! The driver holds neither the stream nor the socket. It says what is to be
//! done with them next, is told what came of it, and says what is next.

use vstd::prelude::*;

use crate::time::{Instant, SECOND};

verus! {

/// Something that is to be done with the stream, the socket or the timer.
#[derive(Debug, Clone, Copy, PartialEq, Eq, Structural)]
pub enum DriveAction {
    /// Ask the stream whether it has a datagram to send.
    PendingSend,
    /// Ask the socket whether it can send.
    PollSendReady,
    /// Try to send the datagram.
    TrySend,
    /// Take the datagram that was sent out of the stream, and ask it whether
    /// there is another one.
    ConsumeSend,
    /// Ask the socket for a datagram.
    Receive,
    /// Hand the datagram that arrived to the stream, with the time.
    HandleReceive(Instant),
    /// Ask the stream for its deadline.
    PollTimeout,
    /// Set the timer to a new deadline, and ask it whether it ran out.
    ResetSleep(Instant),
    /// Ask the timer whether it ran out.
    PollSleep,
    /// Tell the stream the time.
    HandleTimeout(Instant),
    /// Ask the stream for an event.
    PollEvent,
}

/// What came of a [`DriveAction`].
#[derive(Debug)]
pub enum DriveReply<Event, Error> {
    /// Whether there is a datagram to send.
    Pending(bool),
    /// Whether the socket can send.
    SendReady(bool),
    /// The datagram was sent, or [None] if the socket cannot send any more.
    Sent(Result<Option<()>, Error>),
    /// A datagram arrived, and what time it is, or [None] if there is none.
    Received(Result<Option<Instant>, Error>),
    /// The stream took the datagram in.
    Delivered(Result<(), Error>),
    /// The deadline of the stream.
    Deadline(Option<Instant>),
    /// The timer ran out, and what time it is, or [None] if it did not.
    Sleep(Option<Instant>),
    /// The stream was told the time.
    TimedOut(Result<(), Error>),
    /// The event of the stream, if there is one.
    Event(Option<Event>),
}

/// What comes next.
#[derive(Debug)]
pub enum DriveStep<Event, Error> {
    Do(DriveAction),
    /// There is an event, or [None] if there is nothing more to do now.
    Done(Result<Option<Event>, Error>),
}

/// What the driver waits for.
#[derive(Debug, Clone, Copy, PartialEq, Eq, Structural)]
pub enum DrivePhase {
    /// Whether there is a datagram to send.
    Writing,
    /// Whether the socket can send.
    Readying,
    /// Whether the datagram is sent.
    Sending,
    /// Whether there is another datagram to send.
    SendingMore,
    /// Whether a datagram arrived; `received` says whether one did before.
    Reading { received: bool },
    /// Whether the stream took the datagram in.
    Delivering,
    /// What the deadline is.
    Scheduling,
    /// Whether the timer ran out.
    Sleeping,
    /// Whether the stream took the time in.
    TimingOut,
    /// What the stream has to tell.
    Reporting,
}

/// Whether an answer is one to what a phase waits for.
pub open spec fn answers_drive<Event, Error>(
    phase: DrivePhase,
    reply: DriveReply<Event, Error>,
) -> bool {
    match phase {
        DrivePhase::Writing => reply is Pending,
        DrivePhase::Readying => reply is SendReady,
        DrivePhase::Sending => reply is Sent,
        DrivePhase::SendingMore => reply is Pending,
        DrivePhase::Reading { .. } => reply is Received,
        DrivePhase::Delivering => reply is Delivered,
        DrivePhase::Scheduling => reply is Deadline,
        DrivePhase::Sleeping => reply is Sleep,
        DrivePhase::TimingOut => reply is TimedOut,
        DrivePhase::Reporting => reply is Event,
    }
}

/// What a [`DriveMachine`] holds: what it waits for, and what the timer is set
/// to.
pub struct DriveView {
    pub phase: DrivePhase,
    pub old_deadline: Instant,
}

impl DriveView {
    pub open spec fn to(self, phase: DrivePhase) -> DriveView {
        DriveView { phase, ..self }
    }
}

/// What the timer is first set to: the deadline of the stream, or in a second
/// if it has none.
pub open spec fn first_deadline(deadline: Option<Instant>, now: Instant) -> Instant {
    match deadline {
        Some(deadline) => deadline,
        None => Instant { nanos: (now.nanos + SECOND) as i64 },
    }
}

/// How a driver goes on after an answer.
///
/// Everything is sent that the socket takes, then everything is read that
/// arrived. As long as something arrived or a deadline has passed, this starts
/// over; the stream is asked for an event only after that.
pub open spec fn driven<Event, Error>(view: DriveView, reply: DriveReply<Event, Error>) -> (
    DriveView,
    DriveStep<Event, Error>,
) {
    let read = (
        view.to(DrivePhase::Reading { received: false }),
        DriveStep::Do(DriveAction::Receive),
    );
    let start = (view.to(DrivePhase::Writing), DriveStep::Do(DriveAction::PendingSend));
    let report = (view.to(DrivePhase::Reporting), DriveStep::Do(DriveAction::PollEvent));
    match (view.phase, reply) {
        (DrivePhase::Writing, DriveReply::Pending(pending)) => if pending {
            (view.to(DrivePhase::Readying), DriveStep::Do(DriveAction::PollSendReady))
        } else {
            read
        },
        (DrivePhase::Readying, DriveReply::SendReady(ready)) => if ready {
            (view.to(DrivePhase::Sending), DriveStep::Do(DriveAction::TrySend))
        } else {
            read
        },
        (DrivePhase::Sending, DriveReply::Sent(result)) => match result {
            Ok(Some(())) => (
                view.to(DrivePhase::SendingMore),
                DriveStep::Do(DriveAction::ConsumeSend),
            ),
            Ok(None) => read,
            Err(error) => (view, DriveStep::Done(Err(error))),
        },
        (DrivePhase::SendingMore, DriveReply::Pending(pending)) => if pending {
            (view.to(DrivePhase::Sending), DriveStep::Do(DriveAction::TrySend))
        } else {
            read
        },
        (DrivePhase::Reading { received }, DriveReply::Received(result)) => match result {
            Ok(Some(now)) => (
                view.to(DrivePhase::Delivering),
                DriveStep::Do(DriveAction::HandleReceive(now)),
            ),
            Ok(None) => if received {
                start
            } else {
                (view.to(DrivePhase::Scheduling), DriveStep::Do(DriveAction::PollTimeout))
            },
            Err(error) => (view, DriveStep::Done(Err(error))),
        },
        (DrivePhase::Delivering, DriveReply::Delivered(result)) => match result {
            Ok(()) => (
                view.to(DrivePhase::Reading { received: true }),
                DriveStep::Do(DriveAction::Receive),
            ),
            Err(error) => (view, DriveStep::Done(Err(error))),
        },
        (DrivePhase::Scheduling, DriveReply::Deadline(deadline)) => match deadline {
            Some(deadline) => (
                DriveView { phase: DrivePhase::Sleeping, old_deadline: deadline },
                DriveStep::Do(
                    if deadline != view.old_deadline {
                        DriveAction::ResetSleep(deadline)
                    } else {
                        DriveAction::PollSleep
                    },
                ),
            ),
            None => report,
        },
        (DrivePhase::Sleeping, DriveReply::Sleep(over)) => match over {
            Some(now) => (
                view.to(DrivePhase::TimingOut),
                DriveStep::Do(DriveAction::HandleTimeout(now)),
            ),
            None => report,
        },
        (DrivePhase::TimingOut, DriveReply::TimedOut(result)) => match result {
            Ok(()) => start,
            Err(error) => (view, DriveStep::Done(Err(error))),
        },
        (DrivePhase::Reporting, DriveReply::Event(event)) => (
            view.to(DrivePhase::Writing),
            DriveStep::Done(Ok(event)),
        ),
        _ => (view, DriveStep::Done(Ok(None))),
    }
}

/// Decides what is done next with a stream and its socket.
#[derive(Debug)]
pub struct DriveMachine {
    phase: DrivePhase,
    old_deadline: Instant,
}

impl View for DriveMachine {
    type V = DriveView;

    closed spec fn view(&self) -> DriveView {
        DriveView { phase: self.phase, old_deadline: self.old_deadline }
    }
}

impl DriveMachine {
    /// A machine for a stream with a deadline.
    pub fn new(deadline: Option<Instant>, now: Instant) -> (machine: DriveMachine)
        requires
            now.can_add(SECOND as int),
        ensures
            machine@ == (DriveView {
                phase: DrivePhase::Writing,
                old_deadline: first_deadline(deadline, now),
            }),
    {
        let old_deadline = match deadline {
            Some(deadline) => deadline,
            None => now.plus(SECOND),
        };
        DriveMachine { phase: DrivePhase::Writing, old_deadline }
    }

    /// What the timer is set to.
    pub fn deadline(&self) -> (deadline: Instant)
        ensures
            deadline == self@.old_deadline,
    {
        self.old_deadline
    }

    /// Starts from the beginning, whatever was waited for.
    pub fn start(&mut self) -> (action: DriveAction)
        ensures
            action == DriveAction::PendingSend,
            final(self)@ == old(self)@.to(DrivePhase::Writing),
    {
        self.phase = DrivePhase::Writing;
        DriveAction::PendingSend
    }

    /// Goes on after an answer.
    pub fn resume<Event, Error>(&mut self, reply: DriveReply<Event, Error>) -> (step: DriveStep<
        Event,
        Error,
    >)
        requires
            answers_drive(old(self)@.phase, reply),
        ensures
            (final(self)@, step) == driven(old(self)@, reply),
    {
        match (self.phase, reply) {
            // -- Write
            (DrivePhase::Writing, DriveReply::Pending(pending)) => {
                if pending {
                    self.phase = DrivePhase::Readying;
                    DriveStep::Do(DriveAction::PollSendReady)
                } else {
                    self.read()
                }
            },
            (DrivePhase::Readying, DriveReply::SendReady(ready)) => {
                if ready {
                    self.phase = DrivePhase::Sending;
                    DriveStep::Do(DriveAction::TrySend)
                } else {
                    self.read()
                }
            },
            (DrivePhase::Sending, DriveReply::Sent(result)) => match result {
                Ok(Some(())) => {
                    self.phase = DrivePhase::SendingMore;
                    DriveStep::Do(DriveAction::ConsumeSend)
                },
                // We cannot send anymore
                Ok(None) => self.read(),
                Err(error) => DriveStep::Done(Err(error)),
            },
            (DrivePhase::SendingMore, DriveReply::Pending(pending)) => {
                if pending {
                    self.phase = DrivePhase::Sending;
                    DriveStep::Do(DriveAction::TrySend)
                } else {
                    self.read()
                }
            },
            // -- Read
            (DrivePhase::Reading { received }, DriveReply::Received(result)) => match result {
                Ok(Some(now)) => {
                    self.phase = DrivePhase::Delivering;
                    DriveStep::Do(DriveAction::HandleReceive(now))
                },
                Ok(None) => {
                    if received {
                        // If data was received, we might have a new send
                        DriveStep::Do(self.start())
                    } else {
                        self.phase = DrivePhase::Scheduling;
                        DriveStep::Do(DriveAction::PollTimeout)
                    }
                },
                Err(error) => DriveStep::Done(Err(error)),
            },
            (DrivePhase::Delivering, DriveReply::Delivered(result)) => match result {
                Ok(()) => {
                    self.phase = DrivePhase::Reading { received: true };
                    DriveStep::Do(DriveAction::Receive)
                },
                Err(error) => DriveStep::Done(Err(error)),
            },
            // -- Timeout
            (DrivePhase::Scheduling, DriveReply::Deadline(deadline)) => match deadline {
                Some(deadline) => {
                    self.phase = DrivePhase::Sleeping;
                    // Set new timeout if needed
                    if self.old_deadline != deadline {
                        self.old_deadline = deadline;
                        DriveStep::Do(DriveAction::ResetSleep(deadline))
                    } else {
                        DriveStep::Do(DriveAction::PollSleep)
                    }
                },
                None => self.report(),
            },
            (DrivePhase::Sleeping, DriveReply::Sleep(over)) => match over {
                Some(now) => {
                    self.phase = DrivePhase::TimingOut;
                    DriveStep::Do(DriveAction::HandleTimeout(now))
                },
                None => self.report(),
            },
            (DrivePhase::TimingOut, DriveReply::TimedOut(result)) => match result {
                Ok(()) => DriveStep::Do(self.start()),
                Err(error) => DriveStep::Done(Err(error)),
            },
            // -- Event
            (DrivePhase::Reporting, DriveReply::Event(event)) => {
                self.phase = DrivePhase::Writing;
                DriveStep::Done(Ok(event))
            },
            _ => DriveStep::Done(Ok(None)),
        }
    }

    fn read<Event, Error>(&mut self) -> (step: DriveStep<Event, Error>)
        ensures
            final(self)@ == old(self)@.to(DrivePhase::Reading { received: false }),
            step == DriveStep::<Event, Error>::Do(DriveAction::Receive),
    {
        self.phase = DrivePhase::Reading { received: false };
        DriveStep::Do(DriveAction::Receive)
    }

    fn report<Event, Error>(&mut self) -> (step: DriveStep<Event, Error>)
        ensures
            final(self)@ == old(self)@.to(DrivePhase::Reporting),
            step == DriveStep::<Event, Error>::Do(DriveAction::PollEvent),
    {
        self.phase = DrivePhase::Reporting;
        DriveStep::Do(DriveAction::PollEvent)
    }
}

} // verus!
