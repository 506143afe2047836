//! The pull side of input delivery: messages decoded by the transport are
//! pushed into a channel, and a polling wrapper hands them out on demand —
//! blocking, non-blocking, or up to a deadline.

use vstd::prelude::*;

use crate::canvas::CanvasMessage;

verus! {

#[verifier::external_type_specification]
#[verifier::external_body]
#[verifier::reject_recursive_types(T)]
pub struct ExReceiver<T>(std::sync::mpsc::Receiver<T>);

#[verifier::external_type_specification]
#[verifier::external_body]
#[verifier::reject_recursive_types(T)]
pub struct ExSender<T>(std::sync::mpsc::Sender<T>);

#[verifier::external_type_specification]
#[verifier::external_body]
pub struct ExInstant(std::time::Instant);

/// What one non-blocking or deadline-bounded poll of the channel yielded.
pub enum PollOutcome<M> {
    /// A message was pending.
    Message(M),
    /// Nothing was pending within the allowed time.
    Empty,
    /// Every sender is gone; nothing will ever arrive again.
    Disconnected,
}

/// Open an unbounded channel from the transport to a poller.
///
/// Relies on the standard library's channel constructor; what the channel
/// will carry depends on the threads that use it, so nothing further can
/// be promised here.
#[verifier::external_body]
pub fn message_channel<M>() -> (std::sync::mpsc::Sender<M>, std::sync::mpsc::Receiver<M>) {
    std::sync::mpsc::channel()
}

/// Push one message into the channel.
///
/// Relies on the standard library's channel send, which fails exactly when
/// the receiving end is gone.
#[verifier::external_body]
pub fn send_message<M>(sender: &std::sync::mpsc::Sender<M>, message: M) -> bool {
    sender.send(message).is_ok()
}

/// Wait for a message; nothing means every sender is gone.
///
/// Relies on the standard library's blocking channel receive.
#[verifier::external_body]
fn recv_message<M>(receiver: &std::sync::mpsc::Receiver<M>) -> Option<M> {
    match receiver.recv() {
        Ok(message) => Some(message),
        Err(_) => None,
    }
}

/// Check for a pending message without blocking.
///
/// Relies on the standard library's non-blocking channel receive; its two
/// error cases are told apart and passed through unchanged.
#[verifier::external_body]
fn try_recv_message<M>(receiver: &std::sync::mpsc::Receiver<M>) -> PollOutcome<M> {
    match receiver.try_recv() {
        Ok(message) => PollOutcome::Message(message),
        Err(std::sync::mpsc::TryRecvError::Empty) => PollOutcome::Empty,
        Err(std::sync::mpsc::TryRecvError::Disconnected) => PollOutcome::Disconnected,
    }
}

/// Wait up to `timeout` for a message.
///
/// Relies on the standard library's deadline-bounded channel receive; its
/// two error cases are told apart and passed through unchanged.
#[verifier::external_body]
fn recv_timeout_message<M>(
    receiver: &std::sync::mpsc::Receiver<M>,
    timeout: std::time::Duration,
) -> PollOutcome<M> {
    match receiver.recv_timeout(timeout) {
        Ok(message) => PollOutcome::Message(message),
        Err(std::sync::mpsc::RecvTimeoutError::Timeout) => PollOutcome::Empty,
        Err(std::sync::mpsc::RecvTimeoutError::Disconnected) => PollOutcome::Disconnected,
    }
}

/// The present moment.
///
/// Relies on the standard library's monotonic clock; the value depends on
/// when the call runs, so nothing can be promised of it.
#[verifier::external_body]
fn instant_now() -> std::time::Instant {
    std::time::Instant::now()
}

/// A moment later by `duration`, when that stays representable.
///
/// Relies on the standard library's checked instant arithmetic.
#[verifier::external_body]
fn instant_checked_add(
    instant: &std::time::Instant,
    duration: &std::time::Duration,
) -> Option<std::time::Instant> {
    instant.checked_add(*duration)
}

/// How far `later` lies past `earlier`; zero when it does not.
///
/// Relies on the standard library's saturating instant difference.
#[verifier::external_body]
fn time_remaining_until(
    later: &std::time::Instant,
    earlier: &std::time::Instant,
) -> std::time::Duration {
    later.saturating_duration_since(*earlier)
}

/// Whether a duration spans no time at all.
///
/// Relies on the standard library's duration query.
#[verifier::external_body]
fn duration_is_zero(duration: &std::time::Duration) -> bool {
    duration.is_zero()
}

/// A duration of the given milliseconds.
///
/// Relies on the standard library's duration constructor.
#[verifier::external_body]
pub fn duration_from_millis(millis: u64) -> std::time::Duration {
    std::time::Duration::from_millis(millis)
}

/// How many messages a drain pass hands back at most in one call.
pub const DRAIN_LIMIT: u32 = 1000000;

/// A deadline-bounded iteration over arriving messages: each step waits at
/// most for the wall-clock deadline, and never blocks past it.
#[verifier::reject_recursive_types(M)]
pub struct IterFor<'a, M> {
    receiver: &'a std::sync::mpsc::Receiver<M>,
    deadline: std::time::Instant,
}

impl<'a, M> IterFor<'a, M> {
    /// The next message, unless the deadline has passed, the wait ran
    /// into it, or the channel closed.
    pub fn next(&mut self) -> Option<M> {
        let now = instant_now();
        let remaining = time_remaining_until(&self.deadline, &now);
        if duration_is_zero(&remaining) {
            return None;
        }
        match recv_timeout_message(self.receiver, remaining) {
            PollOutcome::Message(message) => Some(message),
            PollOutcome::Empty => None,
            PollOutcome::Disconnected => None,
        }
    }
}

/// Polling access to a stream of decoded messages: the consumption model
/// shared by every channel-backed input handler.
pub trait MsgPollingWrapper: Sized {
    type Message;

    /// The channel end the messages arrive on.
    fn receiver(&self) -> &std::sync::mpsc::Receiver<Self::Message>;

    /// Wait for a message; nothing means the connection is gone.
    fn recv(&self) -> Option<Self::Message> {
        recv_message(self.receiver())
    }

    /// A pending message, if there is one right now.
    fn try_recv(&self) -> Option<Self::Message> {
        match try_recv_message(self.receiver()) {
            PollOutcome::Message(message) => Some(message),
            PollOutcome::Empty => None,
            PollOutcome::Disconnected => None,
        }
    }

    /// Wait up to `timeout` for a message.
    fn recv_timeout(&self, timeout: std::time::Duration) -> Option<Self::Message> {
        match recv_timeout_message(self.receiver(), timeout) {
            PollOutcome::Message(message) => Some(message),
            PollOutcome::Empty => None,
            PollOutcome::Disconnected => None,
        }
    }

    /// The currently pending messages, without blocking.
    fn iter_pending(&self) -> Vec<Self::Message> {
        let mut messages: Vec<Self::Message> = Vec::new();
        let mut guard: u32 = 0;
        while guard < DRAIN_LIMIT
            decreases DRAIN_LIMIT - guard,
        {
            match try_recv_message(self.receiver()) {
                PollOutcome::Message(message) => {
                    messages.push(message);
                },
                PollOutcome::Empty => {
                    return messages;
                },
                PollOutcome::Disconnected => {
                    return messages;
                },
            }
            guard = guard + 1;
        }
        messages
    }

    /// Iterate over the messages that arrive until the wall-clock
    /// deadline `duration` from now passes; the iteration never blocks
    /// past the deadline.
    fn iter_for(&self, duration: std::time::Duration) -> IterFor<Self::Message> {
        let now = instant_now();
        let deadline = match instant_checked_add(&now, &duration) {
            Some(deadline) => deadline,
            // an unrepresentable deadline degenerates to "now": the
            // iteration yields nothing rather than wrapping around
            None => now,
        };
        IterFor { receiver: self.receiver(), deadline }
    }

    /// Iterate over the messages of the next `millis` milliseconds.
    fn iter_for_millis(&self, millis: u64) -> IterFor<Self::Message> {
        self.iter_for(duration_from_millis(millis))
    }

    /// Discard every pending message and report how many there were.
    /// Useful right after connecting: input pressed while disconnected
    /// queues up in the device and arrives all at once.
    fn drain(&self) -> usize {
        let drained = self.iter_pending();
        drained.len()
    }
}

/// A channel-backed poller for device-independent canvas messages.
pub struct CanvasPoller {
    receiver: std::sync::mpsc::Receiver<CanvasMessage>,
}

impl CanvasPoller {
    /// Wrap the receiving end of a canvas message channel.
    pub fn new(receiver: std::sync::mpsc::Receiver<CanvasMessage>) -> CanvasPoller {
        CanvasPoller { receiver }
    }
}

impl MsgPollingWrapper for CanvasPoller {
    type Message = CanvasMessage;

    fn receiver(&self) -> &std::sync::mpsc::Receiver<CanvasMessage> {
        &self.receiver
    }
}

/// The poller type the generic device canvas hands its messages to.
pub type DeviceCanvasPoller = CanvasPoller;

/// The poller type a composed canvas layout hands its messages to.
pub type CanvasLayoutPoller = CanvasPoller;

/// A poller paired with the sending end the transport feeds.
pub fn canvas_message_channel() -> (std::sync::mpsc::Sender<CanvasMessage>, CanvasPoller) {
    let (sender, receiver) = message_channel();
    (sender, CanvasPoller::new(receiver))
}

} // verus!
