//! The queue between those who observe and the processor that drains it.
use vstd::prelude::*;

use crate::capability::BoxedHandler;
use crate::cockpit::Cockpit;
use crate::instruments::Panel;
use crate::observation::Observation;

verus! {

/// What can be sent to a processor.
#[verifier::reject_recursive_types(L)]
pub enum TelemetryMessage<L> {
    /// An observation was made.
    Observation(Observation<L>),
    /// A cockpit is to be added.
    AddCockpit(Cockpit<L>),
    /// A handler is to be added.
    AddHandler(BoxedHandler<L>),
    /// A panel is to be added to the cockpit with the given name.
    AddPanel { cockpit_name: String, panel: Panel<L> },
}

/// What one attempt to take a message from the queue came to.
#[verifier::reject_recursive_types(L)]
pub enum Received<L> {
    /// A message was waiting.
    Message(TelemetryMessage<L>),
    /// Nothing was waiting.
    Empty,
    /// Nothing was waiting, and nobody is left who could send.
    Disconnected,
}

/// A message that the queue did not take, and why it did not.
#[verifier::reject_recursive_types(L)]
pub enum Dropped<L> {
    /// The queue had no room for the message.
    Full(TelemetryMessage<L>),
    /// Nobody is left who could receive the message.
    Disconnected(TelemetryMessage<L>),
}

impl<L> Dropped<L> {
    /// The message that was not taken.
    pub open spec fn message(self) -> TelemetryMessage<L> {
        match self {
            Dropped::Full(message) => message,
            Dropped::Disconnected(message) => message,
        }
    }

    /// Gives the message back to whoever wanted to send it.
    pub fn into_message(self) -> (message: TelemetryMessage<L>)
        ensures
            message == self.message(),
    {
        match self {
            Dropped::Full(message) => message,
            Dropped::Disconnected(message) => message,
        }
    }
}

/// `crossbeam_channel::Receiver`: the receiving end of a queue. Nothing is
/// known of what is inside.
#[verifier::external_type_specification]
#[verifier::external_body]
#[verifier::reject_recursive_types(T)]
pub struct ExReceiver<T>(crossbeam_channel::Receiver<T>);

/// `crossbeam_channel::Sender`: a sending end of a queue. Nothing is known
/// of what is inside.
#[verifier::external_type_specification]
#[verifier::external_body]
#[verifier::reject_recursive_types(T)]
pub struct ExSender<T>(crossbeam_channel::Sender<T>);

/// `crossbeam_channel::unbounded`: a new queue without a limit, as its
/// sending and its receiving end. Nothing is claimed of the two.
#[verifier::external_body]
pub(crate) fn open_channel<L>() -> (ends: (
    crossbeam_channel::Sender<TelemetryMessage<L>>,
    crossbeam_channel::Receiver<TelemetryMessage<L>>,
)) {
    crossbeam_channel::unbounded()
}

/// `crossbeam_channel::Sender::clone`: one more sending end of the same
/// queue. Nothing is claimed of it.
#[verifier::external_body]
pub(crate) fn another_sender<L>(sender: &crossbeam_channel::Sender<TelemetryMessage<L>>) -> (another:
    crossbeam_channel::Sender<TelemetryMessage<L>>) {
    sender.clone()
}

/// `crossbeam_channel::Receiver::try_recv`: takes the next message from the
/// queue without waiting. What comes back depends on what others have sent
/// by now, so nothing is claimed of it.
#[verifier::external_body]
pub(crate) fn receive<L>(receiver: &crossbeam_channel::Receiver<TelemetryMessage<L>>) -> (received: Received<L>) {
    match receiver.try_recv() {
        Ok(message) => Received::Message(message),
        Err(crossbeam_channel::TryRecvError::Empty) => Received::Empty,
        Err(crossbeam_channel::TryRecvError::Disconnected) => Received::Disconnected,
    }
}

/// `crossbeam_channel::Sender::try_send`: puts a message into the queue
/// without waiting. A message that the queue does not take comes back as it
/// was given, with the reason. Whether the queue takes a message depends on
/// its other end, which cannot be seen from here, so nothing is claimed of
/// that.
#[verifier::external_body]
pub(crate) fn send<L>(sender: &crossbeam_channel::Sender<TelemetryMessage<L>>, message: TelemetryMessage<L>) -> (sent:
    Result<(), Dropped<L>>)
    ensures
        sent matches Err(dropped) ==> dropped.message() == message,
{
    match sender.try_send(message) {
        Ok(()) => Ok(()),
        Err(crossbeam_channel::TrySendError::Full(message)) => Err(Dropped::Full(message)),
        Err(crossbeam_channel::TrySendError::Disconnected(message)) => Err(Dropped::Disconnected(message)),
    }
}

} // verus!
