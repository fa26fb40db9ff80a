//! The bounded in-process channel that queues received messages, taken from `tokio`.

use tokio::sync::mpsc;
use tokio::sync::mpsc::{Receiver as MessageReceiver, Sender as MessageSender};
use vstd::prelude::*;

verus! {

/// The sending half of a `tokio` channel.
#[verifier::external_type_specification]
#[verifier::external_body]
#[verifier::reject_recursive_types(T)]
pub struct ExSender<T>(MessageSender<T>);

/// The receiving half of a `tokio` channel.
#[verifier::external_type_specification]
#[verifier::external_body]
#[verifier::reject_recursive_types(T)]
pub struct ExReceiver<T>(MessageReceiver<T>);

/// What became of a message that was handed to a channel.
#[derive(Debug, PartialEq, Eq, Clone, Copy, Structural)]
pub enum Delivery {
    /// The message waits in the channel for its receiver.
    Queued,
    /// The channel held as many messages as it can, and the message was dropped.
    Full,
    /// The channel has no receiver any more, and the message was dropped.
    Closed,
}

/// The messages that were handed to a channel through this sender, oldest first, whether
/// the channel took them in or not.
pub uninterp spec fn handed(sender: MessageSender<Vec<u8>>) -> Seq<Seq<u8>>;

/// What became of each of the messages that were handed to a channel through this sender,
/// oldest first.
pub uninterp spec fn answers(sender: MessageSender<Vec<u8>>) -> Seq<Delivery>;

/// The messages that a channel has taken in through this sender, oldest first.
pub uninterp spec fn taken(sender: MessageSender<Vec<u8>>) -> Seq<Seq<u8>>;

/// The number of messages that the channel of this sender holds at most.
pub uninterp spec fn limit(sender: MessageSender<Vec<u8>>) -> nat;

/// Whether what goes in at `sender` comes out at `receiver`: whether they are the two
/// ends of one channel.
pub uninterp spec fn joined(
    sender: MessageSender<Vec<u8>>,
    receiver: MessageReceiver<Vec<u8>>,
) -> bool;

/// Calls `tokio::sync::mpsc::channel`.
///
/// The new channel holds up to `buffer` messages, was handed none and has taken in none. `tokio` panics
/// on a buffer of zero and on one above its `Semaphore::MAX_PERMITS`, which is
/// `usize::MAX >> 3`.
#[verifier::external_body]
pub(crate) fn channel(buffer: usize) -> (ends: (MessageSender<Vec<u8>>, MessageReceiver<Vec<u8>>))
    requires
        0 < buffer <= usize::MAX / 8,
    ensures
        handed(ends.0) == Seq::<Seq<u8>>::empty(),
        answers(ends.0) == Seq::<Delivery>::empty(),
        taken(ends.0) == Seq::<Seq<u8>>::empty(),
        limit(ends.0) == buffer,
        joined(ends.0, ends.1),
{
    mpsc::channel(buffer)
}

/// Calls `tokio::sync::mpsc::Sender::try_send`.
///
/// The message goes behind what the channel has taken in before, or is dropped because
/// the channel is full or closed. Which of these happens depends on the receiver and on
/// the other senders of the channel, so it is not stated.
#[verifier::external_body]
pub(crate) fn try_send(sender: &mut MessageSender<Vec<u8>>, message: Vec<u8>) -> (delivery: Delivery)
    ensures
        handed(*final(sender)) == handed(*old(sender)).push(message@),
        answers(*final(sender)) == answers(*old(sender)).push(delivery),
        taken(*final(sender)) == (if delivery is Queued {
            taken(*old(sender)).push(message@)
        } else {
            taken(*old(sender))
        }),
        limit(*final(sender)) == limit(*old(sender)),
        forall|receiver: MessageReceiver<Vec<u8>>|
            joined(*final(sender), receiver) == joined(*old(sender), receiver),
{
    match sender.try_send(message) {
        Ok(()) => Delivery::Queued,
        Err(mpsc::error::TrySendError::Full(_)) => Delivery::Full,
        Err(mpsc::error::TrySendError::Closed(_)) => Delivery::Closed,
    }
}

} // verus!
