//! A single-use hand-off of one value between exactly one producer and one
//! consumer, built on the `futures` one-shot channel.

use futures::sync::oneshot;
use vstd::prelude::*;

verus! {

/// `futures::sync::oneshot::Sender`, the sending half of a one-shot channel.
/// Nothing is known of what is inside.
#[verifier::external_type_specification]
#[verifier::external_body]
#[verifier::reject_recursive_types(T)]
pub struct ExSender<T>(oneshot::Sender<T>);

/// `futures::sync::oneshot::Receiver`, the receiving half of a one-shot
/// channel. Nothing is known of what is inside.
#[verifier::external_type_specification]
#[verifier::external_body]
#[verifier::reject_recursive_types(T)]
pub struct ExReceiver<T>(oneshot::Receiver<T>);

/// `futures::sync::oneshot::Canceled`, the error of a receiving half whose
/// sending half is gone. It says nothing more than that.
#[verifier::external_type_specification]
#[verifier::external_body]
pub struct ExCanceled(oneshot::Canceled);

/// `futures::sync::oneshot::channel`, which makes the two halves of a new
/// channel. Nothing is claimed of them.
pub assume_specification<T>[ oneshot::channel::<T> ]() -> (pair: (
    oneshot::Sender<T>,
    oneshot::Receiver<T>,
));

/// `futures::sync::oneshot::Sender::send`, which uses the sender up. Whether
/// the value is taken depends on whether the receiving half still exists, so
/// success is not promised. What is claimed: a value that is refused comes
/// back as it was given.
pub assume_specification<T>[ oneshot::Sender::<T>::send ](tx: oneshot::Sender<T>, t: T) -> (r:
    Result<(), T>)
    ensures
        r matches Err(back) ==> back == t,
;

/// The sending half of a slot. It is used up by the one `send`.
#[verifier::reject_recursive_types(T)]
pub struct Producer<T> {
    tx: oneshot::Sender<T>,
}

/// The receiving half of a slot. It remembers the producer it was made with.
#[verifier::reject_recursive_types(T)]
pub struct Consumer<T> {
    rx: oneshot::Receiver<T>,
    peer: Ghost<Producer<T>>,
}

/// The failure of a wait on a slot: the producer is gone, and nothing was
/// sent.
#[derive(Clone, Copy, Debug, PartialEq, Eq)]
pub struct Abandoned;

/// Creates a slot and returns its two halves.
pub fn slot<T>() -> (pair: (Producer<T>, Consumer<T>))
    ensures
        pair.1.peer() == pair.0,
{
    let (tx, rx) = oneshot::channel();
    let producer = Producer { tx };
    let consumer = Consumer { rx, peer: Ghost(producer) };
    (producer, consumer)
}

impl<T> Producer<T> {
    /// Hands `value` to the consumer. Fails, giving the value back, when the
    /// consumer has been abandoned.
    pub fn send(self, value: T) -> (r: Result<(), T>)
        ensures
            r matches Err(back) ==> back == value,
    {
        self.tx.send(value)
    }
}

impl<T> Consumer<T> {
    /// The other half of the slot: the producer that was made together with
    /// this consumer.
    pub closed spec fn peer(&self) -> Producer<T> {
        self.peer@
    }

    /// Gives up the wrapper and returns the receiving half of the channel, a
    /// future that resolves with the value sent or fails once the producer is
    /// gone.
    pub fn into_receiver(self) -> (receiver: oneshot::Receiver<T>)
        ensures
            receiver == self.receiver(),
    {
        self.rx
    }

    /// The receiving half of the channel that this consumer holds: the one
    /// that was made together with the sending half inside `peer`.
    pub closed spec fn receiver(&self) -> oneshot::Receiver<T> {
        self.rx
    }

    /// What a wait on the receiving half has come to: the value that was
    /// sent, or `Abandoned` if the channel was canceled.
    pub fn outcome(received: Result<T, oneshot::Canceled>) -> (outcome: Result<T, Abandoned>)
        ensures
            outcome == match received {
                Ok(value) => Ok::<T, Abandoned>(value),
                Err(_) => Err::<T, Abandoned>(Abandoned),
            },
    {
        match received {
            Ok(value) => Ok(value),
            Err(_) => Err(Abandoned),
        }
    }
}

} // verus!
