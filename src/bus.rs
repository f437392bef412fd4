use vstd::prelude::*;
use tokio::sync::broadcast::{Receiver, Sender};

verus! {

/// Events a subscriber may fall behind by before it starts losing them.
pub const BUS_CAPACITY: usize = 10;

#[verifier::external_type_specification]
#[verifier::external_body]
#[verifier::reject_recursive_types(T)]
pub struct ExSender<T>(Sender<T>);

#[verifier::external_type_specification]
#[verifier::external_body]
#[verifier::reject_recursive_types(T)]
pub struct ExReceiver<T>(Receiver<T>);

/// Relies on tokio's `broadcast::Sender::new`: a channel with no receiver
/// yet and room for `capacity` events per receiver. It panics on a capacity
/// of zero or above `usize::MAX / 2`, which `requires` rules out.
#[verifier::external_body]
fn open_channel(capacity: usize) -> (r: Sender<String>)
    requires
        0 < capacity <= usize::MAX / 2,
{
    Sender::new(capacity)
}

/// Relies on tokio's `broadcast::Sender::send`: it fails only when no
/// receiver is subscribed and otherwise returns the number of receivers,
/// which is then at least one. It never waits for a receiver.
#[verifier::external_body]
fn send_event(tx: &Sender<String>, event: String) -> (r: Option<usize>)
    ensures
        r matches Some(n) ==> n >= 1,
{
    tx.send(event).ok()
}

/// Relies on tokio's `broadcast::Sender::subscribe`: a new receiver of the
/// events sent after this call.
#[verifier::external_body]
fn new_receiver(tx: &Sender<String>) -> (r: Receiver<String>) {
    tx.subscribe()
}

/// Relies on tokio's `broadcast::Sender::receiver_count`: the number of
/// receivers subscribed at the moment of the call.
#[verifier::external_body]
fn count_receivers(tx: &Sender<String>) -> (r: usize) {
    tx.receiver_count()
}

/// Fan-out of "activity occurred" events, each carrying a client identity,
/// to any number of independent subscribers. Publishing never blocks and
/// never fails; a subscriber that falls more than the capacity behind loses
/// the oldest events it has not read.
pub struct NotificationBus {
    tx: Sender<String>,
}

impl NotificationBus {
    /// A bus with no subscribers, buffering up to `capacity` events per
    /// subscriber.
    pub fn new(capacity: usize) -> (r: NotificationBus)
        requires
            0 < capacity <= usize::MAX / 2,
    {
        NotificationBus { tx: open_channel(capacity) }
    }

    /// Announces activity of `id` to every current subscriber and returns
    /// how many subscribers it was queued for. With no subscribers it
    /// returns zero and nothing else happens.
    pub fn publish(&self, id: &String) -> (delivered: usize) {
        match send_event(&self.tx, id.clone()) {
            Some(n) => n,
            None => 0,
        }
    }

    /// A new, independent subscriber that receives the events published
    /// from now on, in publication order.
    pub fn subscribe(&self) -> (r: Receiver<String>) {
        new_receiver(&self.tx)
    }

    /// Number of subscribers at the moment of the call.
    pub fn subscriber_count(&self) -> (r: usize) {
        count_receivers(&self.tx)
    }
}

} // verus!
