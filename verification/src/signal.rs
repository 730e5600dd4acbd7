//! The completion signal: the one-shot channel on which a bridge task
//! reports its outcome to the handler that answers the request.

use crate::bridge::Event;
use crate::outcome::Outcome;
use futures::sync::oneshot::Sender;
use vstd::prelude::*;

verus! {

/// The sending half of a `futures::sync::oneshot` channel. Verus knows
/// nothing of what is inside it.
#[verifier::external_type_specification]
#[verifier::external_body]
#[verifier::reject_recursive_types(T)]
pub struct ExSender<T>(futures::sync::oneshot::Sender<T>);

/// Calls `futures::sync::oneshot::Sender::send`, which uses the sender up.
/// Trusted, not proved: when the receiving half is gone, the error holds the
/// very outcome that was given. Whether the call succeeds is not said: it
/// depends on what the receiving side has done.
#[verifier::external_body]
fn send(sender: Sender<Outcome>, outcome: Outcome) -> (sent: Result<(), Outcome>)
    ensures
        sent matches Err(returned) ==> returned == outcome,
{
    sender.send(outcome)
}

/// The event that a sending attempt amounts to for the bridge task.
pub open spec fn sending_event(sent: Result<(), Outcome>) -> Event {
    match sent {
        Ok(_) => Event::Delivered,
        Err(returned) => Event::Undelivered(returned),
    }
}

/// Turns the result of a sending attempt into the event to hand to the task.
pub fn settle(sent: Result<(), Outcome>) -> (event: Event)
    ensures
        event == sending_event(sent),
{
    match sent {
        Ok(_) => Event::Delivered,
        Err(returned) => Event::Undelivered(returned),
    }
}

/// Sends `outcome` on the signal and says what came of it. The sender is
/// used up, so a signal carries one outcome at most. Where nobody listens,
/// the outcome is neither lost nor sent again: it comes back in the event.
pub fn deliver(sender: Sender<Outcome>, outcome: Outcome) -> (event: Event)
    ensures
        event == Event::Delivered || event == Event::Undelivered(outcome),
{
    settle(send(sender, outcome))
}

} // verus!
