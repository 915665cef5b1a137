//! Request handlers.

use vstd::prelude::*;
use super::events::Event;
use super::tracker::Tracker;

verus! {

/// Handles a connect request: the tracker connects, and its sender has
/// delivered one more `Connect` event.
///
/// For a tracker whose sender accepts the event. Otherwise the failure is
/// fatal.
pub fn handle_connect(tracker: &mut Tracker)
    requires
        old(tracker).reply_to(Event::Connect) is Ok,
    ensures
        final(tracker).sent() == old(tracker).sent().push(Event::Connect),
{
    tracker.connect().expect("Tracker should handle the connect request");
}

} // verus!
