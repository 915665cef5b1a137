//! The tracker.

use vstd::prelude::*;
use super::events::{Event, EventSender, SendError};

verus! {

/// A `BitTorrent` tracker, as far as it reports connections.
pub struct Tracker {
    // Held in a tuple of one, so that the box moves in as it was given.
    event_sender: (Box<dyn EventSender>,),
}

impl Tracker {
    /// The events delivered through the tracker's sender, oldest first.
    pub closed spec fn sent(&self) -> Seq<Event> {
        self.event_sender.0.sent()
    }

    /// What the tracker's sender would answer to `event` as it stands.
    pub closed spec fn reply_to(&self, event: Event) -> Result<(), SendError> {
        self.event_sender.0.reply_to(event)
    }

    /// A tracker that reports through `event_sender`.
    pub fn new(event_sender: Box<dyn EventSender>) -> (tracker: Self)
        ensures
            tracker.sent() == event_sender.sent(),
            forall|event: Event| tracker.reply_to(event) == event_sender.reply_to(event),
    {
        let held = (event_sender,);
        Self { event_sender: held }
    }

    /// Connects, and sends one `Connect` event through the sender.
    ///
    /// Fails exactly when the sender does, and with its error; the sender has
    /// then delivered nothing.
    pub fn connect(&mut self) -> (outcome: Result<(), SendError>)
        ensures
            outcome == old(self).reply_to(Event::Connect),
            outcome is Ok ==> final(self).sent() == old(self).sent().push(Event::Connect),
            outcome is Err ==> final(self).sent() == old(self).sent(),
    {
        self.event_sender.0.send_event(Event::Connect)?;
        Ok(())
    }
}

} // verus!
