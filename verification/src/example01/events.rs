//! Events, and the capability of sending them.

use vstd::prelude::*;
use vstd::string::StringExecFns;

verus! {

/// What a tracker reports.
#[derive(Debug, PartialEq, Eq, Copy, Clone, Structural)]
pub enum Event {
    Connect,
    Announce,
    Scrape,
}

impl Event {
    /// The name of the event, character by character.
    pub open spec fn name_text(self) -> Seq<char> {
        match self {
            Event::Connect => "Connect"@,
            Event::Announce => "Announce"@,
            Event::Scrape => "Scrape"@,
        }
    }

    /// The name of the event.
    pub fn name(self) -> (name: &'static str)
        ensures
            name@ == self.name_text(),
    {
        match self {
            Event::Connect => "Connect",
            Event::Announce => "Announce",
            Event::Scrape => "Scrape",
        }
    }
}

/// An event could not be sent.
#[derive(Debug)]
pub struct SendError {
    /// Why, in words.
    pub cause: String,
}

/// Something that events can be sent through.
///
/// A sender is described by the events it has delivered so far (`sent`) and
/// by what it would answer to the next one (`reply_to`). Both have a default,
/// so that a sender that is not verified gives `send_event` alone; a verified
/// one states its own, since with the defaults no send could succeed.
pub trait EventSender {
    /// The events delivered through this sender, oldest first.
    open spec fn sent(&self) -> Seq<Event> {
        Seq::empty()
    }

    /// What sending `event` would return as the sender stands.
    open spec fn reply_to(&self, event: Event) -> Result<(), SendError> {
        Ok(())
    }

    /// Sends `event`. It is delivered exactly when the call succeeds.
    fn send_event(&mut self, event: Event) -> (outcome: Result<(), SendError>)
        ensures
            outcome == old(self).reply_to(event),
            outcome is Ok ==> final(self).sent() == old(self).sent().push(event),
            outcome is Err ==> final(self).sent() == old(self).sent(),
    ;
}

/// The sender used in production: it accepts every event. What it has
/// delivered is known to proofs alone; a program that wants a record writes
/// `notice` somewhere.
pub struct TrackerEventSender {
    delivered: Ghost<Seq<Event>>,
}

impl TrackerEventSender {
    /// A sender that has delivered nothing yet.
    pub fn new() -> (sender: Self)
        ensures
            sender.sent() == Seq::<Event>::empty(),
    {
        TrackerEventSender { delivered: Ghost(Seq::empty()) }
    }

    /// The line that records a delivery, character by character.
    pub open spec fn notice_text(event: Event) -> Seq<char> {
        "Event::"@ + event.name_text() + " sent."@
    }

    /// The line that records the delivery of `event`.
    pub fn notice(event: Event) -> (line: String)
        ensures
            line@ == Self::notice_text(event),
    {
        let mut line = String::from_str("Event::");
        line.append(event.name());
        line.append(" sent.");
        line
    }
}

impl EventSender for TrackerEventSender {
    closed spec fn sent(&self) -> Seq<Event> {
        self.delivered@
    }

    open spec fn reply_to(&self, event: Event) -> Result<(), SendError> {
        Ok(())
    }

    fn send_event(&mut self, event: Event) -> (outcome: Result<(), SendError>) {
        self.delivered = Ghost(self.delivered@.push(event));
        Ok(())
    }
}

} // verus!
