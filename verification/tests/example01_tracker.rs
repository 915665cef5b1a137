use std::cell::RefCell;
use std::rc::Rc;

use testing_in_rust::example01::events::{Event, EventSender, SendError, TrackerEventSender};
use testing_in_rust::example01::handlers::handle_connect;
use testing_in_rust::example01::tracker::Tracker;

#[test]
fn the_tracker_should_allow_connections() {
    // The real sender, not a double.
    let event_sender = Box::new(TrackerEventSender::new());
    let mut tracker = Tracker::new(event_sender);

    assert!(tracker.connect().is_ok());
}

/// A double that keeps the last event it was given where the test can see it.
struct TrackerEventSenderMock {
    pub sent_event: Rc<RefCell<Option<Event>>>,
}

impl TrackerEventSenderMock {
    pub fn new() -> Self {
        Self {
            sent_event: Rc::new(RefCell::new(None)),
        }
    }
}

impl EventSender for TrackerEventSenderMock {
    fn send_event(&mut self, event: Event) -> Result<(), SendError> {
        *self.sent_event.borrow_mut() = Some(event);
        Ok(())
    }
}

#[test]
fn the_tracker_should_send_a_connect_event_after_connecting() {
    let event_sender = TrackerEventSenderMock::new();
    let sent_event = event_sender.sent_event.clone();
    let mut tracker = Tracker::new(Box::new(event_sender));

    tracker.connect().unwrap();

    assert_eq!(sent_event.borrow().unwrap(), Event::Connect);
}

/// A double that counts what it was given, and refuses when told to.
struct CountingSender {
    seen: Rc<RefCell<Vec<Event>>>,
    refuse: bool,
}

impl EventSender for CountingSender {
    fn send_event(&mut self, event: Event) -> Result<(), SendError> {
        if self.refuse {
            return Err(SendError {
                cause: String::from("line down"),
            });
        }
        self.seen.borrow_mut().push(event);
        Ok(())
    }
}

#[test]
fn connecting_sends_exactly_one_connect_event() {
    let seen = Rc::new(RefCell::new(Vec::new()));
    let mut tracker = Tracker::new(Box::new(CountingSender {
        seen: seen.clone(),
        refuse: false,
    }));

    tracker.connect().unwrap();

    assert_eq!(*seen.borrow(), vec![Event::Connect]);
}

#[test]
fn connecting_twice_sends_two_connect_events() {
    let seen = Rc::new(RefCell::new(Vec::new()));
    let mut tracker = Tracker::new(Box::new(CountingSender {
        seen: seen.clone(),
        refuse: false,
    }));

    tracker.connect().unwrap();
    tracker.connect().unwrap();

    assert_eq!(*seen.borrow(), vec![Event::Connect, Event::Connect]);
}

#[test]
fn connecting_fails_with_the_error_of_the_sender() {
    let seen = Rc::new(RefCell::new(Vec::new()));
    let mut tracker = Tracker::new(Box::new(CountingSender {
        seen: seen.clone(),
        refuse: true,
    }));

    let outcome = tracker.connect();

    assert_eq!(outcome.unwrap_err().cause, "line down");
    assert!(seen.borrow().is_empty());
}

#[test]
fn the_handler_connects_the_tracker() {
    let seen = Rc::new(RefCell::new(Vec::new()));
    let mut tracker = Tracker::new(Box::new(CountingSender {
        seen: seen.clone(),
        refuse: false,
    }));

    handle_connect(&mut tracker);

    assert_eq!(*seen.borrow(), vec![Event::Connect]);
}

#[test]
fn the_handler_accepts_the_production_sender() {
    let mut tracker = Tracker::new(Box::new(TrackerEventSender::new()));

    handle_connect(&mut tracker);
    handle_connect(&mut tracker);
}

#[test]
fn every_event_has_its_name() {
    assert_eq!(Event::Connect.name(), "Connect");
    assert_eq!(Event::Announce.name(), "Announce");
    assert_eq!(Event::Scrape.name(), "Scrape");
}

#[test]
fn the_notice_of_a_delivery_names_the_event() {
    assert_eq!(TrackerEventSender::notice(Event::Connect), "Event::Connect sent.");
    assert_eq!(TrackerEventSender::notice(Event::Announce), "Event::Announce sent.");
    assert_eq!(TrackerEventSender::notice(Event::Scrape), "Event::Scrape sent.");
    for event in [Event::Connect, Event::Announce, Event::Scrape] {
        assert_eq!(
            TrackerEventSender::notice(event),
            format!("Event::{event:?} sent.")
        );
    }
}

#[test]
fn the_production_sender_accepts_every_event() {
    let mut sender = TrackerEventSender::new();

    assert!(sender.send_event(Event::Connect).is_ok());
    assert!(sender.send_event(Event::Announce).is_ok());
    assert!(sender.send_event(Event::Scrape).is_ok());
}
