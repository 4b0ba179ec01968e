//! Engine events and the subscribers that choose which events they receive.

use vstd::prelude::*;
use crate::input::{ElementState, Key};

verus! {

/// An engine event.
#[derive(Clone, Copy, Debug, PartialEq, Eq, Structural)]
pub enum Event {
    Key(Key, ElementState),
}

impl From<(Key, ElementState)> for Event {
    fn from(o: (Key, ElementState)) -> (r: Event)
        ensures
            r == Event::Key(o.0, o.1),
    {
        Event::Key(o.0, o.1)
    }
}

impl vstd::std_specs::convert::FromSpecImpl<(Key, ElementState)> for Event {
    open spec fn obeys_from_spec() -> bool {
        true
    }

    open spec fn from_spec(o: (Key, ElementState)) -> Event {
        Event::Key(o.0, o.1)
    }
}

/// Decides which events a listener receives.
pub trait Subscriber {
    spec fn accepts(&self, e: Event) -> bool;

    fn is_subscribed(&self, e: &Event) -> (r: bool)
        ensures
            r == self.accepts(*e),
    ;
}

/// Receives every event.
pub struct AnySubscriber;

impl Subscriber for AnySubscriber {
    open spec fn accepts(&self, e: Event) -> bool {
        true
    }

    fn is_subscribed(&self, e: &Event) -> (r: bool) {
        true
    }
}

/// Receives keyboard events.
pub struct KeySubscriber;

impl Subscriber for KeySubscriber {
    open spec fn accepts(&self, e: Event) -> bool {
        e is Key
    }

    fn is_subscribed(&self, e: &Event) -> (r: bool) {
        match e {
            Event::Key(_, _) => true,
        }
    }
}

/// Two subscribers joined: receives what either of them receives.
pub struct MultiSubscriber<A, B> {
    pub first: A,
    pub second: B,
}

impl<A: Subscriber, B: Subscriber> Subscriber for MultiSubscriber<A, B> {
    open spec fn accepts(&self, e: Event) -> bool {
        self.first.accepts(e) || self.second.accepts(e)
    }

    fn is_subscribed(&self, e: &Event) -> (r: bool) {
        self.first.is_subscribed(e) || self.second.is_subscribed(e)
    }
}

/// Joining one subscriber with another.
pub trait JoinSubscriber: Subscriber + Sized {
    fn join<S: Subscriber>(self, o: S) -> (r: MultiSubscriber<Self, S>)
        ensures
            r.first == self,
            r.second == o,
    ;
}

impl<T: Subscriber> JoinSubscriber for T {
    fn join<S: Subscriber>(self, o: S) -> (r: MultiSubscriber<T, S>) {
        MultiSubscriber { first: self, second: o }
    }
}

/// The events of `events` that `sub` accepts, in order.
pub open spec fn accepted<S: Subscriber>(sub: S, events: Seq<Event>) -> Seq<Event> {
    events.filter(|e: Event| sub.accepts(e))
}

/// Picks, in order, the events that a subscriber receives.
pub fn subscribed_events<S: Subscriber>(sub: &S, events: &Vec<Event>) -> (r: Vec<Event>)
    ensures
        r@ == accepted(*sub, events@),
{
    let mut out: Vec<Event> = Vec::new();
    let mut i: usize = 0;
    while i < events.len()
        invariant
            i <= events@.len(),
            out@ == accepted(*sub, events@.take(i as int)),
        decreases events.len() - i,
    {
        let e = events[i];
        proof {
            assert(events@.take(i + 1).drop_last() =~= events@.take(i as int));
            reveal(Seq::filter);
        }
        if sub.is_subscribed(&e) {
            out.push(e);
        }
        i = i + 1;
    }
    proof {
        assert(events@.take(events@.len() as int) =~= events@);
    }
    out
}

} // verus!
