//! What a node reacts to, and where it gets it from.

use crate::common::types::{Block, Tx};
use vstd::prelude::*;

verus! {

/// Something that happened to the node.
pub enum NodeEvent {
    Quit,
    NewTransaction(Tx),
    NewBlock(Block),
}

/// A source of node events that runs on its own and sends them on.
pub trait EventProvider {
    /// Starts the source; it sends its events with `send`.
    fn spawn(self, send: EventSink);
}

/// A source of node events that is polled.
pub trait EventStream {
    /// The next event, if one is waiting.
    fn try_recv(&mut self) -> Option<NodeEvent>;
}

/// Where a source delivers its events: the events it sent, in order.
pub struct EventSink {
    events: Vec<NodeEvent>,
}

impl EventSink {
    /// The events delivered, oldest first.
    pub closed spec fn delivered(&self) -> Seq<NodeEvent> {
        self.events@
    }

    /// A sink with nothing delivered.
    pub fn new() -> (s: EventSink)
        ensures
            s.delivered() == Seq::<NodeEvent>::empty(),
    {
        let s = EventSink { events: Vec::new() };
        assert(s.delivered() =~= Seq::<NodeEvent>::empty());
        s
    }

    /// Delivers `event`.
    pub fn send(&mut self, event: NodeEvent)
        ensures
            final(self).delivered() == old(self).delivered().push(event),
    {
        self.events.push(event);
    }

    /// Hands out the delivered events, oldest first, and empties the sink.
    pub fn drain(&mut self) -> (r: Vec<NodeEvent>)
        ensures
            r@ == old(self).delivered(),
            final(self).delivered() == Seq::<NodeEvent>::empty(),
    {
        let mut r: Vec<NodeEvent> = Vec::new();
        std::mem::swap(&mut r, &mut self.events);
        assert(self.delivered() =~= Seq::<NodeEvent>::empty());
        r
    }
}

} // verus!
