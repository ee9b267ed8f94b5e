//! The events that the server publishes to those who watch it.
use crate::channel::{
    self, EventReceiver, EventSender, event_channel, event_send, event_subscribe, event_try_recv,
};
use vstd::prelude::*;

verus! {

pub const NODE_ONLINE: &'static str = "node.online";

pub const NODE_OFFLINE: &'static str = "node.offline";

pub const NODE_CREATED: &'static str = "node.created";

pub const NODE_UPDATED: &'static str = "node.updated";

pub const ROUTE_CREATED: &'static str = "route.created";

pub const ROUTE_UPDATED: &'static str = "route.updated";

pub const ROUTE_DELETED: &'static str = "route.deleted";

pub const CONFIG_UPDATED: &'static str = "config.updated";

/// What an event tells.
#[allow(inconsistent_fields)]
#[derive(Debug)]
pub enum EventData {
    Node { node_id: String, name: Option<String> },
    NodeStatus { node_id: String, status: &'static str },
    Route { route_id: String, name: String, node_id: String },
    Config { node_id: String },
}

impl Clone for EventData {
    fn clone(&self) -> (r: EventData)
        ensures
            r == *self,
    {
        match self {
            EventData::Node { node_id, name } => EventData::Node {
                node_id: node_id.clone(),
                name: name.clone(),
            },
            EventData::NodeStatus { node_id, status } => EventData::NodeStatus {
                node_id: node_id.clone(),
                status: *status,
            },
            EventData::Route { route_id, name, node_id } => EventData::Route {
                route_id: route_id.clone(),
                name: name.clone(),
                node_id: node_id.clone(),
            },
            EventData::Config { node_id } => EventData::Config { node_id: node_id.clone() },
        }
    }
}

/// An event.
#[derive(Debug)]
pub struct BusEvent {
    pub event_type: &'static str,
    pub data: EventData,
}

impl Clone for BusEvent {
    fn clone(&self) -> (r: BusEvent)
        ensures
            r == *self,
    {
        BusEvent { event_type: self.event_type, data: self.data.clone() }
    }
}

impl BusEvent {
    /// The routes of a node have changed.
    pub fn config_updated(node_id: String) -> (e: BusEvent)
        ensures
            e.event_type@ == "config.updated"@,
            e.data == (EventData::Config { node_id }),
    {
        BusEvent { event_type: CONFIG_UPDATED, data: EventData::Config { node_id } }
    }
}

/// Hands every event to everyone who watches. A watcher that falls behind loses the oldest ones,
/// and holds nobody up.
pub struct EventBus {
    tx: EventSender,
}

impl View for EventBus {
    type V = Seq<BusEvent>;

    /// The events that were published, in their order.
    closed spec fn view(&self) -> Seq<BusEvent> {
        channel::events_handed(self.tx)
    }
}

impl EventBus {
    /// How many events are kept for a watcher that falls behind, at least.
    pub closed spec fn room(self) -> nat {
        channel::event_room(self.tx)
    }

    /// The watcher watches this bus.
    pub closed spec fn watched_by(self, rx: EventReceiver) -> bool {
        channel::event_line_heard(rx) == channel::event_line(self.tx)
    }

    /// How many events a slow watcher may fall behind before it loses the oldest.
    pub const DEFAULT_CAPACITY: usize = 256;

    /// A bus on which nothing was published.
    pub fn new(capacity: usize) -> (bus: EventBus)
        requires
            0 < capacity <= channel::MAX_CAPACITY,
        ensures
            bus@ == Seq::<BusEvent>::empty(),
            bus.room() == capacity,
    {
        EventBus { tx: event_channel(capacity) }
    }

    /// Publishes an event. Where nobody watches it is lost.
    pub fn publish(&mut self, event_type: &'static str, data: EventData)
        ensures
            final(self)@ == old(self)@.push(BusEvent { event_type, data }),
            final(self).room() == old(self).room(),
            forall|rx: EventReceiver| #[trigger]
                final(self).watched_by(rx) == old(self).watched_by(rx),
    {
        event_send(&mut self.tx, BusEvent { event_type, data });
    }

    /// A new watcher. It gets the events that are published from now on, and none from before.
    pub fn subscribe(&self) -> (rx: EventReceiver)
        ensures
            self.watched_by(rx),
            channel::event_next(rx) == self@.len(),
    {
        event_subscribe(&self.tx)
    }

    /// The next event for a watcher, if there is one. `Err` is the number of events that it has
    /// lost, the oldest of those for it, because it was further behind than there is room for.
    pub fn next_event(&self, rx: &mut EventReceiver) -> (r: Result<Option<BusEvent>, u64>)
        requires
            self.watched_by(*old(rx)),
        ensures
            self.watched_by(*final(rx)),
            match r {
                Ok(Some(e)) => {
                    &&& channel::event_next(*old(rx)) < self@.len()
                    &&& e == watched(self@, channel::event_next(*old(rx)))[0]
                    &&& channel::event_next(*final(rx)) == channel::event_next(*old(rx)) + 1
                },
                Ok(None) => {
                    &&& channel::event_next(*old(rx)) == self@.len()
                    &&& channel::event_next(*final(rx)) == channel::event_next(*old(rx))
                },
                Err(lost) => {
                    &&& lost > 0
                    &&& channel::event_next(*final(rx)) == channel::event_next(*old(rx)) + lost
                    &&& channel::event_next(*final(rx)) + self.room() <= self@.len()
                },
            },
    {
        event_try_recv(&self.tx, rx)
    }
}

/// The events for a watcher whose next one has the place `next` among those that were published.
pub open spec fn watched(published: Seq<BusEvent>, next: nat) -> Seq<BusEvent> {
    published.subrange(next as int, published.len() as int)
}

/// A watcher that joins a bus gets exactly the events that are published from then on, in their
/// order, and none of those before: these are the events for it at once, and each that it gets
/// leaves it those behind. A bus keeps 256 events for a slow watcher where it is not told otherwise.
pub proof fn watcher_gets_what_follows(before: Seq<BusEvent>, after: Seq<BusEvent>, got: nat)
    ensures
        watched(before + after, before.len()) == after,
        EventBus::DEFAULT_CAPACITY == 256,
        got < after.len() ==> watched(before + after, before.len() + got)[0] == after[got as int],
        got < after.len() ==> watched(before + after, before.len() + got + 1) == watched(
            before + after,
            before.len() + got,
        ).drop_first(),
{
    assert(watched(before + after, before.len()) =~= after);
    if got < after.len() {
        assert(watched(before + after, before.len() + got + 1) =~= watched(
            before + after,
            before.len() + got,
        ).drop_first());
    }
}

} // verus!
