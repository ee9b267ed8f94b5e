//! Limits on the open connections of each route.
use crate::ids::RouteId;
use crate::maps::{self, NumberMap, number_map, number_map_get, number_map_insert};
use vstd::prelude::*;

verus! {

/// One of the connections that a route may have. It is given back with
/// [`ConnLimiter::release`] when the connection ends.
#[derive(Debug)]
pub struct ConnGuard {
    route_id: RouteId,
}

impl ConnGuard {
    /// The route whose connection this is.
    pub closed spec fn route(self) -> RouteId {
        self.route_id
    }
}

/// The connections that are open after an attempt to open one where `n` are open and `max` may
/// be.
pub open spec fn after_attempt(n: nat, max: nat) -> nat {
    if n < max {
        n + 1
    } else {
        n
    }
}

/// The connections that are open after one of `n` has ended.
pub open spec fn after_end(n: nat) -> nat {
    if n > 0 {
        (n - 1) as nat
    } else {
        0
    }
}

/// The number of open connections of each route.
pub struct ConnLimiter {
    counters: NumberMap,
}

impl ConnLimiter {
    /// The number of open connections of the route `id`.
    pub closed spec fn count(self, id: RouteId) -> u64 {
        match maps::entry(maps::number_entries(self.counters), id.value) {
            Some(n) => n,
            None => 0,
        }
    }

    /// No connection is open.
    pub fn new() -> (r: ConnLimiter)
        ensures
            forall|id: RouteId| #[trigger] r.count(id) == 0,
    {
        ConnLimiter { counters: number_map() }
    }

    /// Takes one of the `max_connections` that the route may have, if one is left. With a limit
    /// of 0 none ever is.
    pub fn try_acquire(&mut self, route_id: RouteId, max_connections: u64) -> (r: Option<ConnGuard>)
        ensures
            (r is Some) == (old(self).count(route_id) < max_connections),
            r matches Some(g) ==> g.route() == route_id,
            forall|id: RouteId| #[trigger]
                final(self).count(id) == (if id == route_id {
                    after_attempt(old(self).count(id) as nat, max_connections as nat)
                } else {
                    old(self).count(id) as nat
                }),
    {
        let prev: u64 = self.active(route_id);
        if prev >= max_connections {
            return None;
        }
        number_map_insert(&mut self.counters, route_id.value, prev + 1);
        Some(ConnGuard { route_id })
    }

    /// Gives a connection back.
    pub fn release(&mut self, guard: ConnGuard)
        ensures
            forall|id: RouteId| #[trigger]
                final(self).count(id) == (if id == guard.route() {
                    after_end(old(self).count(id) as nat)
                } else {
                    old(self).count(id) as nat
                }),
    {
        let prev: u64 = self.active(guard.route_id);
        if prev > 0 {
            number_map_insert(&mut self.counters, guard.route_id.value, prev - 1);
        }
    }

    /// The number of open connections of a route.
    pub fn active(&self, route_id: RouteId) -> (n: u64)
        ensures
            n == self.count(route_id),
    {
        match number_map_get(&self.counters, route_id.value) {
            Some(n) => n,
            None => 0,
        }
    }
}

/// The open connections of one route after a sequence of attempts to open one (`true`) under the
/// limit `max` and of ends of one (`false`).
pub open spec fn open_after(events: Seq<bool>, max: nat) -> nat
    decreases events.len(),
{
    if events.len() == 0 {
        0
    } else if events.last() {
        after_attempt(open_after(events.drop_last(), max), max)
    } else {
        after_end(open_after(events.drop_last(), max))
    }
}

/// What an attempt took, the end of the connection gives back.
pub proof fn an_end_undoes_an_attempt(n: nat, max: nat)
    requires
        n < max,
    ensures
        after_end(after_attempt(n, max)) == n,
{
}

/// Whatever connections open and end, a route never has more than its limit.
pub proof fn never_over_the_limit(events: Seq<bool>, max: nat)
    ensures
        open_after(events, max) <= max,
    decreases events.len(),
{
    if events.len() > 0 {
        never_over_the_limit(events.drop_last(), max);
    }
}

/// An attempt under the limit opens one connection more; one at the limit opens none; and a limit
/// of 0 lets none in.
pub proof fn what_an_attempt_does(n: nat, max: nat)
    ensures
        n < max ==> after_attempt(n, max) == n + 1,
        n >= max ==> after_attempt(n, max) == n,
        after_attempt(0, 0) == 0,
        n > 0 ==> after_end(n) == n - 1,
        after_end(0) == 0,
{
}

/// The connections of a route are counted one after the other: none at first, one more for an
/// attempt under the limit, one less for an end.
pub proof fn connections_are_counted_in_turn(events: Seq<bool>, max: nat)
    ensures
        open_after(Seq::empty(), max) == 0,
        open_after(events, max) < max ==> open_after(events.push(true), max) == open_after(
            events,
            max,
        ) + 1,
        open_after(events, max) == max ==> open_after(events.push(true), max) == max,
        open_after(events, max) > 0 ==> open_after(events.push(false), max) == open_after(
            events,
            max,
        ) - 1,
{
    assert(events.push(true).drop_last() =~= events);
    assert(events.push(false).drop_last() =~= events);
}

} // verus!
