//! The event fan-out component: a registry of live per-resource listener
//! connections, the heartbeat state machine of one connection, and the
//! decision step of the pub-sub subscriber loop.
//!
//! Delivery is best-effort and at-most-once: a message for one resource
//! id goes to exactly the listeners registered under that id, a failure
//! toward one listener never affects the others, and read errors on the
//! subscriber connection are treated as transient.

use vstd::prelude::*;

use crate::text::str_eq;

verus! {

/// Protocol pings are sent on this fixed interval, in milliseconds.
pub const HEARTBEAT_INTERVAL_MS: u64 = 5000;

/// A connection silent for longer than this is closed, in milliseconds.
pub const CLIENT_TIMEOUT_MS: u64 = 30000;

/// The registry: resource id to the ordered list of live listener
/// handles, searched front to back. Entries are added on connection open
/// and removed on close, timeout or error.
pub struct ListenerRegistry {
    pub clients: Vec<(u128, Vec<u64>)>,
}

/// The listener list recorded under `id`, if any.
pub open spec fn reg_lookup(s: Seq<(u128, Vec<u64>)>, id: u128) -> Option<Seq<u64>>
    decreases s.len(),
{
    if s.len() == 0 {
        Option::None
    } else if s[0].0 == id {
        Option::Some(s[0].1@)
    } else {
        reg_lookup(s.skip(1), id)
    }
}

/// The listeners registered under `id`: the recorded list, or nothing.
pub open spec fn spec_listeners(reg: ListenerRegistry, id: u128) -> Seq<u64> {
    match reg_lookup(reg.clients@, id) {
        Option::Some(l) => l,
        Option::None => Seq::empty(),
    }
}

/// A listener list with every occurrence of `l` removed.
pub open spec fn spec_remove_listener(s: Seq<u64>, l: u64) -> Seq<u64> {
    s.filter(|x: u64| x != l)
}

/// Appending an entry at the end is only visible to ids not yet recorded.
proof fn lemma_reg_lookup_push(s: Seq<(u128, Vec<u64>)>, e: (u128, Vec<u64>), id: u128)
    ensures
        reg_lookup(s.push(e), id) == (if reg_lookup(s, id) is Some {
            reg_lookup(s, id)
        } else if e.0 == id {
            Option::Some(e.1@)
        } else {
            Option::<Seq<u64>>::None
        }),
    decreases s.len(),
{
    if s.len() == 0 {
        assert(reg_lookup(s, id) is None);
        assert(s.push(e).len() == 1);
        assert(s.push(e)[0] == e);
        assert(s.push(e).skip(1) =~= Seq::<(u128, Vec<u64>)>::empty());
        assert(reg_lookup(s.push(e).skip(1), id) is None);
        if e.0 == id {
            assert(reg_lookup(s.push(e), id) == Option::Some(e.1@));
        } else {
            assert(reg_lookup(s.push(e), id) is None);
        }
    } else {
        assert(s.push(e)[0] == s[0]);
        assert(s.push(e).skip(1) =~= s.skip(1).push(e));
        lemma_reg_lookup_push(s.skip(1), e, id);
        if s[0].0 == id {
            assert(reg_lookup(s.push(e), id) == Option::Some(s[0].1@));
            assert(reg_lookup(s, id) == Option::Some(s[0].1@));
        } else {
            assert(reg_lookup(s.push(e), id) == reg_lookup(s.skip(1).push(e), id));
            assert(reg_lookup(s, id) == reg_lookup(s.skip(1), id));
        }
    }
}

/// Replacing only the listener list at index `i`, the first entry of its
/// id, changes only that id's lookup.
proof fn lemma_reg_update_to(s0: Seq<(u128, Vec<u64>)>, s1: Seq<(u128, Vec<u64>)>, i: int, id: u128)
    requires
        0 <= i < s0.len(),
        s1.len() == s0.len(),
        forall|j: int| 0 <= j < s0.len() && j != i ==> s1[j] == s0[j],
        s0[i].0 == id,
        s1[i].0 == id,
        forall|j: int| 0 <= j < i ==> s0[j].0 != id,
    ensures
        reg_lookup(s1, id) == Option::Some(s1[i].1@),
        reg_lookup(s0, id) == Option::Some(s0[i].1@),
        forall|other: u128| other != id ==> reg_lookup(s1, other) == reg_lookup(s0, other),
    decreases i,
{
    if i == 0 {
        assert(reg_lookup(s1, id) == Option::Some(s1[0].1@));
        assert(reg_lookup(s0, id) == Option::Some(s0[0].1@));
        assert forall|other: u128| other != id implies reg_lookup(s1, other) == reg_lookup(
            s0,
            other,
        ) by {
            assert(reg_lookup(s1, other) == reg_lookup(s1.skip(1), other));
            assert(reg_lookup(s0, other) == reg_lookup(s0.skip(1), other));
            assert(s1.skip(1) =~= s0.skip(1));
        }
    } else {
        assert(s0[0] == s1[0]);
        assert(s0.skip(1)[i - 1] == s0[i]);
        assert(s1.skip(1)[i - 1] == s1[i]);
        assert(forall|j: int|
            0 <= j < s0.skip(1).len() && j != i - 1 ==> s1.skip(1)[j] == s0.skip(1)[j]);
        assert(forall|j: int| 0 <= j < i - 1 ==> s0.skip(1)[j].0 != id);
        lemma_reg_update_to(s0.skip(1), s1.skip(1), i - 1, id);
        assert(s0[0].0 != id);
        assert(reg_lookup(s1, id) == reg_lookup(s1.skip(1), id));
        assert(reg_lookup(s0, id) == reg_lookup(s0.skip(1), id));
        assert forall|other: u128| other != id implies reg_lookup(s1, other) == reg_lookup(
            s0,
            other,
        ) by {
            if s0[0].0 == other {
                assert(reg_lookup(s1, other) == Option::Some(s1[0].1@));
                assert(reg_lookup(s0, other) == Option::Some(s0[0].1@));
            } else {
                assert(reg_lookup(s1, other) == reg_lookup(s1.skip(1), other));
                assert(reg_lookup(s0, other) == reg_lookup(s0.skip(1), other));
            }
        }
    }
}

impl ListenerRegistry {
    /// An empty registry.
    pub fn new() -> (r: ListenerRegistry)
        ensures
            forall|id: u128| spec_listeners(r, id) == Seq::<u64>::empty(),
    {
        ListenerRegistry { clients: Vec::new() }
    }

    /// Records a newly opened connection under its resource id, after any
    /// listeners already registered there. No other id is affected.
    pub fn register(&mut self, event_id: u128, listener: u64)
        ensures
            spec_listeners(*final(self), event_id) == spec_listeners(*old(self), event_id).push(
                listener,
            ),
            forall|id: u128|
                id != event_id ==> spec_listeners(*final(self), id) == spec_listeners(
                    *old(self),
                    id,
                ),
    {
        let ghost s0 = self.clients@;
        let n = self.clients.len();
        let mut i: usize = 0;
        proof {
            assert(s0.skip(0) =~= s0);
        }
        while i < n
            invariant
                n == self.clients@.len(),
                s0 == self.clients@,
                s0 == old(self).clients@,
                0 <= i <= n,
                forall|j: int| 0 <= j < i ==> s0[j].0 != event_id,
                reg_lookup(s0, event_id) == reg_lookup(s0.skip(i as int), event_id),
            decreases n - i,
        {
            proof {
                assert(s0.skip(i as int)[0] == s0[i as int]);
                assert(s0.skip(i as int).skip(1) =~= s0.skip(i + 1));
            }
            if self.clients[i].0 == event_id {
                let (eid, mut list) = self.clients.remove(i);
                list.push(listener);
                self.clients.insert(i, (eid, list));
                proof {
                    assert(self.clients@.len() == s0.len());
                    assert(self.clients@[i as int].0 == event_id);
                    assert(self.clients@[i as int].1@ == s0[i as int].1@.push(listener));
                    assert(forall|j: int|
                        0 <= j < s0.len() && j != i ==> self.clients@[j] == s0[j]);
                    lemma_reg_update_to(s0, self.clients@, i as int, event_id);
                }
                return ;
            }
            i += 1;
        }
        proof {
            assert(s0.skip(n as int).len() == 0);
        }
        let mut fresh_list: Vec<u64> = Vec::new();
        fresh_list.push(listener);
        self.clients.push((event_id, fresh_list));
        proof {
            assert(self.clients@ =~= s0.push(self.clients@.last()));
            assert(self.clients@.last().0 == event_id);
            assert(self.clients@.last().1@ =~= seq![listener]);
            assert forall|id: u128| true implies spec_listeners(*self, id) == (if id == event_id {
                spec_listeners(*old(self), event_id).push(listener)
            } else {
                spec_listeners(*old(self), id)
            }) by {
                lemma_reg_lookup_push(s0, self.clients@.last(), id);
                if id == event_id {
                    assert(reg_lookup(s0, event_id) is None);
                    assert(spec_listeners(*old(self), event_id) =~= Seq::<u64>::empty());
                    assert(seq![listener] =~= Seq::<u64>::empty().push(listener));
                }
            }
        }
    }

    /// Removes one listener from the list under its resource id; every
    /// other listener of that id, and every other id, is untouched.
    pub fn remove(&mut self, event_id: u128, listener: u64)
        ensures
            spec_listeners(*final(self), event_id) == spec_remove_listener(
                spec_listeners(*old(self), event_id),
                listener,
            ),
            forall|id: u128|
                id != event_id ==> spec_listeners(*final(self), id) == spec_listeners(
                    *old(self),
                    id,
                ),
    {
        let ghost s0 = self.clients@;
        let n = self.clients.len();
        let mut i: usize = 0;
        proof {
            assert(s0.skip(0) =~= s0);
        }
        while i < n
            invariant
                n == self.clients@.len(),
                s0 == self.clients@,
                s0 == old(self).clients@,
                0 <= i <= n,
                forall|j: int| 0 <= j < i ==> s0[j].0 != event_id,
                reg_lookup(s0, event_id) == reg_lookup(s0.skip(i as int), event_id),
            decreases n - i,
        {
            proof {
                assert(s0.skip(i as int)[0] == s0[i as int]);
                assert(s0.skip(i as int).skip(1) =~= s0.skip(i + 1));
            }
            if self.clients[i].0 == event_id {
                let (eid, list) = self.clients.remove(i);
                let ghost old_list = list@;
                let mut kept: Vec<u64> = Vec::new();
                let m = list.len();
                let mut j: usize = 0;
                proof {
                    assert(old_list.take(0) =~= Seq::<u64>::empty());
                    assert(spec_remove_listener(Seq::<u64>::empty(), listener) =~= Seq::<
                        u64,
                    >::empty()) by {
                        reveal(Seq::filter);
                    }
                }
                while j < m
                    invariant
                        m == old_list.len(),
                        list@ == old_list,
                        0 <= j <= m,
                        kept@ == spec_remove_listener(old_list.take(j as int), listener),
                    decreases m - j,
                {
                    let candidate = list[j];
                    proof {
                        reveal(Seq::filter);
                        assert(old_list.take(j + 1).drop_last() =~= old_list.take(j as int));
                        assert(old_list.take(j + 1).last() == old_list[j as int]);
                    }
                    if candidate != listener {
                        kept.push(candidate);
                    }
                    j += 1;
                }
                proof {
                    assert(old_list.take(m as int) =~= old_list);
                }
                self.clients.insert(i, (eid, kept));
                proof {
                    assert(self.clients@.len() == s0.len());
                    assert(self.clients@[i as int].0 == event_id);
                    assert(self.clients@[i as int].1@ == spec_remove_listener(
                        old_list,
                        listener,
                    ));
                    assert(forall|j2: int|
                        0 <= j2 < s0.len() && j2 != i ==> self.clients@[j2] == s0[j2]);
                    lemma_reg_update_to(s0, self.clients@, i as int, event_id);
                }
                return ;
            }
            i += 1;
        }
        proof {
            assert(s0.skip(n as int).len() == 0);
            assert(spec_listeners(*self, event_id) =~= Seq::<u64>::empty());
            assert(spec_remove_listener(Seq::<u64>::empty(), listener) =~= Seq::<u64>::empty())
                by {
                reveal(Seq::filter);
            }
        }
    }

    /// The listeners currently registered under `event_id`.
    pub fn listeners_for(&self, event_id: u128) -> (r: Vec<u64>)
        ensures
            r@ == spec_listeners(*self, event_id),
    {
        let ghost s0 = self.clients@;
        let n = self.clients.len();
        let mut i: usize = 0;
        proof {
            assert(s0.skip(0) =~= s0);
        }
        while i < n
            invariant
                n == self.clients@.len(),
                s0 == self.clients@,
                0 <= i <= n,
                reg_lookup(s0, event_id) == reg_lookup(s0.skip(i as int), event_id),
            decreases n - i,
        {
            proof {
                assert(s0.skip(i as int)[0] == s0[i as int]);
                assert(s0.skip(i as int).skip(1) =~= s0.skip(i + 1));
            }
            if self.clients[i].0 == event_id {
                return self.clients[i].1.clone();
            }
            i += 1;
        }
        proof {
            assert(s0.skip(n as int).len() == 0);
        }
        Vec::new()
    }
}

/// Removing one listener keeps every other listener registered.
pub proof fn lemma_remove_keeps_others(s: Seq<u64>, removed: u64, other: u64)
    requires
        other != removed,
    ensures
        spec_remove_listener(s, removed).contains(other) == s.contains(other),
    decreases s.len(),
{
    reveal(Seq::filter);
    if s.len() > 0 {
        lemma_remove_keeps_others(s.drop_last(), removed, other);
        let pruned = spec_remove_listener(s, removed);
        let pruned_prefix = spec_remove_listener(s.drop_last(), removed);
        assert(s.contains(other) == (s.drop_last().contains(other) || s.last() == other)) by {
            if s.contains(other) {
                let w = choose|w: int| 0 <= w < s.len() && s[w] == other;
                if w < s.len() - 1 {
                    assert(s.drop_last()[w] == other);
                }
            }
            if s.drop_last().contains(other) {
                let w = choose|w: int| 0 <= w < s.drop_last().len() && s.drop_last()[w] == other;
                assert(s[w] == other);
            }
        }
        if s.last() != removed {
            assert(pruned == pruned_prefix.push(s.last()));
            assert(pruned.contains(other) == (pruned_prefix.contains(other) || s.last()
                == other)) by {
                if pruned.contains(other) {
                    let w = choose|w: int| 0 <= w < pruned.len() && pruned[w] == other;
                    if w < pruned.len() - 1 {
                        assert(pruned_prefix[w] == other);
                    }
                }
                if pruned_prefix.contains(other) {
                    let w = choose|w: int|
                        0 <= w < pruned_prefix.len() && pruned_prefix[w] == other;
                    assert(pruned[w] == other);
                }
            }
        } else {
            assert(pruned == pruned_prefix);
        }
    }
}

/// A connection's heartbeat state: the instant of the last sign of life,
/// and the resource id whose events it receives.
pub struct EventWebSocket {
    pub heartbeat: u64,
    pub event_id: u128,
}

/// Frames arriving on one connection.
pub enum WsMessage {
    Ping(String),
    Pong(String),
    Text(String),
    Binary(Vec<u8>),
    Close,
    ProtocolError,
}

/// What the connection does in reaction to a frame or a timer tick.
pub enum WsAction {
    /// Answer a ping, echoing its payload.
    ReplyPong(String),
    /// Echo a text frame.
    ReplyText(String),
    /// Echo a binary frame.
    ReplyBinary(Vec<u8>),
    /// Close the connection; the caller removes it from the registry.
    CloseConnection,
    /// Nothing to send.
    Nothing,
}

/// Whether the connection has been silent past the allowed timeout.
pub open spec fn spec_timed_out(ws: EventWebSocket, now: u64) -> bool {
    ws.heartbeat + CLIENT_TIMEOUT_MS < now
}

impl EventWebSocket {
    /// A freshly opened connection: alive now.
    pub fn new(event_id: u128, now: u64) -> (r: EventWebSocket)
        ensures
            r.event_id == event_id,
            r.heartbeat == now,
    {
        EventWebSocket { heartbeat: now, event_id }
    }

    /// Reacts to one incoming frame: pings are answered and pongs
    /// absorbed, both counting as signs of life; text and binary frames
    /// are echoed; a close frame or a protocol error closes the
    /// connection.
    pub fn handle(&mut self, message: WsMessage, now: u64) -> (action: WsAction)
        ensures
            final(self).event_id == old(self).event_id,
            match message {
                WsMessage::Ping(m) => final(self).heartbeat == now && action == (
                WsAction::ReplyPong(m)),
                WsMessage::Pong(_) => final(self).heartbeat == now && action == (
                WsAction::Nothing),
                WsMessage::Text(t) => final(self).heartbeat == old(self).heartbeat && action
                    == (WsAction::ReplyText(t)),
                WsMessage::Binary(b) => final(self).heartbeat == old(self).heartbeat && action
                    == (WsAction::ReplyBinary(b)),
                WsMessage::Close => final(self).heartbeat == old(self).heartbeat && action == (
                WsAction::CloseConnection),
                WsMessage::ProtocolError => final(self).heartbeat == old(self).heartbeat
                    && action == (WsAction::CloseConnection),
            },
    {
        match message {
            WsMessage::Ping(m) => {
                self.heartbeat = now;
                WsAction::ReplyPong(m)
            },
            WsMessage::Pong(_) => {
                self.heartbeat = now;
                WsAction::Nothing
            },
            WsMessage::Text(t) => WsAction::ReplyText(t),
            WsMessage::Binary(b) => WsAction::ReplyBinary(b),
            WsMessage::Close => WsAction::CloseConnection,
            WsMessage::ProtocolError => WsAction::CloseConnection,
        }
    }

    /// The periodic heartbeat tick: a ping goes out every interval, and
    /// the connection is closed when it has been silent past the timeout.
    pub fn heartbeat_tick(&self, now: u64) -> (close: bool)
        ensures
            close == spec_timed_out(*self, now),
    {
        if self.heartbeat > u64::MAX - CLIENT_TIMEOUT_MS {
            false
        } else {
            now > self.heartbeat + CLIENT_TIMEOUT_MS
        }
    }
}

/// The channels the subscriber listens on.
pub enum RedisPubSubChannel {
    TicketRedemptions,
}

impl RedisPubSubChannel {
    /// The channel's name on the wire.
    pub fn name(&self) -> (r: &'static str)
        ensures
            r@ == "TicketRedemptions"@,
    {
        "TicketRedemptions"
    }
}

/// A decoded domain event: a ticket was redeemed for an event.
#[derive(Clone, Copy, PartialEq, Eq, Structural)]
pub struct TicketRedemption {
    pub event_id: u128,
    pub ticket_id: u128,
}

/// One message, or read failure, on the subscriber connection. The
/// payload arrives already decoded from its wire form; an undecodable
/// payload reads as `None`.
pub enum InboundMessage {
    Received(String, Option<TicketRedemption>),
    ReadError,
}

/// What one iteration of the subscriber loop does.
pub enum LoopStep {
    /// The stop signal was observed: leave the loop.
    Stop,
    /// Deliver the event to exactly these listeners.
    Deliver(Vec<u64>, TicketRedemption),
    /// Not a message for us: keep looping.
    Ignore,
    /// Transient read error: sleep, then keep looping.
    Sleep,
}

/// The decision of one subscriber-loop iteration: stop when asked; sleep
/// and retry on a read error; deliver a decoded redemption arriving on
/// the redemptions channel to exactly the listeners registered under its
/// event id; ignore everything else.
pub fn subscriber_step(
    registry: &ListenerRegistry,
    stop_requested: bool,
    inbound: InboundMessage,
) -> (r: LoopStep)
    ensures
        stop_requested ==> r is Stop,
        !stop_requested ==> match inbound {
            InboundMessage::ReadError => r is Sleep,
            InboundMessage::Received(channel, decoded) => {
                if channel@ == "TicketRedemptions"@ {
                    match decoded {
                        Option::Some(event) => (r matches LoopStep::Deliver(targets, delivered)
                            && targets@ == spec_listeners(*registry, event.event_id)
                            && delivered == event),
                        Option::None => r is Ignore,
                    }
                } else {
                    r is Ignore
                }
            },
        },
{
    if stop_requested {
        return LoopStep::Stop;
    }
    match inbound {
        InboundMessage::ReadError => LoopStep::Sleep,
        InboundMessage::Received(channel, decoded) => {
            if str_eq(channel.as_str(), "TicketRedemptions") {
                match decoded {
                    Option::Some(event) => {
                        let targets = registry.listeners_for(event.event_id);
                        LoopStep::Deliver(targets, event)
                    },
                    Option::None => LoopStep::Ignore,
                }
            } else {
                LoopStep::Ignore
            }
        },
    }
}

/// Fan-out isolation: what the subscriber delivers for one resource id
/// is exactly the listener list registered under that id, so a listener
/// registered only under a different id never receives the event.
pub proof fn lemma_fanout_isolation(
    reg: ListenerRegistry,
    delivered_to: Seq<u64>,
    event_id: u128,
    other_id: u128,
    bystander: u64,
)
    requires
        delivered_to == spec_listeners(reg, event_id),
        other_id != event_id,
        spec_listeners(reg, other_id).contains(bystander),
        !spec_listeners(reg, event_id).contains(bystander),
    ensures
        !delivered_to.contains(bystander),
{
}

} // verus!
