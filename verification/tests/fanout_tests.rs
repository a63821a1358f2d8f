use bigneon_cache::fanout::EventWebSocket;
use bigneon_cache::fanout::InboundMessage;
use bigneon_cache::fanout::ListenerRegistry;
use bigneon_cache::fanout::LoopStep;
use bigneon_cache::fanout::RedisPubSubChannel;
use bigneon_cache::fanout::TicketRedemption;
use bigneon_cache::fanout::WsAction;
use bigneon_cache::fanout::WsMessage;

fn redemption(event_id: u128) -> TicketRedemption {
    TicketRedemption {
        event_id,
        ticket_id: 7,
    }
}

fn received(channel: &str, decoded: Option<TicketRedemption>) -> InboundMessage {
    InboundMessage::Received(channel.to_string(), decoded)
}

// An event published for one resource id is delivered to the listeners
// registered under that id only, never to listeners of another id.
#[test]
fn fanout_delivers_to_registered_listeners_only() {
    let mut registry = ListenerRegistry::new();
    registry.register(1, 10);
    registry.register(1, 11);
    registry.register(2, 20);

    let step = bigneon_cache::fanout::subscriber_step(
        &registry,
        false,
        received("TicketRedemptions", Some(redemption(1))),
    );
    match step {
        LoopStep::Deliver(targets, event) => {
            assert_eq!(targets, vec![10, 11]);
            assert_eq!(event.event_id, 1);
            assert!(!targets.contains(&20), "listeners of other ids never receive the event");
        }
        _ => panic!("a decoded redemption on the channel must be delivered"),
    }
}

// Removing one listener does not prevent delivery to the remaining
// listeners of the same id.
#[test]
fn removing_one_listener_keeps_the_rest() {
    let mut registry = ListenerRegistry::new();
    registry.register(1, 10);
    registry.register(1, 11);
    registry.register(1, 12);
    registry.remove(1, 11);

    assert_eq!(registry.listeners_for(1), vec![10, 12]);

    let step = bigneon_cache::fanout::subscriber_step(
        &registry,
        false,
        received("TicketRedemptions", Some(redemption(1))),
    );
    match step {
        LoopStep::Deliver(targets, _) => assert_eq!(targets, vec![10, 12]),
        _ => panic!("delivery must still happen for remaining listeners"),
    }
}

#[test]
fn subscriber_stops_when_asked() {
    let registry = ListenerRegistry::new();
    let step = bigneon_cache::fanout::subscriber_step(
        &registry,
        true,
        received("TicketRedemptions", Some(redemption(1))),
    );
    assert!(matches!(step, LoopStep::Stop));
}

#[test]
fn subscriber_sleeps_on_read_errors() {
    let registry = ListenerRegistry::new();
    let step =
        bigneon_cache::fanout::subscriber_step(&registry, false, InboundMessage::ReadError);
    assert!(matches!(step, LoopStep::Sleep));
}

#[test]
fn subscriber_ignores_other_channels_and_bad_payloads() {
    let registry = ListenerRegistry::new();
    let other = bigneon_cache::fanout::subscriber_step(
        &registry,
        false,
        received("SomethingElse", Some(redemption(1))),
    );
    assert!(matches!(other, LoopStep::Ignore));

    let undecodable = bigneon_cache::fanout::subscriber_step(
        &registry,
        false,
        received("TicketRedemptions", None),
    );
    assert!(matches!(undecodable, LoopStep::Ignore));
}

#[test]
fn channel_name_on_the_wire() {
    assert_eq!(RedisPubSubChannel::TicketRedemptions.name(), "TicketRedemptions");
}

// Pings are answered and count as signs of life; close frames and
// protocol errors close the connection.
#[test]
fn websocket_heartbeat_state_machine() {
    let mut ws = EventWebSocket::new(42, 0);
    assert_eq!(ws.event_id, 42);
    assert_eq!(ws.heartbeat, 0);

    let action = ws.handle(WsMessage::Ping("hi".to_string()), 1000);
    assert!(matches!(action, WsAction::ReplyPong(ref m) if m == "hi"));
    assert_eq!(ws.heartbeat, 1000);

    let action = ws.handle(WsMessage::Pong(String::new()), 2000);
    assert!(matches!(action, WsAction::Nothing));
    assert_eq!(ws.heartbeat, 2000);

    let action = ws.handle(WsMessage::Text("echo".to_string()), 3000);
    assert!(matches!(action, WsAction::ReplyText(ref t) if t == "echo"));
    assert_eq!(ws.heartbeat, 2000);

    let action = ws.handle(WsMessage::Close, 4000);
    assert!(matches!(action, WsAction::CloseConnection));

    let action = ws.handle(WsMessage::ProtocolError, 4000);
    assert!(matches!(action, WsAction::CloseConnection));
}

// A connection silent past the timeout is closed on the next tick; a
// live one is not.
#[test]
fn websocket_times_out_after_silence() {
    let mut ws = EventWebSocket::new(42, 0);
    assert!(!ws.heartbeat_tick(30_000));
    assert!(ws.heartbeat_tick(30_001));
    ws.handle(WsMessage::Pong(String::new()), 30_000);
    assert!(!ws.heartbeat_tick(60_000));
    assert!(ws.heartbeat_tick(60_001));
}

#[test]
fn listeners_for_unknown_id_is_empty() {
    let registry = ListenerRegistry::new();
    assert!(registry.listeners_for(99).is_empty());
}
