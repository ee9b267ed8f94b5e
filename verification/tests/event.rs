//! Events and those who watch them.
use tunnel_server::event::{BusEvent, EventBus, EventData, NODE_OFFLINE, NODE_ONLINE};

fn node(id: &str) -> EventData {
    EventData::Node { node_id: id.to_string(), name: None }
}

#[test]
fn event_bus_delivers_events_in_order_to_subscribers() {
    let mut bus = EventBus::new(8);
    let mut rx = bus.subscribe();

    bus.publish(NODE_ONLINE, node("a"));
    bus.publish(NODE_OFFLINE, node("a"));

    let e1 = rx.try_recv().unwrap();
    assert_eq!(e1.event_type, NODE_ONLINE);
    assert!(matches!(e1.data, EventData::Node { node_id, .. } if node_id == "a"));
    let e2 = rx.try_recv().unwrap();
    assert_eq!(e2.event_type, NODE_OFFLINE);
}

#[test]
fn subscriber_only_receives_events_after_subscription() {
    let mut bus = EventBus::new(8);
    bus.publish(NODE_ONLINE, node("a"));

    let mut rx = bus.subscribe();
    bus.publish(NODE_OFFLINE, node("a"));

    let e = rx.try_recv().unwrap();
    assert_eq!(e.event_type, NODE_OFFLINE);
    assert!(matches!(rx.try_recv(), Err(tokio::sync::broadcast::error::TryRecvError::Empty)));
}

#[test]
fn slow_watcher_loses_the_oldest_events() {
    let mut bus = EventBus::new(EventBus::DEFAULT_CAPACITY);
    let mut rx = bus.subscribe();
    for i in 0..257 {
        bus.publish(NODE_ONLINE, node(&i.to_string()));
    }
    assert!(matches!(
        rx.try_recv(),
        Err(tokio::sync::broadcast::error::TryRecvError::Lagged(1))
    ));
    let e = rx.try_recv().unwrap();
    assert!(matches!(e.data, EventData::Node { node_id, .. } if node_id == "1"));
}

#[test]
fn routes_of_a_node_have_changed() {
    let e = BusEvent::config_updated("n1".to_string());
    assert_eq!(e.event_type, "config.updated");
    assert!(matches!(e.data, EventData::Config { node_id } if node_id == "n1"));
}

#[test]
fn watcher_is_told_of_each_event_once_and_of_those_it_lost() {
    let mut bus = EventBus::new(4);
    bus.publish(NODE_ONLINE, node("before"));
    let mut rx = bus.subscribe();
    assert!(matches!(bus.next_event(&mut rx), Ok(None)));
    for i in 0..6 {
        bus.publish(NODE_ONLINE, node(&i.to_string()));
    }
    assert!(matches!(bus.next_event(&mut rx), Err(2)));
    for i in 2..6 {
        let e = bus.next_event(&mut rx).unwrap().unwrap();
        assert!(matches!(e.data, EventData::Node { node_id, .. } if node_id == i.to_string()));
    }
    assert!(matches!(bus.next_event(&mut rx), Ok(None)));
}
