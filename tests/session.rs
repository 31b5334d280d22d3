use chat_fanout::protocol::WsMessage;
use chat_fanout::registry::ConnectionMap;
use chat_fanout::session::{Connection, Phase, SessionAction, SessionEvent};
use tokio::sync::mpsc::unbounded_channel;

#[test]
fn session_walks_through_its_phases() {
    let mut map = ConnectionMap::new();
    let mut conn = Connection::new(42);
    assert_eq!(conn.phase(), Phase::Connecting);
    assert_eq!(conn.user_id(), 42);
    assert!(map.can_register());
    let (tx, _rx) = unbounded_channel::<String>();
    conn.open(&mut map, tx);
    assert_eq!(conn.phase(), Phase::Active);
    assert_eq!(map.sessions_for(42), vec![conn.session_id()]);
    conn.close(&mut map);
    assert_eq!(conn.phase(), Phase::Closed);
    assert!(!map.is_connected(42));
    conn.close(&mut map);
    assert_eq!(conn.phase(), Phase::Closed);
}

#[test]
fn subscribe_frame_is_acknowledged() {
    let mut map = ConnectionMap::new();
    let mut conn = Connection::new(1);
    let (tx, _rx) = unbounded_channel::<String>();
    conn.open(&mut map, tx);
    let reply = conn.handle_message(&mut map, WsMessage::Subscribe { channel_id: 77 });
    assert!(matches!(reply, Some(WsMessage::Subscribed { channel_id: 77 })));
    assert_eq!(map.subscribers_of(77), vec![1]);
    let reply = conn.handle_message(&mut map, WsMessage::Unsubscribe { channel_id: 77 });
    assert!(matches!(reply, Some(WsMessage::Unsubscribed { channel_id: 77 })));
    assert!(!map.has_channel(77));
}

#[test]
fn other_frames_are_ignored() {
    let mut map = ConnectionMap::new();
    let mut conn = Connection::new(1);
    let (tx, _rx) = unbounded_channel::<String>();
    conn.open(&mut map, tx);
    let msg = WsMessage::SendMessage { channel_id: 3, content: "hey".to_string() };
    assert!(conn.handle_message(&mut map, msg).is_none());
    let msg = WsMessage::Error { message: "bad".to_string() };
    assert!(conn.handle_message(&mut map, msg).is_none());
    assert!(!map.has_channel(3));
    assert_eq!(conn.phase(), Phase::Active);
}

#[test]
fn frames_outside_active_change_nothing() {
    let mut map = ConnectionMap::new();
    let mut conn = Connection::new(1);
    assert!(conn.handle_message(&mut map, WsMessage::Subscribe { channel_id: 4 }).is_none());
    assert!(!map.has_channel(4));
    let (tx, _rx) = unbounded_channel::<String>();
    conn.open(&mut map, tx);
    conn.close(&mut map);
    assert!(conn.handle_message(&mut map, WsMessage::Subscribe { channel_id: 4 }).is_none());
    assert!(!map.has_channel(4));
}

#[test]
fn closing_one_session_keeps_the_users_other_subscriptions() {
    let mut map = ConnectionMap::new();
    let mut first = Connection::new(9);
    let mut second = Connection::new(9);
    let (tx1, _rx1) = unbounded_channel::<String>();
    let (tx2, _rx2) = unbounded_channel::<String>();
    first.open(&mut map, tx1);
    second.open(&mut map, tx2);
    first.handle_message(&mut map, WsMessage::Subscribe { channel_id: 5 });
    second.handle_message(&mut map, WsMessage::Subscribe { channel_id: 5 });
    first.close(&mut map);
    assert_eq!(map.subscribers_of(5), vec![9]);
    second.close(&mut map);
    assert!(!map.has_channel(5));
}

#[test]
fn inbound_frames_are_told_apart() {
    assert!(WsMessage::Subscribe { channel_id: 1 }.is_inbound());
    assert!(WsMessage::Unsubscribe { channel_id: 1 }.is_inbound());
    assert!(WsMessage::SendMessage { channel_id: 1, content: String::new() }.is_inbound());
    assert!(!WsMessage::Subscribed { channel_id: 1 }.is_inbound());
    assert!(!WsMessage::Error { message: String::new() }.is_inbound());
}

#[test]
fn events_drive_the_session_to_closed() {
    let mut map = ConnectionMap::new();
    let mut conn = Connection::new(12);
    let (tx, _rx) = unbounded_channel::<String>();
    conn.open(&mut map, tx);

    let action = conn.on_event(&mut map, SessionEvent::Frame(WsMessage::Subscribe { channel_id: 8 }));
    assert!(matches!(action, SessionAction::Reply(WsMessage::Subscribed { channel_id: 8 })));
    assert_eq!(map.subscribers_of(8), vec![12]);

    assert!(matches!(conn.on_event(&mut map, SessionEvent::Malformed), SessionAction::Continue));
    assert_eq!(conn.phase(), Phase::Active);

    let frame = SessionEvent::Frame(WsMessage::SendMessage { channel_id: 8, content: "x".to_string() });
    assert!(matches!(conn.on_event(&mut map, frame), SessionAction::Continue));

    assert!(matches!(conn.on_event(&mut map, SessionEvent::TransportClosed), SessionAction::Stop));
    assert_eq!(conn.phase(), Phase::Closing);
    assert_eq!(map.subscribers_of(8), vec![12]);

    conn.close(&mut map);
    assert_eq!(conn.phase(), Phase::Closed);
    assert!(!map.has_channel(8));
    assert!(!map.is_connected(12));
}

#[test]
fn read_and_write_failures_are_fatal_to_the_session_only() {
    let mut map = ConnectionMap::new();
    let mut reader = Connection::new(1);
    let mut writer = Connection::new(2);
    let (tx1, _rx1) = unbounded_channel::<String>();
    let (tx2, _rx2) = unbounded_channel::<String>();
    reader.open(&mut map, tx1);
    writer.open(&mut map, tx2);
    reader.on_event(&mut map, SessionEvent::Frame(WsMessage::Subscribe { channel_id: 3 }));
    writer.on_event(&mut map, SessionEvent::Frame(WsMessage::Subscribe { channel_id: 3 }));

    assert!(matches!(reader.on_event(&mut map, SessionEvent::ReadFailed), SessionAction::Stop));
    reader.close(&mut map);
    assert_eq!(map.subscribers_of(3), vec![2]);

    assert!(matches!(writer.on_event(&mut map, SessionEvent::WriteFailed), SessionAction::Stop));
    assert_eq!(writer.phase(), Phase::Closing);
    writer.close(&mut map);
    assert!(!map.has_channel(3));
}

#[test]
fn events_before_open_do_nothing() {
    let mut map = ConnectionMap::new();
    let mut conn = Connection::new(5);
    let action = conn.on_event(&mut map, SessionEvent::Frame(WsMessage::Subscribe { channel_id: 1 }));
    assert!(matches!(action, SessionAction::Continue));
    assert!(matches!(conn.on_event(&mut map, SessionEvent::ReadFailed), SessionAction::Stop));
    assert_eq!(conn.phase(), Phase::Connecting);
    conn.close(&mut map);
    assert_eq!(conn.phase(), Phase::Closed);
    assert!(!map.has_channel(1));
}
