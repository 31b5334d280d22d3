use chat_fanout::registry::{broadcast_to_channel, delivered_count, ConnectionMap, Outcome};
use tokio::sync::mpsc::{unbounded_channel, UnboundedReceiver};

fn drain(rx: &mut UnboundedReceiver<String>) -> Vec<String> {
    let mut out = Vec::new();
    while let Ok(frame) = rx.try_recv() {
        out.push(frame);
    }
    out
}

fn sorted(mut v: Vec<u128>) -> Vec<u128> {
    v.sort();
    v
}

#[test]
fn connect_subscribe_broadcast_disconnect_scenario() {
    let mut map = ConnectionMap::new();
    let (a, b, c1): (u128, u128, u128) = (1, 2, 100);

    let (tx_a, mut rx_a) = unbounded_channel::<String>();
    let sa = map.register(a, tx_a);
    assert!(map.subscribe(a, sa, c1));
    assert_eq!(broadcast_to_channel(&map, c1, &"hello".to_string(), None), 1);
    assert_eq!(drain(&mut rx_a), vec!["hello".to_string()]);

    let (tx_b, mut rx_b) = unbounded_channel::<String>();
    let sb = map.register(b, tx_b);
    assert!(map.subscribe(b, sb, c1));
    assert_eq!(broadcast_to_channel(&map, c1, &"hi".to_string(), Some(a)), 1);
    assert!(drain(&mut rx_a).is_empty());
    assert_eq!(drain(&mut rx_b), vec!["hi".to_string()]);

    assert!(map.disconnect(a, sa));
    assert_eq!(broadcast_to_channel(&map, c1, &"yo".to_string(), None), 1);
    assert_eq!(drain(&mut rx_b), vec!["yo".to_string()]);

    assert!(map.unsubscribe(b, sb, c1));
    assert_eq!(broadcast_to_channel(&map, c1, &"bye".to_string(), None), 0);
    assert!(drain(&mut rx_b).is_empty());
    assert!(!map.has_channel(c1));
}

#[test]
fn subscribing_twice_keeps_one_subscriber() {
    let mut map = ConnectionMap::new();
    let (tx, _rx) = unbounded_channel::<String>();
    let s = map.register(7, tx);
    assert!(map.subscribe(7, s, 50));
    assert_eq!(map.subscribers_of(50), vec![7]);
    assert!(map.subscribe(7, s, 50));
    assert_eq!(map.subscribers_of(50), vec![7]);
    assert_eq!(map.targets(50, None), vec![(7, s)]);
}

#[test]
fn user_stays_subscribed_until_last_session_unsubscribes() {
    let mut map = ConnectionMap::new();
    let (tx1, _rx1) = unbounded_channel::<String>();
    let (tx2, _rx2) = unbounded_channel::<String>();
    let s1 = map.register(3, tx1);
    let s2 = map.register(3, tx2);
    assert!(map.subscribe(3, s1, 9));
    assert!(map.subscribe(3, s2, 9));
    assert!(map.unsubscribe(3, s1, 9));
    assert_eq!(map.subscribers_of(9), vec![3]);
    assert_eq!(map.targets(9, None), vec![(3, s2)]);
    assert!(map.unsubscribe(3, s2, 9));
    assert!(map.subscribers_of(9).is_empty());
    assert!(!map.has_channel(9));
}

#[test]
fn excluded_user_receives_nothing() {
    let mut map = ConnectionMap::new();
    let (tx1, mut rx1) = unbounded_channel::<String>();
    let (tx2, mut rx2) = unbounded_channel::<String>();
    let s1 = map.register(5, tx1);
    let s2 = map.register(5, tx2);
    assert!(map.subscribe(5, s1, 11));
    assert!(map.subscribe(5, s2, 11));
    assert!(map.broadcast(11, &"x".to_string(), Some(5)).is_empty());
    assert!(map.targets(11, Some(5)).is_empty());
    assert!(drain(&mut rx1).is_empty());
    assert!(drain(&mut rx2).is_empty());
    assert_eq!(broadcast_to_channel(&map, 11, &"y".to_string(), Some(6)), 2);
    assert_eq!(drain(&mut rx1), vec!["y".to_string()]);
    assert_eq!(drain(&mut rx2), vec!["y".to_string()]);
}

#[test]
fn broadcast_on_empty_channel_delivers_nothing() {
    let mut map = ConnectionMap::new();
    let (tx, mut rx) = unbounded_channel::<String>();
    let s = map.register(1, tx);
    assert!(map.subscribe(1, s, 2));
    assert_eq!(broadcast_to_channel(&map, 3, &"m".to_string(), None), 0);
    assert!(map.broadcast(3, &"m".to_string(), None).is_empty());
    assert!(map.targets(3, None).is_empty());
    assert!(drain(&mut rx).is_empty());
}

#[test]
fn teardown_rechecks_every_held_channel() {
    let mut map = ConnectionMap::new();
    let (tx1, _rx1) = unbounded_channel::<String>();
    let (tx2, _rx2) = unbounded_channel::<String>();
    let s1 = map.register(4, tx1);
    let s2 = map.register(4, tx2);
    assert!(map.subscribe(4, s1, 20));
    assert!(map.subscribe(4, s1, 21));
    assert!(map.subscribe(4, s2, 21));
    assert!(map.disconnect(4, s1));
    assert!(!map.has_channel(20));
    assert_eq!(map.subscribers_of(21), vec![4]);
    assert_eq!(map.sessions_for(4), vec![s2]);
    assert!(map.disconnect(4, s2));
    assert!(!map.has_channel(21));
    assert!(!map.is_connected(4));
}

#[test]
fn registry_lists_users_with_live_sessions() {
    let mut map = ConnectionMap::new();
    assert!(!map.is_connected(8));
    assert!(map.sessions_for(8).is_empty());
    let (tx1, _rx1) = unbounded_channel::<String>();
    let (tx2, _rx2) = unbounded_channel::<String>();
    let s1 = map.register(8, tx1);
    let s2 = map.register(8, tx2);
    assert_ne!(s1, s2);
    assert!(map.is_connected(8));
    assert_eq!(map.sessions_for(8), vec![s1, s2]);
    assert!(map.disconnect(8, s1));
    assert!(map.is_connected(8));
    assert!(map.disconnect(8, s2));
    assert!(!map.is_connected(8));
}

#[test]
fn disconnecting_twice_is_a_no_op() {
    let mut map = ConnectionMap::new();
    let (tx, _rx) = unbounded_channel::<String>();
    let s = map.register(1, tx);
    assert!(map.subscribe(1, s, 2));
    assert!(map.disconnect(1, s));
    assert!(!map.disconnect(1, s));
    assert!(!map.has_channel(2));
    assert!(!map.is_connected(1));
}

#[test]
fn unknown_sessions_change_nothing() {
    let mut map = ConnectionMap::new();
    let (tx, _rx) = unbounded_channel::<String>();
    let s = map.register(1, tx);
    assert!(!map.subscribe(2, s, 3));
    assert!(!map.subscribe(1, s + 1, 3));
    assert!(!map.unsubscribe(1, s + 1, 3));
    assert!(!map.has_channel(3));
    assert_eq!(map.sessions_for(1), vec![s]);
}

#[test]
fn closed_queue_is_skipped_without_affecting_others() {
    let mut map = ConnectionMap::new();
    let (tx1, rx1) = unbounded_channel::<String>();
    let (tx2, mut rx2) = unbounded_channel::<String>();
    let s1 = map.register(1, tx1);
    let s2 = map.register(2, tx2);
    assert!(map.subscribe(1, s1, 5));
    assert!(map.subscribe(2, s2, 5));
    drop(rx1);
    assert_eq!(sorted(map.subscribers_of(5)), vec![1, 2]);
    assert_eq!(map.targets(5, None).len(), 2);
    let outcomes = map.broadcast(5, &"p".to_string(), None);
    assert_eq!(outcomes.len(), 2);
    assert!(outcomes.contains(&((1, s1), false)));
    assert!(outcomes.contains(&((2, s2), true)));
    assert_eq!(delivered_count(&outcomes), 1);
    assert_eq!(broadcast_to_channel(&map, 5, &"q".to_string(), None), 1);
    assert_eq!(drain(&mut rx2), vec!["p".to_string(), "q".to_string()]);
}

#[test]
fn only_subscribed_sessions_of_a_user_receive() {
    let mut map = ConnectionMap::new();
    let (tx1, mut rx1) = unbounded_channel::<String>();
    let (tx2, mut rx2) = unbounded_channel::<String>();
    let s1 = map.register(6, tx1);
    let s2 = map.register(6, tx2);
    assert!(map.subscribe(6, s1, 30));
    assert_eq!(broadcast_to_channel(&map, 30, &"only".to_string(), None), 1);
    assert_eq!(drain(&mut rx1), vec!["only".to_string()]);
    assert!(drain(&mut rx2).is_empty());
    assert_eq!(map.targets(30, None), vec![(6, s1)]);
    let _ = s2;
}

#[test]
fn frames_reach_a_session_in_order() {
    let mut map = ConnectionMap::new();
    let (tx, mut rx) = unbounded_channel::<String>();
    let s = map.register(1, tx);
    assert!(map.subscribe(1, s, 2));
    for frame in ["a", "b", "c"] {
        assert_eq!(broadcast_to_channel(&map, 2, &frame.to_string(), None), 1);
    }
    assert_eq!(drain(&mut rx), vec!["a".to_string(), "b".to_string(), "c".to_string()]);
}

#[test]
fn default_registry_is_empty() {
    let map = ConnectionMap::default();
    assert!(!map.is_connected(1));
    assert!(!map.has_channel(1));
    assert!(map.can_register());
    assert_eq!(broadcast_to_channel(&map, 1, &"z".to_string(), None), 0);
}

#[test]
fn every_target_gets_one_outcome() {
    let mut map = ConnectionMap::new();
    let (tx1, mut rx1) = unbounded_channel::<String>();
    let (tx2, mut rx2) = unbounded_channel::<String>();
    let s1 = map.register(1, tx1);
    let s2 = map.register(1, tx2);
    assert!(map.subscribe(1, s1, 4));
    assert!(map.subscribe(1, s2, 4));
    let outcomes = map.broadcast(4, &"f".to_string(), None);
    assert_eq!(outcomes, vec![((1, s1), true), ((1, s2), true)]);
    assert_eq!(drain(&mut rx1), vec!["f".to_string()]);
    assert_eq!(drain(&mut rx2), vec!["f".to_string()]);
}

#[test]
fn delivered_count_counts_taken_outcomes() {
    let none: Vec<Outcome> = Vec::new();
    assert_eq!(delivered_count(&none), 0);
    let mixed: Vec<Outcome> = vec![((1, 1), true), ((2, 2), false), ((3, 3), true)];
    assert_eq!(delivered_count(&mixed), 2);
    let refused: Vec<Outcome> = vec![((1, 1), false), ((1, 2), false)];
    assert_eq!(delivered_count(&refused), 0);
}
