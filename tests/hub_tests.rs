use chat::hub::{ClientHandle, Hub, HubCommand, HubOutcome};
use tokio::sync::mpsc;

fn client(id: &str, cap: usize) -> (ClientHandle, mpsc::Receiver<Vec<u8>>) {
    let (tx, rx) = mpsc::channel(cap);
    (ClientHandle { id: id.to_string(), username: format!("user-{}", id), tx }, rx)
}

fn drain(rx: &mut mpsc::Receiver<Vec<u8>>) -> Vec<Vec<u8>> {
    let mut out = Vec::new();
    while let Ok(v) = rx.try_recv() {
        out.push(v);
    }
    out
}

#[test]
fn broadcast_reaches_every_member_once_in_order() {
    let mut hub = Hub::new();
    let mut rxs = Vec::new();
    for id in ["a", "b", "c"] {
        let (h, rx) = client(id, 8);
        hub.register(h);
        rxs.push(rx);
    }
    let r1 = hub.broadcast(&b"first".to_vec());
    let r2 = hub.broadcast(&b"second".to_vec());
    assert_eq!(r1.delivered, vec![true, true, true]);
    assert_eq!(r2.delivered, vec![true, true, true]);
    assert!(r1.evicted.is_empty());
    assert_eq!(hub.len(), 3);
    for rx in rxs.iter_mut() {
        assert_eq!(drain(rx), vec![b"first".to_vec(), b"second".to_vec()]);
    }
}

#[test]
fn slow_consumer_is_evicted_and_others_keep_receiving() {
    let mut hub = Hub::new();
    let (slow, mut slow_rx) = client("slow", 1);
    let (fast, mut fast_rx) = client("fast", 16);
    hub.register(slow);
    hub.register(fast);
    let r1 = hub.broadcast(&vec![1]);
    assert_eq!(r1.delivered, vec![true, true]);
    let r2 = hub.broadcast(&vec![2]);
    assert_eq!(r2.delivered, vec![false, true]);
    assert_eq!(r2.evicted.len(), 1);
    assert_eq!(r2.evicted[0].id, "slow");
    assert_eq!(hub.len(), 1);
    let r3 = hub.broadcast(&vec![3]);
    assert_eq!(r3.delivered, vec![true]);
    assert_eq!(drain(&mut slow_rx), vec![vec![1]]);
    assert_eq!(drain(&mut fast_rx), vec![vec![1], vec![2], vec![3]]);
}

#[test]
fn closed_receiver_is_evicted() {
    let mut hub = Hub::new();
    let (h, rx) = client("gone", 4);
    hub.register(h);
    drop(rx);
    let r = hub.broadcast(&vec![9]);
    assert_eq!(r.delivered, vec![false]);
    assert_eq!(hub.len(), 0);
}

#[test]
fn register_replaces_same_id_and_unregister_absent_is_noop() {
    let mut hub = Hub::new();
    let (h1, mut rx1) = client("x", 4);
    let (h2, mut rx2) = client("x", 4);
    hub.register(h1);
    hub.register(h2);
    assert_eq!(hub.len(), 1);
    hub.broadcast(&vec![7]);
    assert!(drain(&mut rx1).is_empty());
    assert_eq!(drain(&mut rx2), vec![vec![7]]);
    assert!(hub.unregister(&"nobody".to_string()).is_none());
    assert_eq!(hub.len(), 1);
    let removed = hub.unregister(&"x".to_string()).unwrap();
    assert_eq!(removed.username, "user-x");
    assert_eq!(hub.len(), 0);
}

#[test]
fn apply_runs_commands_in_order() {
    let mut hub = Hub::new();
    let (h, mut rx) = client("a", 4);
    match hub.apply(HubCommand::Register(h)) {
        HubOutcome::Registered(n) => assert_eq!(n, 1),
        _ => panic!("expected a registration"),
    }
    match hub.apply(HubCommand::Broadcast(vec![5])) {
        HubOutcome::Broadcast(rep) => assert_eq!(rep.delivered, vec![true]),
        _ => panic!("expected a broadcast"),
    }
    match hub.apply(HubCommand::Unregister("a".to_string())) {
        HubOutcome::Unregistered(o) => assert!(o.is_some()),
        _ => panic!("expected an unregistration"),
    }
    match hub.apply(HubCommand::Broadcast(vec![6])) {
        HubOutcome::Broadcast(rep) => assert!(rep.delivered.is_empty()),
        _ => panic!("expected a broadcast"),
    }
    assert_eq!(drain(&mut rx), vec![vec![5]]);
}
