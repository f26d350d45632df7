use gossip::{Bridge, BridgeAction, BridgeEvent, BridgeStage, LEDGER_ENDPOINT};

#[test]
fn transaction_is_broadcast_as_encoded() {
    let mut b = Bridge::new();
    match b.step(BridgeEvent::Tx(vec![1, 2, 3])) {
        BridgeAction::Broadcast(bytes) => assert_eq!(bytes, vec![1, 2, 3]),
        _ => panic!("transaction not broadcast"),
    }
    assert_eq!(b.stage, BridgeStage::Committing);
    assert!(matches!(b.step(BridgeEvent::Committed), BridgeAction::Receive));
    assert_eq!(b.stage, BridgeStage::Receiving);
}

#[test]
fn failed_broadcast_keeps_the_bridge_going() {
    let mut b = Bridge::new();
    b.step(BridgeEvent::Tx(vec![7]));
    match b.step(BridgeEvent::Rejected("connection refused".to_string())) {
        BridgeAction::Report(m) => assert_eq!(m, "connection refused"),
        _ => panic!("failure not reported"),
    }
    assert_eq!(b.stage, BridgeStage::Receiving);
    match b.step(BridgeEvent::Tx(vec![8, 9])) {
        BridgeAction::Broadcast(bytes) => assert_eq!(bytes, vec![8, 9]),
        _ => panic!("next transaction not attempted"),
    }
}

#[test]
fn closed_channel_stops_the_bridge() {
    let mut b = Bridge::new();
    assert!(matches!(b.step(BridgeEvent::Closed), BridgeAction::Stop));
    assert_eq!(b.stage, BridgeStage::Stopped);
}

#[test]
fn ledger_endpoint_is_local() {
    assert_eq!(LEDGER_ENDPOINT, "tcp://127.0.0.1:26657");
}
