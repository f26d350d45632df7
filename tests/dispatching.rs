use gossip::{Channel, Dispatcher, Error, Ready, Source, Step};

fn handled(d: &mut Dispatcher, items: Vec<Ready<String, u32>>) -> Vec<Step<String, u32>> {
    let mut out = Vec::new();
    for r in items {
        out.push(d.step(r));
    }
    out
}

#[test]
fn three_way_poll_order_rotates() {
    let mut d = Dispatcher::new(true);
    assert_eq!(d.poll_order(), vec![Source::Rpc, Source::Swarm, Source::Network]);
    d.step::<String, u32>(Ready::Event(1));
    assert_eq!(d.poll_order(), vec![Source::Swarm, Source::Network, Source::Rpc]);
    d.step::<String, u32>(Ready::Intent("a".to_string()));
    assert_eq!(d.poll_order(), vec![Source::Network, Source::Rpc, Source::Swarm]);
    d.step::<String, u32>(Ready::Event(2));
    assert_eq!(d.poll_order(), vec![Source::Rpc, Source::Swarm, Source::Network]);
}

#[test]
fn two_way_never_polls_rpc() {
    let mut d = Dispatcher::new(false);
    assert_eq!(d.rpc, Channel::Absent);
    for k in 0..7u32 {
        let order = d.poll_order();
        assert!(!order.contains(&Source::Rpc));
        assert_eq!(order.len(), 2);
        d.step::<String, u32>(Ready::Event(k));
    }
    assert_eq!(d.rpc, Channel::Absent);
}

#[test]
fn two_way_matches_three_way_on_shared_sources() {
    let mut two = Dispatcher::new(false);
    let mut three = Dispatcher::new(true);
    for k in 0..6u32 {
        let a = two.poll_order();
        let b: Vec<Source> = three.poll_order().into_iter().filter(|s| *s != Source::Rpc).collect();
        assert_eq!(a, b);
        match (two.step::<String, u32>(Ready::Event(k)), three.step::<String, u32>(Ready::Event(k))) {
            (Step::HandleNetwork(x), Step::HandleNetwork(y)) => assert_eq!((x, y), (k, k)),
            _ => panic!("network event not handed to the network handler"),
        }
    }
}

#[test]
fn end_to_end_intent_reaches_rpc_handler_once() {
    let mut d = Dispatcher::new(true);
    let steps = handled(&mut d, vec![Ready::Intent("I1".to_string())]);
    assert_eq!(steps.len(), 1);
    assert!(matches!(&steps[0], Step::HandleRpc(i) if i == "I1"));
    assert!(!steps.iter().any(|s| matches!(s, Step::HandleNetwork(_))));
}

#[test]
fn swarm_item_aborts_with_dispatcher_error() {
    let mut d = Dispatcher::new(true);
    d.step::<String, u32>(Ready::Intent("pending".to_string()));
    match d.step::<String, u32>(Ready::Swarm("Some(Dialing)".to_string())) {
        Step::Abort(Error::P2pDispatcherError(m)) => assert_eq!(m, "Some(Dialing)"),
        _ => panic!("swarm item must abort"),
    }
    let mut two = Dispatcher::new(false);
    assert!(matches!(
        two.step::<String, u32>(Ready::Swarm("None".to_string())),
        Step::Abort(Error::P2pDispatcherError(_))
    ));
}

#[test]
fn intents_and_events_keep_channel_order() {
    let mut d = Dispatcher::new(true);
    let items = vec![
        Ready::Intent("i1".to_string()),
        Ready::Event(10),
        Ready::Intent("i2".to_string()),
        Ready::Event(20),
        Ready::Event(30),
        Ready::Intent("i3".to_string()),
    ];
    let steps = handled(&mut d, items);
    let mut intents = Vec::new();
    let mut events = Vec::new();
    for s in steps {
        match s {
            Step::HandleRpc(i) => intents.push(i),
            Step::HandleNetwork(e) => events.push(e),
            _ => panic!("unexpected step"),
        }
    }
    assert_eq!(intents, vec!["i1", "i2", "i3"]);
    assert_eq!(events, vec![10, 20, 30]);
}

#[test]
fn every_open_source_leads_within_three_waits() {
    let mut d = Dispatcher::new(true);
    let mut led = Vec::new();
    for k in 0..3u32 {
        led.push(d.poll_order()[0]);
        d.step::<String, u32>(Ready::Event(k));
    }
    assert!(led.contains(&Source::Rpc));
    assert!(led.contains(&Source::Swarm));
    assert!(led.contains(&Source::Network));
}

#[test]
fn closed_channels_leave_the_rotation() {
    let mut d = Dispatcher::new(true);
    assert!(matches!(d.step::<String, u32>(Ready::RpcClosed), Step::Idle));
    assert_eq!(d.rpc, Channel::Closed);
    assert_eq!(d.poll_order(), vec![Source::Swarm, Source::Network]);
    assert!(matches!(d.step::<String, u32>(Ready::NetworkClosed), Step::Idle));
    assert_eq!(d.network, Channel::Closed);
    assert_eq!(d.poll_order(), vec![Source::Swarm]);
}

#[test]
fn error_detail_is_the_carried_text() {
    assert_eq!(Error::BadBookkeeper("no file".to_string()).detail(), "no file");
    assert_eq!(Error::P2pSwarmError("bind".to_string()).detail(), "bind");
    assert_eq!(Error::P2pDispatcherError("x".to_string()).detail(), "x");
}
