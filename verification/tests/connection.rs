use control_plane::connection::{http_endpoint, Backoff, LinkAction, LinkEvent, MAX_BACKOFF_SECS};

#[test]
fn failed_connects_double_the_pause_up_to_128() {
    let mut backoff = Backoff::new();
    let mut slept = Vec::new();
    for _ in 0..10 {
        match backoff.on(LinkEvent::ConnectFailed) {
            LinkAction::Reconnect { after } => slept.push(after),
            LinkAction::Subscribe => panic!("no connection stands"),
        }
    }
    assert_eq!(slept, vec![1, 2, 4, 8, 16, 32, 64, 128, 128, 128]);
    assert_eq!(backoff.current(), MAX_BACKOFF_SECS);
}

#[test]
fn a_connection_resets_the_pause() {
    let mut backoff = Backoff::new();
    backoff.on(LinkEvent::ConnectFailed);
    backoff.on(LinkEvent::ConnectFailed);
    assert_eq!(backoff.current(), 4);
    assert_eq!(backoff.on(LinkEvent::Connected), LinkAction::Subscribe);
    assert_eq!(backoff.current(), 1);
    assert_eq!(backoff.on(LinkEvent::ConnectFailed), LinkAction::Reconnect { after: 1 });
}

#[test]
fn a_refused_subscription_waits_a_second() {
    let mut backoff = Backoff::new();
    backoff.on(LinkEvent::Connected);
    assert_eq!(backoff.on(LinkEvent::SubscribeFailed), LinkAction::Reconnect { after: 1 });
    assert_eq!(backoff.current(), 1);
}

#[test]
fn the_end_of_a_stream_reconnects_at_once() {
    let mut backoff = Backoff::new();
    backoff.on(LinkEvent::Connected);
    assert_eq!(backoff.on(LinkEvent::StreamEnded), LinkAction::Reconnect { after: 0 });
    assert_eq!(backoff.current(), 1);
}

#[test]
fn websocket_addresses_become_https() {
    assert_eq!(http_endpoint("wss://arb1.example/rpc"), "https://arb1.example/rpc");
    assert_eq!(http_endpoint("https://arb1.example/rpc"), "https://arb1.example/rpc");
    assert_eq!(http_endpoint("ws://arb1.example/rpc"), "ws://arb1.example/rpc");
}
